//! MIDI controllers: which ones are connected, what they send, and how their
//! pads are lit.
//!
//! Controllers are identified by their client *name* (the USB product
//! string), which is stable across replugs; client ids are not and are only
//! used to tell apart what is connected at the moment.

use vstd::prelude::*;

use crate::fx::put;
use crate::list::{first, first_is_at};
use crate::text;
use crate::text::{begins, lower};

verus! {

/// What controllers report.
#[derive(Clone, Debug, PartialEq, Eq)]
pub enum MidiEvent {
    /// A control-change message (CC) from a connected controller.
    Control { device: String, channel: u8, number: u8, value: u8 },
    /// A note-on with velocity > 0 (pad/button press). Note-offs and
    /// zero-velocity note-ons are filtered out at this layer.
    NoteOn { device: String, channel: u8, number: u8 },
    /// A controller appeared or disappeared.
    DevicesChanged,
}

/// A port of the sequencer.
#[derive(Clone, Copy, Debug, PartialEq, Eq, Structural)]
pub struct PortAddr {
    pub client: i32,
    pub port: i32,
}

/// A connected controller.
#[derive(Clone, Debug, PartialEq, Eq)]
pub struct DeviceInfo {
    pub client: i32,
    pub name: String,
    /// Writable ports of this client, for LED feedback.
    pub feedback: Vec<PortAddr>,
}

/// A port as the sequencer lists it.
#[derive(Clone, Copy, Debug, PartialEq, Eq, Structural)]
pub struct PortListing {
    pub addr: PortAddr,
    /// The port can be read and subscribed to.
    pub readable: bool,
    /// The port can be written and subscribed to.
    pub writable: bool,
}

/// A client as the sequencer lists it.
#[derive(Clone, Debug, PartialEq, Eq)]
pub struct ClientListing {
    pub client: i32,
    pub name: String,
    pub ports: Vec<PortListing>,
}

/// A connection between two ports.
#[derive(Clone, Copy, Debug, PartialEq, Eq, Structural)]
pub struct Subscription {
    pub sender: PortAddr,
    pub dest: PortAddr,
}

/// An event as the sequencer delivers it.
#[derive(Clone, Copy, Debug, PartialEq, Eq, Structural)]
pub enum SeqEvent {
    Controller { client: i32, channel: u8, param: u32, value: i32 },
    NoteOn { client: i32, channel: u8, note: u8, velocity: u8 },
    /// A client or port came, went or changed.
    Announce,
    Other,
}

/// A message from a client whose name is still to be resolved.
#[derive(Clone, Copy, Debug, PartialEq, Eq, Structural)]
pub enum RawEvent {
    Control { client: i32, channel: u8, number: u8, value: u8 },
    NoteOn { client: i32, channel: u8, number: u8 },
}

impl RawEvent {
    pub open spec fn sender(self) -> i32 {
        match self {
            RawEvent::Control { client, .. } => client,
            RawEvent::NoteOn { client, .. } => client,
        }
    }

    /// The client that sent the message.
    pub fn client(&self) -> (r: i32)
        ensures
            r == self.sender(),
    {
        match self {
            RawEvent::Control { client, .. } => *client,
            RawEvent::NoteOn { client, .. } => *client,
        }
    }
}

/// The message in an event: control numbers and values are held to seven bits,
/// and a note-on without velocity is none.
pub open spec fn message(e: SeqEvent) -> Option<RawEvent> {
    match e {
        SeqEvent::Controller { client, channel, param, value } => Some(
            RawEvent::Control {
                client,
                channel,
                number: if param <= 127 {
                    param as u8
                } else {
                    127
                },
                value: if value < 0 {
                    0
                } else if value > 127 {
                    127
                } else {
                    value as u8
                },
            },
        ),
        SeqEvent::NoteOn { client, channel, note, velocity } => if velocity > 0 {
            Some(RawEvent::NoteOn { client, channel, number: note })
        } else {
            None
        },
        _ => None,
    }
}

/// The messages in some events.
pub open spec fn messages(s: Seq<SeqEvent>) -> Seq<RawEvent>
    decreases s.len(),
{
    if s.len() == 0 {
        Seq::empty()
    } else {
        let rest = messages(s.drop_last());
        match message(s.last()) {
            Some(m) => rest.push(m),
            None => rest,
        }
    }
}

/// The message in an event.
fn read_event(e: &SeqEvent) -> (r: Option<RawEvent>)
    ensures
        r == message(*e),
{
    match e {
        SeqEvent::Controller { client, channel, param, value } => Some(
            RawEvent::Control {
                client: *client,
                channel: *channel,
                number: if *param <= 127 {
                    *param as u8
                } else {
                    127
                },
                value: if *value < 0 {
                    0
                } else if *value > 127 {
                    127
                } else {
                    *value as u8
                },
            },
        ),
        SeqEvent::NoteOn { client, channel, note, velocity } => if *velocity > 0 {
            Some(RawEvent::NoteOn { client: *client, channel: *channel, number: *note })
        } else {
            None
        },
        _ => None,
    }
}

/// Whether these are the messages of some events, and whether clients changed.
pub open spec fn events_read(events: Seq<SeqEvent>, r: (Vec<RawEvent>, bool)) -> bool {
    &&& r.0@ == messages(events)
    &&& r.1 == events.contains(SeqEvent::Announce)
}

/// Split what the sequencer delivered into messages, and whether clients
/// changed.
pub fn read_events(events: &Vec<SeqEvent>) -> (r: (Vec<RawEvent>, bool))
    ensures
        events_read(events@, r),
{
    let mut raw: Vec<RawEvent> = Vec::new();
    let mut announce = false;
    let mut i: usize = 0;
    assert(events@.take(0) =~= Seq::<SeqEvent>::empty());
    while i < events.len()
        invariant
            i <= events@.len(),
            raw@ == messages(events@.take(i as int)),
            announce == exists|j: int| 0 <= j < i && #[trigger] events@[j] == SeqEvent::Announce,
        decreases events@.len() - i,
    {
        assert(events@.take(i + 1).drop_last() =~= events@.take(i as int));
        if let SeqEvent::Announce = events[i] {
            announce = true;
        }
        if let Some(m) = read_event(&events[i]) {
            raw.push(m);
        }
        i = i + 1;
    }
    assert(events@.take(i as int) =~= events@);
    (raw, announce)
}

/// An event as plain values.
pub enum EventView {
    Control { device: Seq<char>, channel: u8, number: u8, value: u8 },
    NoteOn { device: Seq<char>, channel: u8, number: u8 },
    DevicesChanged,
}

impl View for MidiEvent {
    type V = EventView;

    open spec fn view(&self) -> EventView {
        match self {
            MidiEvent::Control { device, channel, number, value } => EventView::Control {
                device: device@,
                channel: *channel,
                number: *number,
                value: *value,
            },
            MidiEvent::NoteOn { device, channel, number } => EventView::NoteOn {
                device: device@,
                channel: *channel,
                number: *number,
            },
            MidiEvent::DevicesChanged => EventView::DevicesChanged,
        }
    }
}

/// Events as plain values.
pub open spec fn event_views(s: Seq<MidiEvent>) -> Seq<EventView> {
    Seq::new(s.len(), |i: int| s[i]@)
}

/// The event of a message from a controller.
pub open spec fn named_event(m: RawEvent, device: Seq<char>) -> EventView {
    match m {
        RawEvent::Control { channel, number, value, .. } => EventView::Control {
            device,
            channel,
            number,
            value,
        },
        RawEvent::NoteOn { channel, number, .. } => EventView::NoteOn { device, channel, number },
    }
}

/// The controller of a client id.
pub open spec fn device_at(client: i32) -> spec_fn(DeviceInfo) -> bool {
    |d: DeviceInfo| d.client == client
}

/// A controller as plain values.
pub struct DeviceView {
    pub client: i32,
    pub name: Seq<char>,
    pub feedback: Seq<PortAddr>,
}

impl View for DeviceInfo {
    type V = DeviceView;

    open spec fn view(&self) -> DeviceView {
        DeviceView { client: self.client, name: self.name@, feedback: self.feedback@ }
    }
}

/// Controllers as plain values.
pub open spec fn device_views(s: Seq<DeviceInfo>) -> Seq<DeviceView> {
    Seq::new(s.len(), |i: int| s[i]@)
}

/// The controller of a client id.
pub open spec fn view_at(client: i32) -> spec_fn(DeviceView) -> bool {
    |d: DeviceView| d.client == client
}

/// The ports of a client that take light commands.
pub open spec fn feedback_ports(s: Seq<PortListing>) -> Seq<PortAddr>
    decreases s.len(),
{
    if s.len() == 0 {
        Seq::empty()
    } else {
        let rest = feedback_ports(s.drop_last());
        if s.last().writable {
            rest.push(s.last().addr)
        } else {
            rest
        }
    }
}

/// Whether a client sends anything.
pub open spec fn has_input(s: Seq<PortListing>) -> bool {
    exists|i: int| 0 <= i < s.len() && (#[trigger] s[i]).readable
}

/// Whether a name belongs to a bridge or loopback rather than a controller.
pub open spec fn is_bridge(name: Seq<char>) -> bool {
    name == "Midi Through"@ || begins(name, "PipeWire-"@)
}

/// The state of the MIDI side: its own ports, and the connected controllers.
#[derive(Clone, Debug, PartialEq, Eq)]
pub struct MidiManager {
    /// The sequencer could be opened. Otherwise MIDI support is simply absent.
    pub open: bool,
    pub client_id: i32,
    pub in_port: i32,
    pub out_port: i32,
    /// Connected controllers by sequencer client id.
    pub clients: Vec<DeviceInfo>,
}

impl Default for MidiManager {
    fn default() -> (r: Self)
        ensures
            !r.open,
            r.client_id == -1,
            r.in_port == -1,
            r.out_port == -1,
            r.clients@.len() == 0,
    {
        MidiManager::new()
    }
}

impl MidiManager {
    /// A manager without a sequencer.
    pub fn new() -> (r: MidiManager)
        ensures
            !r.open,
            r.client_id == -1,
            r.in_port == -1,
            r.out_port == -1,
            r.clients@.len() == 0,
    {
        MidiManager { open: false, client_id: -1, in_port: -1, out_port: -1, clients: Vec::new() }
    }

    /// Whether the sequencer could be opened.
    pub fn available(&self) -> (r: bool)
        ensures
            r == self.open,
    {
        self.open
    }

    /// Whether a controller of that name is connected.
    pub open spec fn connected(self, name: Seq<char>) -> bool {
        exists|i: int| 0 <= i < self.clients@.len() && (#[trigger] self.clients@[i]).name@ == name
    }

    /// Names of the currently connected controllers, in order and each once.
    pub fn devices(&self) -> (r: Vec<String>)
        ensures
            text::increasing(r@),
            forall|n: Seq<char>| #[trigger] text::listed(r@, n) <==> self.connected(n),
    {
        let mut out: Vec<String> = Vec::new();
        let mut i: usize = 0;
        while i < self.clients.len()
            invariant
                i <= self.clients@.len(),
                text::increasing(out@),
                forall|n: Seq<char>| #[trigger]
                    text::listed(out@, n) <==> exists|j: int|
                        0 <= j < i && (#[trigger] self.clients@[j]).name@ == n,
            decreases self.clients@.len() - i,
        {
            let ghost was = out@;
            text::insert_ordered(&mut out, self.clients[i].name.clone());
            proof {
                assert forall|n: Seq<char>| #[trigger]
                    text::listed(out@, n) <==> exists|j: int|
                        0 <= j < i + 1 && (#[trigger] self.clients@[j]).name@ == n by {
                    if text::listed(was, n) {
                        let j = choose|j: int| 0 <= j < i && (#[trigger] self.clients@[j]).name@ == n;
                        assert(self.clients@[j].name@ == n);
                    }
                    if self.clients@[i as int].name@ == n {
                        assert(text::listed(out@, n));
                    }
                }
            }
            i = i + 1;
        }
        out
    }

    /// Whether a client counts as a controller.
    pub open spec fn counts(self, c: ClientListing) -> bool {
        &&& c.client != 0
        &&& c.client != self.client_id
        &&& !is_bridge(c.name@)
    }

    /// The connections to make with the first `n` ports of a client: what it
    /// sends to the input, and from the output to what takes light commands.
    pub open spec fn port_links(self, s: Seq<PortListing>, n: int) -> Seq<Subscription>
        decreases n,
    {
        if n <= 0 {
            Seq::empty()
        } else {
            let p = s[n - 1];
            let a = if p.readable {
                seq![
                    Subscription {
                        sender: p.addr,
                        dest: PortAddr { client: self.client_id, port: self.in_port },
                    },
                ]
            } else {
                Seq::empty()
            };
            let b = if p.writable {
                seq![
                    Subscription {
                        sender: PortAddr { client: self.client_id, port: self.out_port },
                        dest: p.addr,
                    },
                ]
            } else {
                Seq::empty()
            };
            self.port_links(s, n - 1) + a + b
        }
    }

    /// The connections to make with the first `n` clients.
    pub open spec fn links(self, s: Seq<ClientListing>, n: int) -> Seq<Subscription>
        decreases n,
    {
        if n <= 0 {
            Seq::empty()
        } else if self.counts(s[n - 1]) {
            self.links(s, n - 1) + self.port_links(s[n - 1].ports@, s[n - 1].ports@.len() as int)
        } else {
            self.links(s, n - 1)
        }
    }

    /// The controllers among the first `n` clients.
    pub open spec fn controllers(self, s: Seq<ClientListing>, n: int) -> Seq<DeviceView>
        decreases n,
    {
        if n <= 0 {
            Seq::empty()
        } else {
            let rest = self.controllers(s, n - 1);
            let c = s[n - 1];
            let feedback = feedback_ports(c.ports@);
            if self.counts(c) && (has_input(c.ports@) || feedback.len() > 0) {
                put(
                    rest,
                    first(rest, view_at(c.client)),
                    DeviceView { client: c.client, name: c.name@, feedback },
                )
            } else {
                rest
            }
        }
    }

    /// Keep a controller, in place of one with the same client id.
    fn keep_client(clients: &mut Vec<DeviceInfo>, d: DeviceInfo)
        ensures
            device_views(final(clients)@) == put(
                device_views(old(clients)@),
                first(device_views(old(clients)@), view_at(d.client)),
                d@,
            ),
    {
        let ghost v = device_views(clients@);
        let mut i: usize = 0;
        while i < clients.len() && clients[i].client != d.client
            invariant
                i <= clients@.len(),
                clients@ == old(clients)@,
                v == device_views(clients@),
                forall|j: int| 0 <= j < i ==> !view_at(d.client)(#[trigger] v[j]),
            decreases clients@.len() - i,
        {
            i = i + 1;
        }
        proof {
            first_is_at(v, view_at(d.client), i as int);
        }
        let ghost dv = d@;
        if i < clients.len() {
            clients[i] = d;
            assert(device_views(clients@) =~= v.update(i as int, dv));
        } else {
            clients.push(d);
            assert(device_views(clients@) =~= v.push(dv));
        }
    }

    /// What a scan connects, and what it finds.
    pub open spec fn scanned(self, listing: Seq<ClientListing>, r: Seq<Subscription>, new: MidiManager) -> bool {
        &&& r == self.links(listing, listing.len() as int)
        &&& device_views(new.clients@) == self.controllers(listing, listing.len() as int)
        &&& new == (MidiManager { clients: new.clients, ..self })
    }

    /// Rebuild the list of controllers from what the sequencer lists. Gives
    /// the connections to make; making one that exists already does no harm.
    pub fn scan(&mut self, listing: &Vec<ClientListing>) -> (r: Vec<Subscription>)
        ensures
            old(self).scanned(listing@, r@, *final(self)),
    {
        let mut out: Vec<Subscription> = Vec::new();
        let mut clients: Vec<DeviceInfo> = Vec::new();
        assert(device_views(clients@) =~= Seq::<DeviceView>::empty());
        let mut i: usize = 0;
        while i < listing.len()
            invariant
                i <= listing@.len(),
                *self == *old(self),
                out@ == self.links(listing@, i as int),
                device_views(clients@) == self.controllers(listing@, i as int),
            decreases listing@.len() - i,
        {
            let c = &listing[i];
            if c.client != 0 && c.client != self.client_id && !text::same(c.name.as_str(), "Midi Through")
                && !text::starts_with(c.name.as_str(), "PipeWire-") {
                let ghost start = out@;
                let ghost ports = c.ports@;
                let mut input = false;
                let mut feedback: Vec<PortAddr> = Vec::new();
                let mut k: usize = 0;
                assert(ports.take(0) =~= Seq::<PortListing>::empty());
                assert(start + self.port_links(ports, 0) =~= start);
                while k < c.ports.len()
                    invariant
                        k <= ports.len(),
                        ports == c.ports@,
                        out@ == start + self.port_links(ports, k as int),
                        feedback@ == feedback_ports(ports.take(k as int)),
                        input == exists|j: int| 0 <= j < k && (#[trigger] ports[j]).readable,
                    decreases ports.len() - k,
                {
                    let p = c.ports[k];
                    assert(ports.take(k + 1).drop_last() =~= ports.take(k as int));
                    if p.readable {
                        input = true;
                        out.push(
                            Subscription {
                                sender: p.addr,
                                dest: PortAddr { client: self.client_id, port: self.in_port },
                            },
                        );
                    }
                    if p.writable {
                        feedback.push(p.addr);
                        out.push(
                            Subscription {
                                sender: PortAddr { client: self.client_id, port: self.out_port },
                                dest: p.addr,
                            },
                        );
                    }
                    assert(out@ =~= start + self.port_links(ports, k + 1));
                    k = k + 1;
                }
                assert(ports.take(k as int) =~= ports);
                if input || feedback.len() > 0 {
                    let d = DeviceInfo { client: c.client, name: c.name.clone(), feedback };
                    MidiManager::keep_client(&mut clients, d);
                }
            }
            i = i + 1;
        }
        self.clients = clients;
        out
    }

    /// The name a message's sender goes by: that of its controller, else the
    /// one the sequencer knows it by.
    pub open spec fn sender_name(self, m: RawEvent, known: Option<String>) -> Option<Seq<char>> {
        let i = first(self.clients@, device_at(m.sender()));
        if i < self.clients@.len() {
            Some(self.clients@[i].name@)
        } else {
            match known {
                Some(n) => Some(n@),
                None => None,
            }
        }
    }

    /// The events of the first `n` messages. Messages of unknown senders are
    /// dropped.
    pub open spec fn named_events(self, raw: Seq<RawEvent>, known: Seq<Option<String>>, n: int) -> Seq<EventView>
        decreases n,
    {
        if n <= 0 {
            Seq::empty()
        } else {
            let rest = self.named_events(raw, known, n - 1);
            match self.sender_name(raw[n - 1], known[n - 1]) {
                Some(name) => rest.push(named_event(raw[n - 1], name)),
                None => rest,
            }
        }
    }

    /// Whether these are the events of some messages.
    pub open spec fn drained(self, raw: Seq<RawEvent>, known: Seq<Option<String>>, announce: bool, r: Seq<MidiEvent>) -> bool {
        event_views(r) == (if announce {
            seq![EventView::DevicesChanged]
        } else {
            Seq::empty()
        }) + self.named_events(raw, known, raw.len() as int)
    }

    /// Turn messages into events, after a notice when controllers changed.
    /// Clients that address the input directly without any port of their own
    /// are not on record; `known` holds the names the sequencer has for the
    /// senders.
    pub fn drain(&self, raw: &Vec<RawEvent>, known: &Vec<Option<String>>, announce: bool) -> (r: Vec<MidiEvent>)
        requires
            known@.len() == raw@.len(),
        ensures
            self.drained(raw@, known@, announce, r@),
    {
        let mut out: Vec<MidiEvent> = Vec::new();
        if announce {
            out.push(MidiEvent::DevicesChanged);
        }
        let ghost head: Seq<EventView> = if announce {
            seq![EventView::DevicesChanged]
        } else {
            Seq::empty()
        };
        assert(event_views(out@) =~= head + self.named_events(raw@, known@, 0));
        let mut i: usize = 0;
        while i < raw.len()
            invariant
                i <= raw@.len(),
                known@.len() == raw@.len(),
                event_views(out@) == head + self.named_events(raw@, known@, i as int),
            decreases raw@.len() - i,
        {
            let m = raw[i];
            let client: i32 = m.client();
            let mut k: usize = 0;
            while k < self.clients.len() && self.clients[k].client != client
                invariant
                    k <= self.clients@.len(),
                    forall|j: int| 0 <= j < k ==> !device_at(client)(#[trigger] self.clients@[j]),
                decreases self.clients@.len() - k,
            {
                k = k + 1;
            }
            proof {
                first_is_at(self.clients@, device_at(client), k as int);
            }
            let name = if k < self.clients.len() {
                Some(self.clients[k].name.clone())
            } else {
                match &known[i] {
                    Some(n) => Some(n.clone()),
                    None => None,
                }
            };
            if let Some(device) = name {
                let ghost before = event_views(out@);
                let ghost dv = device@;
                let e = match m {
                    RawEvent::Control { channel, number, value, .. } => MidiEvent::Control {
                        device,
                        channel,
                        number,
                        value,
                    },
                    RawEvent::NoteOn { channel, number, .. } => MidiEvent::NoteOn { device, channel, number },
                };
                out.push(e);
                assert(event_views(out@) =~= before.push(named_event(m, dv)));
                assert(before.push(named_event(m, dv)) =~= head + self.named_events(raw@, known@, i as int).push(
                    named_event(m, dv),
                ));
            }
            i = i + 1;
        }
        out
    }

    /// The light ports of the first `n` controllers that have the name.
    pub open spec fn ports_of(self, device: Seq<char>, n: int) -> Seq<PortAddr>
        decreases n,
    {
        if n <= 0 {
            Seq::empty()
        } else if self.clients@[n - 1].name@ == device {
            self.ports_of(device, n - 1) + self.clients@[n - 1].feedback@
        } else {
            self.ports_of(device, n - 1)
        }
    }

    /// Where a note goes, and on which channel.
    pub open spec fn note_sent(self, device: Seq<char>, channel: u8, r: (u8, Vec<PortAddr>)) -> bool {
        &&& r.0 == pad_channel(device, channel)
        &&& r.1@ == if self.open {
            self.ports_of(device, self.clients@.len() as int)
        } else {
            Seq::empty()
        }
    }

    /// Where a note-on goes that lights a pad: every writable port of the
    /// named controller, and no other device's; and on which channel. Nowhere
    /// while the sequencer is not open.
    pub fn send_note(&self, device: &str, channel: u8) -> (r: (u8, Vec<PortAddr>))
        ensures
            self.note_sent(device@, channel, r),
    {
        let channel: u8 = led_channel(device, channel);
        let mut out: Vec<PortAddr> = Vec::new();
        if !self.open {
            return (channel, out);
        }
        let mut i: usize = 0;
        while i < self.clients.len()
            invariant
                i <= self.clients@.len(),
                out@ == self.ports_of(device@, i as int),
            decreases self.clients@.len() - i,
        {
            if text::same(self.clients[i].name.as_str(), device) {
                let ghost start = out@;
                let ghost add = self.clients@[i as int].feedback@;
                let mut k: usize = 0;
                assert(start + add.take(0) =~= start);
                while k < self.clients[i].feedback.len()
                    invariant
                        i < self.clients@.len(),
                        k <= add.len(),
                        add == self.clients@[i as int].feedback@,
                        out@ == start + add.take(k as int),
                    decreases add.len() - k,
                {
                    out.push(self.clients[i].feedback[k]);
                    assert(out@ =~= start + add.take(k + 1));
                    k = k + 1;
                }
                assert(add.take(k as int) =~= add);
            }
            i = i + 1;
        }
        (channel, out)
    }
}

/// Velocity to 0xRRGGBB palette shared by the common RGB pad surfaces
/// (Novation Launchpads; Akai adopted the same table for the APC mini mk2).
/// Mono-LED controllers simply light up on any non-zero velocity, so using
/// this table universally degrades gracefully.
pub const PAD_PALETTE: [u32; 128] = [
    0x000000, 0x1E1E1E, 0x7F7F7F, 0xFFFFFF, 0xFF4C4C, 0xFF0000, 0x590000, 0x190000,
    0xFFBD6C, 0xFF5400, 0x591D00, 0x271B00, 0xFFFF4C, 0xFFFF00, 0x595900, 0x191900,
    0x88FF4C, 0x54FF00, 0x1D5900, 0x142B00, 0x4CFF4C, 0x00FF00, 0x005900, 0x001900,
    0x4CFF5E, 0x00FF19, 0x00590D, 0x001902, 0x4CFF88, 0x00FF55, 0x00591D, 0x001F12,
    0x4CFFB7, 0x00FF99, 0x005935, 0x001912, 0x4CC3FF, 0x00A9FF, 0x004152, 0x001019,
    0x4C88FF, 0x0055FF, 0x001D59, 0x000819, 0x4C4CFF, 0x0000FF, 0x000059, 0x000019,
    0x874CFF, 0x5400FF, 0x190064, 0x0F0030, 0xFF4CFF, 0xFF00FF, 0x590059, 0x190019,
    0xFF4C87, 0xFF0054, 0x59001D, 0x220013, 0xFF1500, 0x993500, 0x795100, 0x436400,
    0x033900, 0x005735, 0x00547F, 0x0000FF, 0x00454F, 0x2500CC, 0x7F7F7F, 0x202020,
    0xFF0000, 0xBDFF2D, 0xAFED06, 0x64FF09, 0x108B00, 0x00FF87, 0x00A9FF, 0x002AFF,
    0x3F00FF, 0x7A00FF, 0xB21A7D, 0x402100, 0xFF4A00, 0x88E106, 0x72FF15, 0x00FF00,
    0x3BFF26, 0x59FF71, 0x38FFCC, 0x5B8AFF, 0x3151C6, 0x877FE9, 0xD31DFF, 0xFF005D,
    0xFF7F00, 0xB9B000, 0x90FF00, 0x835D07, 0x392B00, 0x144C10, 0x0D5038, 0x15152A,
    0x16205A, 0x693C1C, 0xA8000A, 0xDE513D, 0xD86A1C, 0xFFE126, 0x9EE12F, 0x67B50F,
    0x1E1E30, 0xDCFF6B, 0x80FFBD, 0x9A99FF, 0x8E66FF, 0x404040, 0x757575, 0xE0FFFF,
    0xA00000, 0x350000, 0x1AD000, 0x074200, 0xB9B000, 0x3F3100, 0xB35F00, 0x4B1502,
];

/// The square of a number.
pub open spec fn square(x: int) -> int {
    x * x
}

/// The squared distance of a color 0xRRGGBB from an RGB color.
pub open spec fn color_distance(c: u32, r: u8, g: u8, b: u8) -> int {
    square((c / 0x10000) % 0x100 - r) + square((c / 0x100) % 0x100 - g) + square(c % 0x100 - b)
}

/// The squared distance of two components.
fn component_distance(c: u32, x: u8) -> (d: u32)
    requires
        c < 0x100,
    ensures
        d == square(c - x),
        d <= 65025,
{
    let y: u32 = x as u32;
    let n: u32 = if c >= y {
        c - y
    } else {
        y - c
    };
    assert(n * n <= 65025) by (nonlinear_arith)
        requires
            n <= 255,
    ;
    assert(n * n == (c - x) * (c - x)) by (nonlinear_arith)
        requires
            n == c - x || n == x - c,
    ;
    n * n
}

/// Velocity whose palette entry is nearest (RGB distance) to the requested
/// color: how a channel color is shown on a pad bound as its color pad. Of
/// entries equally near it is the first.
pub fn color_velocity(r: u8, g: u8, b: u8) -> (v: u8)
    ensures
        v < 128,
        forall|j: int|
            0 <= j < 128 ==> color_distance(PAD_PALETTE[v as int], r, g, b) <= color_distance(
                #[trigger] PAD_PALETTE[j],
                r,
                g,
                b,
            ),
        forall|j: int|
            0 <= j < v ==> color_distance(PAD_PALETTE[v as int], r, g, b) < color_distance(
                #[trigger] PAD_PALETTE[j],
                r,
                g,
                b,
            ),
{
    let mut best: u8 = 0;
    let mut best_d: u32 = 0xffff_ffff;
    let mut i: u8 = 0;
    while i < 128
        invariant
            i <= 128,
            i == 0 ==> best == 0 && best_d == 0xffff_ffff,
            i > 0 ==> best < i && best_d == color_distance(PAD_PALETTE[best as int], r, g, b),
            forall|j: int| 0 <= j < i ==> best_d <= color_distance(#[trigger] PAD_PALETTE[j], r, g, b),
            forall|j: int| 0 <= j < best ==> best_d < color_distance(#[trigger] PAD_PALETTE[j], r, g, b),
        decreases 128 - i,
    {
        let c: u32 = PAD_PALETTE[i as usize];
        let d: u32 = component_distance((c / 0x10000) % 0x100, r) + component_distance((c / 0x100) % 0x100, g)
            + component_distance(c % 0x100, b);
        if d < best_d {
            best_d = d;
            best = i;
        }
        i = i + 1;
    }
    best
}

/// The channel a pad is lit on.
pub open spec fn pad_channel(device: Seq<char>, bound: u8) -> u8 {
    if lower(device) == lower("APC mini mk2"@) {
        6
    } else {
        bound
    }
}

/// Per-device LED quirks. Pads are normally lit by echoing the note on the
/// channel the binding listens on, but on the APC mini mk2 the note-on
/// channel selects pad *brightness* (0 = 10% … 6 = 100%, 7+ = pulse/blink),
/// so echoing on the learned channel 0 comes out barely visible: full
/// brightness is used instead.
pub fn led_channel(device: &str, bound: u8) -> (r: u8)
    ensures
        r == pad_channel(device@, bound),
{
    let a = text::lowered(device);
    let b = text::lowered("APC mini mk2");
    if text::same(a.as_str(), b.as_str()) {
        6
    } else {
        bound
    }
}

// ---- What goes through ------------------------------------------------------

/// A control message in range comes through as it is; numbers and values out of
/// range are held to seven bits.
pub proof fn controls_come_through(client: i32, channel: u8, param: u32, value: i32)
    ensures
        ({
            let m = message(SeqEvent::Controller { client, channel, param, value });
            &&& m is Some
            &&& m->0 is Control
            &&& m->0->Control_client == client
            &&& m->0->Control_channel == channel
            &&& param <= 127 ==> m->0->Control_number as u32 == param
            &&& param > 127 ==> m->0->Control_number == 127
            &&& 0 <= value <= 127 ==> m->0->Control_value as int == value
            &&& value > 127 ==> m->0->Control_value == 127
            &&& value < 0 ==> m->0->Control_value == 0
            &&& m->0->Control_number <= 127
            &&& m->0->Control_value <= 127
            &&& m->0.sender() == client
        }),
{
}

/// A struck pad comes through, and a released one does not.
pub proof fn notes_come_through(client: i32, channel: u8, note: u8, velocity: u8)
    ensures
        velocity > 0 ==> message(SeqEvent::NoteOn { client, channel, note, velocity }) == Some(
            RawEvent::NoteOn { client, channel, number: note },
        ),
        message(SeqEvent::NoteOn { client, channel, note, velocity: 0 }) is None,
        message(SeqEvent::Announce) is None,
        message(SeqEvent::Other) is None,
        (RawEvent::NoteOn { client, channel, number: note }).sender() == client,
{
}

/// Messages keep their order, and what is read in two goes is what is read in
/// one.
pub proof fn messages_are_read_in_order(a: Seq<SeqEvent>, b: Seq<SeqEvent>)
    ensures
        messages(a + b) == messages(a) + messages(b),
        a.len() == 1 && message(a[0]) is Some ==> messages(a) == seq![message(a[0])->0],
    decreases b.len(),
{
    if b.len() == 0 {
        assert(a + b =~= a);
        assert(messages(a) + messages(b) =~= messages(a));
    } else {
        let c = b.drop_last();
        assert((a + b).drop_last() =~= a + c);
        messages_are_read_in_order(a, c);
        assert(messages(a + b) =~= messages(a) + messages(b));
    }
    if a.len() == 1 && message(a[0]) is Some {
        assert(a.drop_last() =~= Seq::<SeqEvent>::empty());
        assert(a.last() == a[0]);
        assert(messages(a.drop_last()) =~= Seq::<RawEvent>::empty());
        assert(messages(a) =~= seq![message(a[0])->0]);
    }
}

/// A message becomes an event of the device it came from, with the same channel,
/// number and value.
pub proof fn events_say_what_was_sent(client: i32, channel: u8, number: u8, value: u8, device: Seq<char>)
    ensures
        named_event(RawEvent::Control { client, channel, number, value }, device) == (EventView::Control {
            device,
            channel,
            number,
            value,
        }),
        named_event(RawEvent::NoteOn { client, channel, number }, device) == (EventView::NoteOn {
            device,
            channel,
            number,
        }),
{
}

/// Every message of a known sender becomes an event.
pub proof fn known_senders_are_heard(m: MidiManager, raw: Seq<RawEvent>, known: Seq<Option<String>>, n: int, i: int)
    requires
        0 <= i < n,
        m.sender_name(raw[i], known[i]) is Some,
    ensures
        m.named_events(raw, known, n).contains(named_event(raw[i], m.sender_name(raw[i], known[i])->0)),
    decreases n,
{
    let e = named_event(raw[i], m.sender_name(raw[i], known[i])->0);
    let rest = m.named_events(raw, known, n - 1);
    let all = m.named_events(raw, known, n);
    if i == n - 1 {
        assert(all[rest.len() as int] == e);
    } else {
        known_senders_are_heard(m, raw, known, n - 1, i);
        let k = choose|k: int| 0 <= k < rest.len() && rest[k] == e;
        assert(all[k] == e);
    }
}

/// A sender goes by the name of its controller, or by what the sequencer calls
/// it.
pub proof fn senders_are_named(m: MidiManager, e: RawEvent, known: Option<String>, i: int)
    ensures
        0 <= i < m.clients@.len() && m.clients@[i].client == e.sender() && (forall|j: int|
            0 <= j < i ==> (#[trigger] m.clients@[j]).client != e.sender()) ==> m.sender_name(e, known) == Some(
            m.clients@[i].name@,
        ),
        (forall|j: int| 0 <= j < m.clients@.len() ==> (#[trigger] m.clients@[j]).client != e.sender())
            ==> m.sender_name(e, known) == match known {
            Some(n) => Some(n@),
            None => None,
        },
{
    if 0 <= i < m.clients@.len() && m.clients@[i].client == e.sender() && (forall|j: int|
        0 <= j < i ==> (#[trigger] m.clients@[j]).client != e.sender()) {
        first_is_at(m.clients@, device_at(e.sender()), i);
    }
    if forall|j: int| 0 <= j < m.clients@.len() ==> (#[trigger] m.clients@[j]).client != e.sender() {
        first_is_at(m.clients@, device_at(e.sender()), m.clients@.len() as int);
    }
}

/// Crossfade does not connect to itself, to the system client, or to bridges;
/// every other client counts.
pub proof fn bridges_do_not_count(m: MidiManager, c: ClientListing)
    ensures
        c.client == 0 || c.client == m.client_id ==> !m.counts(c),
        c.name@ == "Midi Through"@ || begins(c.name@, "PipeWire-"@) ==> !m.counts(c),
        c.client != 0 && c.client != m.client_id && c.name@ != "Midi Through"@ && !begins(c.name@, "PipeWire-"@)
            ==> m.counts(c),
{
}

/// Every port of a controller is connected: what it sends comes in, and what
/// lights its pads goes out.
pub proof fn controllers_are_connected_both_ways(m: MidiManager, s: Seq<PortListing>, n: int, i: int)
    requires
        0 <= i < n,
    ensures
        s[i].readable ==> m.port_links(s, n).contains(
            Subscription { sender: s[i].addr, dest: PortAddr { client: m.client_id, port: m.in_port } },
        ),
        s[i].writable ==> m.port_links(s, n).contains(
            Subscription { sender: PortAddr { client: m.client_id, port: m.out_port }, dest: s[i].addr },
        ),
    decreases n,
{
    let all = m.port_links(s, n);
    let rest = m.port_links(s, n - 1);
    let x = Subscription { sender: s[i].addr, dest: PortAddr { client: m.client_id, port: m.in_port } };
    let y = Subscription { sender: PortAddr { client: m.client_id, port: m.out_port }, dest: s[i].addr };
    if i == n - 1 {
        if s[i].readable {
            assert(all[rest.len() as int] == x);
        }
        if s[i].writable {
            assert(all[all.len() - 1] == y);
        }
    } else {
        controllers_are_connected_both_ways(m, s, n - 1, i);
        if s[i].readable {
            let k = choose|k: int| 0 <= k < rest.len() && rest[k] == x;
            assert(all[k] == x);
        }
        if s[i].writable {
            let k = choose|k: int| 0 <= k < rest.len() && rest[k] == y;
            assert(all[k] == y);
        }
    }
}

/// Every client that counts is connected.
pub proof fn every_controller_is_connected(m: MidiManager, s: Seq<ClientListing>, n: int, i: int, x: Subscription)
    requires
        0 <= i < n,
        m.counts(s[i]),
        m.port_links(s[i].ports@, s[i].ports@.len() as int).contains(x),
    ensures
        m.links(s, n).contains(x),
    decreases n,
{
    let all = m.links(s, n);
    let rest = m.links(s, n - 1);
    if i == n - 1 {
        let p = m.port_links(s[i].ports@, s[i].ports@.len() as int);
        let k = choose|k: int| 0 <= k < p.len() && p[k] == x;
        assert(all[rest.len() + k] == x);
    } else {
        every_controller_is_connected(m, s, n - 1, i, x);
        let k = choose|k: int| 0 <= k < rest.len() && rest[k] == x;
        assert(all[k] == x);
    }
}

/// Lights go to the ports that take them, and to no others.
pub proof fn lights_go_to_writable_ports(s: Seq<PortListing>, i: int)
    requires
        0 <= i < s.len(),
    ensures
        s[i].writable ==> feedback_ports(s).contains(s[i].addr),
        forall|k: int|
            #![trigger feedback_ports(s)[k]]
            0 <= k < feedback_ports(s).len() ==> exists|j: int|
                0 <= j < s.len() && (#[trigger] s[j]).writable && s[j].addr == feedback_ports(s)[k],
    decreases s.len(),
{
    let t = s.drop_last();
    let rest = feedback_ports(t);
    let all = feedback_ports(s);
    if i < t.len() {
        lights_go_to_writable_ports(t, i);
        assert(t[i] == s[i]);
        if s[i].writable {
            let k = choose|k: int| 0 <= k < rest.len() && rest[k] == s[i].addr;
            assert(all[k] == s[i].addr);
        }
    } else {
        if s[i].writable {
            assert(all[rest.len() as int] == s[i].addr);
        }
        if t.len() > 0 {
            lights_go_to_writable_ports(t, 0);
        }
    }
    assert forall|k: int|
        #![trigger all[k]]
        0 <= k < all.len() implies exists|j: int|
        0 <= j < s.len() && (#[trigger] s[j]).writable && s[j].addr == all[k] by {
        if k < rest.len() {
            let j = choose|j: int| 0 <= j < t.len() && (#[trigger] t[j]).writable && t[j].addr == rest[k];
            assert(s[j].writable && s[j].addr == all[k]);
        } else {
            assert(s[s.len() - 1].writable && s[s.len() - 1].addr == all[k]);
        }
    }
}

/// Whether a port belongs to one of the first `n` controllers of a name.
pub open spec fn port_belongs(m: MidiManager, device: Seq<char>, n: int, a: PortAddr) -> bool {
    exists|j: int|
        0 <= j < n && (#[trigger] m.clients@[j]).name@ == device && m.clients@[j].feedback@.contains(a)
}

/// A pad is lit on every light port of its own controller, and on no other
/// device.
pub proof fn only_the_named_device_lights_up(m: MidiManager, device: Seq<char>, n: int, a: PortAddr)
    requires
        0 <= n <= m.clients@.len(),
    ensures
        m.ports_of(device, n).contains(a) <==> port_belongs(m, device, n, a),
    decreases n,
{
    if n > 0 {
        only_the_named_device_lights_up(m, device, n - 1, a);
        let all = m.ports_of(device, n);
        let rest = m.ports_of(device, n - 1);
        let f = m.clients@[n - 1].feedback@;
        let own = m.clients@[n - 1].name@ == device;
        if all.contains(a) {
            let k = choose|k: int| 0 <= k < all.len() && all[k] == a;
            if k < rest.len() {
                assert(rest[k] == a);
                let j = choose|j: int|
                    0 <= j < n - 1 && (#[trigger] m.clients@[j]).name@ == device && m.clients@[j].feedback@.contains(
                        a,
                    );
                assert(m.clients@[j].name@ == device);
            } else {
                assert(f[k - rest.len()] == a);
                assert(m.clients@[n - 1].name@ == device);
            }
        }
        if port_belongs(m, device, n, a) {
            let j = choose|j: int|
                0 <= j < n && (#[trigger] m.clients@[j]).name@ == device && m.clients@[j].feedback@.contains(a);
            if j == n - 1 {
                let k = choose|k: int| 0 <= k < f.len() && f[k] == a;
                assert(all[rest.len() + k] == a);
            } else {
                assert(m.clients@[j].name@ == device);
                assert(port_belongs(m, device, n - 1, a));
                let k = choose|k: int| 0 <= k < rest.len() && rest[k] == a;
                assert(all[k] == a);
            }
        }
    }
}

/// A pad is lit on the channel it is bound on; on an APC mini mk2, however it is
/// written, at full brightness.
pub proof fn pads_are_lit_where_bound(device: Seq<char>, bound: u8)
    ensures
        lower(device) != lower("APC mini mk2"@) ==> pad_channel(device, bound) == bound,
        lower(device) == lower("APC mini mk2"@) ==> pad_channel(device, bound) == 6,
        pad_channel(lower(device), bound) == pad_channel(device, bound),
{
    assert(lower(lower(device)) =~= lower(device));
}

/// The distance of colors is that of their components: a color is at distance
/// nothing from itself alone, and each component counts the same.
pub proof fn colors_are_near_themselves(r: u8, g: u8, b: u8, x: u8, y: u8, z: u8)
    ensures
        ({
            let c = (0x10000 * r + 0x100 * g + b) as u32;
            let d = color_distance(c, x, y, z);
            &&& d >= 0
            &&& d == 0 <==> r == x && g == y && b == z
            &&& d == (r - x) * (r - x) + (g - y) * (g - y) + (b - z) * (b - z)
        }),
{
    let c: u32 = (0x10000 * r + 0x100 * g + b) as u32;
    assert((c / 0x10000) % 0x100 == r);
    assert((c / 0x100) % 0x100 == g);
    assert(c % 0x100 == b);
    let (p, q, s) = (r - x, g - y, b - z);
    assert(p * p >= 0 && q * q >= 0 && s * s >= 0 && (p * p == 0 <==> p == 0) && (q * q == 0 <==> q == 0) && (s * s
        == 0 <==> s == 0)) by (nonlinear_arith);
}

/// What a notice of the sequencer among the events is for: clients changed.
pub proof fn notices_are_seen(events: Seq<SeqEvent>, r: (Vec<RawEvent>, bool), i: int)
    requires
        events_read(events, r),
        0 <= i < events.len(),
    ensures
        events[i] is Announce ==> r.1,
        r.1 ==> exists|k: int| 0 <= k < events.len() && #[trigger] events[k] is Announce,
        r.0@ == messages(events),
{
    if events[i] is Announce {
        assert(events.contains(events[i]));
    }
    if r.1 {
        let k = choose|k: int| 0 <= k < events.len() && events[k] == SeqEvent::Announce;
        assert(events[k] is Announce);
    }
}

/// A notice that controllers changed comes before all messages, and only after a
/// change.
pub proof fn notices_come_first(
    m: MidiManager,
    raw: Seq<RawEvent>,
    known: Seq<Option<String>>,
    announce: bool,
    r: Seq<MidiEvent>,
)
    requires
        m.drained(raw, known, announce, r),
    ensures
        announce ==> r.len() > 0 && r[0]@ == EventView::DevicesChanged,
        announce ==> event_views(r).skip(1) == m.named_events(raw, known, raw.len() as int),
        !announce ==> event_views(r) == m.named_events(raw, known, raw.len() as int),
{
    let e = event_views(r);
    let rest = m.named_events(raw, known, raw.len() as int);
    if announce {
        assert(e.len() == r.len());
        assert(e[0] == r[0]@);
        assert(e[0] == EventView::DevicesChanged);
        assert(e.skip(1) =~= rest);
    } else {
        assert(e =~= rest);
    }
}

/// Notes go to every port of the named controller that takes them, and nowhere
/// while the sequencer is closed.
pub proof fn closed_sequencer_lights_nothing(m: MidiManager, device: Seq<char>, channel: u8, r: (u8, Vec<PortAddr>))
    requires
        m.note_sent(device, channel, r),
    ensures
        r.0 == pad_channel(device, channel),
        !m.open ==> r.1@.len() == 0,
        m.open ==> r.1@ == m.ports_of(device, m.clients@.len() as int),
{
}

/// All writable ports of a named controller get its notes.
pub proof fn every_port_of_the_device_lights_up(m: MidiManager, n: int, i: int, a: PortAddr)
    requires
        0 <= i < n <= m.clients@.len(),
        m.clients@[i].feedback@.contains(a),
    ensures
        m.ports_of(m.clients@[i].name@, n).contains(a),
    decreases n,
{
    let d = m.clients@[i].name@;
    let all = m.ports_of(d, n);
    let rest = m.ports_of(d, n - 1);
    if i == n - 1 {
        let f = m.clients@[i].feedback@;
        let k = choose|k: int| 0 <= k < f.len() && f[k] == a;
        assert(all[rest.len() + k] == a);
    } else {
        every_port_of_the_device_lights_up(m, n - 1, i, a);
        let k = choose|k: int| 0 <= k < rest.len() && rest[k] == a;
        assert(all[k] == a);
    }
}

/// The clients that are known come from the listing.
proof fn controllers_are_listed(m: MidiManager, s: Seq<ClientListing>, n: int, k: int)
    requires
        0 <= n <= s.len(),
        0 <= k < m.controllers(s, n).len(),
    ensures
        exists|i: int|
            0 <= i < n && (#[trigger] s[i]).client == m.controllers(s, n)[k].client && m.counts(s[i]) && (has_input(
                s[i].ports@,
            ) || feedback_ports(s[i].ports@).len() > 0),
    decreases n,
{
    if n > 0 {
        let rest = m.controllers(s, n - 1);
        let all = m.controllers(s, n);
        let c = s[n - 1];
        let at = first(rest, view_at(c.client));
        crate::list::first_is_least(rest, view_at(c.client));
        if m.counts(c) && (has_input(c.ports@) || feedback_ports(c.ports@).len() > 0) && (k == at || k >= rest.len()) {
            assert(all[k].client == c.client);
            assert(s[n - 1].client == all[k].client);
        } else {
            assert(all[k] == rest[k]);
            controllers_are_listed(m, s, n - 1, k);
            let i = choose|i: int|
                0 <= i < n - 1 && (#[trigger] s[i]).client == rest[k].client && m.counts(s[i]) && (has_input(
                    s[i].ports@,
                ) || feedback_ports(s[i].ports@).len() > 0);
            assert(s[i].client == all[k].client);
        }
    }
}

/// Every client that counts and has a port of use is known by its name afterwards,
/// with the ports that take light commands.
pub proof fn controllers_are_known(m: MidiManager, s: Seq<ClientListing>, n: int, i: int)
    requires
        0 <= i < n <= s.len(),
        forall|a: int, b: int| 0 <= a < b < s.len() ==> (#[trigger] s[a]).client != (#[trigger] s[b]).client,
    ensures
        m.counts(s[i]) && (has_input(s[i].ports@) || feedback_ports(s[i].ports@).len() > 0) ==> m.controllers(
            s,
            n,
        ).contains(
            DeviceView { client: s[i].client, name: s[i].name@, feedback: feedback_ports(s[i].ports@) },
        ),
        m.controllers(s, n).len() <= n,
    decreases n,
{
    let rest = m.controllers(s, n - 1);
    let all = m.controllers(s, n);
    let c = s[n - 1];
    let x = DeviceView { client: s[i].client, name: s[i].name@, feedback: feedback_ports(s[i].ports@) };
    let at = first(rest, view_at(c.client));
    crate::list::first_is_least(rest, view_at(c.client));
    if n > 1 {
        let j = if i == n - 1 {
            0
        } else {
            i
        };
        controllers_are_known(m, s, n - 1, j);
    }
    if m.counts(s[i]) && (has_input(s[i].ports@) || feedback_ports(s[i].ports@).len() > 0) {
        if i == n - 1 {
            assert(all[at] == x);
        } else {
            let k = choose|k: int| 0 <= k < rest.len() && rest[k] == x;
            if k == at {
                assert(rest[k].client == c.client);
                assert(s[i].client != s[n - 1].client);
            }
            assert(all[k] == x);
        }
    }
}

/// A scan knows nothing of what was there before, but keeps its own place.
pub proof fn scans_start_afresh(m: MidiManager, listing: Seq<ClientListing>, r: Seq<Subscription>, new: MidiManager)
    requires
        m.scanned(listing, r, new),
    ensures
        new.open == m.open && new.client_id == m.client_id && new.in_port == m.in_port && new.out_port == m.out_port,
        listing.len() == 0 ==> new.clients@.len() == 0 && r.len() == 0,
        device_views(new.clients@) == m.controllers(listing, listing.len() as int),
        r == m.links(listing, listing.len() as int),
{
    assert(device_views(new.clients@).len() == new.clients@.len());
}

} // verus!
