//! The catalog of installed LV2 plugins, as far as building a chain needs it.

use vstd::prelude::*;
use vstd::string::StringExecFns;

use crate::list::{first, first_is_at};
use crate::text;
use crate::text::dec;

verus! {

/// One installed plugin.
#[derive(Clone, Debug, PartialEq, Eq)]
pub struct PluginInfo {
    pub uri: String,
    pub name: String,
    /// The plugin handles one lane and is instantiated once for each.
    pub mono: bool,
    /// Symbols of the audio input ports.
    pub audio_in: Vec<String>,
    /// Symbols of the audio output ports.
    pub audio_out: Vec<String>,
    /// Symbols of the control ports.
    pub controls: Vec<String>,
}

/// The plugin of a URI.
pub open spec fn plugin_is(uri: Seq<char>) -> spec_fn(PluginInfo) -> bool {
    |p: PluginInfo| p.uri@ == uri
}

impl PluginInfo {
    /// Whether a control port has the symbol.
    pub open spec fn has_port(self, symbol: Seq<char>) -> bool {
        exists|i: int| 0 <= i < self.controls@.len() && (#[trigger] self.controls@[i])@ == symbol
    }

    /// The plugin has the audio ports its lanes need.
    pub open spec fn wf(self) -> bool {
        let n: nat = if self.mono {
            1
        } else {
            2
        };
        self.audio_in@.len() >= n && self.audio_out@.len() >= n
    }

    /// Whether the plugin handles one lane only.
    pub fn is_mono(&self) -> (r: bool)
        ensures
            r == self.mono,
    {
        self.mono
    }

    /// Whether these are the lines for the plugin.
    pub open spec fn listed_as(self, r: Seq<char>) -> bool {
        r == self.name@ + " ["@ + (if self.mono {
            "mono"@
        } else {
            "stereo"@
        }) + ", "@ + dec(self.controls@.len()) + " controls]\n    "@ + self.uri@
    }

    /// How the plugin is listed: name, lanes and number of controls, and its URI
    /// on a line of its own.
    pub fn listing(&self) -> (r: String)
        ensures
            self.listed_as(r@),
    {
        let mut s = text::join(self.name.as_str(), " [");
        s.append(
            if self.mono {
                "mono"
            } else {
                "stereo"
            },
        );
        s.append(", ");
        text::push_decimal(&mut s, self.controls.len() as u64);
        s.append(" controls]\n    ");
        s.append(self.uri.as_str());
        s
    }

    /// Whether a control port has the symbol.
    pub fn has_control(&self, symbol: &str) -> (r: bool)
        ensures
            r == self.has_port(symbol@),
    {
        let mut i: usize = 0;
        while i < self.controls.len()
            invariant
                i <= self.controls@.len(),
                forall|j: int| 0 <= j < i ==> (#[trigger] self.controls@[j])@ != symbol@,
            decreases self.controls@.len() - i,
        {
            if text::same(self.controls[i].as_str(), symbol) {
                return true;
            }
            i = i + 1;
        }
        false
    }
}

/// The installed plugins.
#[derive(Clone, Debug, PartialEq, Eq)]
pub struct Catalog {
    pub plugins: Vec<PluginInfo>,
}

impl Catalog {
    /// Every plugin has the audio ports its lanes need.
    pub open spec fn wf(self) -> bool {
        forall|i: int| 0 <= i < self.plugins@.len() ==> (#[trigger] self.plugins@[i]).wf()
    }

    /// The position of the plugin of a URI.
    pub open spec fn position(self, uri: Seq<char>) -> int {
        first(self.plugins@, plugin_is(uri))
    }

    /// The plugin of a URI.
    pub fn find(&self, uri: &str) -> (r: Option<&PluginInfo>)
        ensures
            0 <= self.position(uri@) <= self.plugins@.len(),
            r is Some <==> self.position(uri@) < self.plugins@.len(),
            r is Some ==> *r->0 == self.plugins@[self.position(uri@)],
    {
        let mut i: usize = 0;
        while i < self.plugins.len() && !text::same(self.plugins[i].uri.as_str(), uri)
            invariant
                i <= self.plugins@.len(),
                forall|j: int| 0 <= j < i ==> !plugin_is(uri@)(#[trigger] self.plugins@[j]),
            decreases self.plugins@.len() - i,
        {
            i = i + 1;
        }
        proof {
            first_is_at(self.plugins@, plugin_is(uri@), i as int);
        }
        if i < self.plugins.len() {
            Some(&self.plugins[i])
        } else {
            None
        }
    }
}

/// A plugin's lines name it, say whether it is mono, count its controls and end in
/// its URI.
pub proof fn plugins_are_listed_in_full(p: PluginInfo, r: Seq<char>)
    requires
        p.listed_as(r),
    ensures
        p.mono ==> text::begins(r, p.name@ + " [mono, "@ + dec(p.controls@.len()) + " controls]\n"@),
        !p.mono ==> text::begins(r, p.name@ + " [stereo, "@ + dec(p.controls@.len()) + " controls]\n"@),
        text::ends(r, p.uri@),
{
    reveal_strlit(" [");
    reveal_strlit("mono");
    reveal_strlit("stereo");
    reveal_strlit(", ");
    reveal_strlit(" [mono, ");
    reveal_strlit(" [stereo, ");
    reveal_strlit(" controls]\n");
    reveal_strlit(" controls]\n    ");
    let a = p.name@ + " [mono, "@ + dec(p.controls@.len()) + " controls]\n"@;
    let b = p.name@ + " [stereo, "@ + dec(p.controls@.len()) + " controls]\n"@;
    assert(" ["@ + "mono"@ + ", "@ =~= " [mono, "@);
    assert(" ["@ + "stereo"@ + ", "@ =~= " [stereo, "@);
    if p.mono {
        assert(r.subrange(0, a.len() as int) =~= a);
    } else {
        assert(r.subrange(0, b.len() as int) =~= b);
    }
    assert(r.subrange(r.len() - p.uri@.len(), r.len() as int) =~= p.uri@);
}

} // verus!
