# Gleem Crossfade

A dual-mix virtual audio mixer for Linux. Hardware inputs and applications are
routed into independent monitor, stream and VOD mixes on a PipeWire server, with
effect chains, VST racks, MIDI controllers, a tray indicator and a D-Bus
interface.

- `src/` is the mixer itself, verified with Verus: the configuration and how a
  damaged one is repaired, the state of the audio graph and every decision about
  it, effect chains and the life of their helper processes, plugin discovery,
  MIDI bindings and pads, and what the interface shows and answers. Each
  function states what it returns or changes; laws that relate several of them
  stand beside them as public proof functions.
- `tests/` runs the library on concrete values.
- `app/` is the program around it: the PulseAudio connection, the ALSA
  sequencer, processes, files and GTK widgets. It carries out what the library
  decides and reports back what it sees.

Levels are doubles. The library stores them as bit patterns and compares them
where it must; arithmetic on them is done in `app/`.
