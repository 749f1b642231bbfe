# broadcast_daw_studio

The back end of a broadcast audio workstation: a patchbay of processing nodes, a
transport with WAV recording, SMPTE timecode and LTC decoding, MIDI Show Control,
timecode-triggered automation, a multicast position broadcast and a VST3 plugin
registry.

`src/` is the library, verified with Verus. Public functions state what they return and
how they change their arguments over a mathematical view of the data. Where a result
comes from outside the library (a random identifier, the contents of a fresh atomic
counter, the text a formatter or a configuration map gives back) the contract names that
result or says what holds of every outcome instead. The laws that
tie functions together (timecode and datagram round trips, execution order of the graph,
trigger firing and re-arming, registry look-ups after registration, and more) are public
proof functions beside them.

- `timecode`: frame rates, timecode labels and their frame counts (with drop-frame
  arithmetic), and the LTC bit and frame decoder.
- `midi_control`: MIDI message parsing, MIDI Show Control parsing and building.
- `dag`: the patchbay over a `petgraph` graph, its topological sorter with cycle
  reporting, and the plan of each processing pass.
- `automation`, `sync`: timecode triggers, the coordinator's decisions, the position
  datagram and the shared clock counters.
- `audio_engine`: the transport state machine, the WAV header and the device summary
  built from a device's supported configurations.
- `vst3_host`: the plugin registry, plugin records and default parameter sets.
- `shared`, `dsp`: configuration types, snapshots and identifiers.

`app/` is the program around it: audio devices and threads, floating-point signal
processing, sockets, files, MIDI ports, plugin libraries and the command interface.
Floating-point quantities cross into the library as their IEEE-754 bit patterns and
identifiers as 128-bit integers.

`tests/` exercises the library on concrete values.
