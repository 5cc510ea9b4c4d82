# truce_rack

A host framework for audio plugins (CLAP, VST3, Audio Unit v2 and v3, LV2) and a
standalone runner. `src/` is the library: events, buses, state envelopes, the
conversions between a format's events and the framework's own, the state machines
that load, activate and run a plugin, and the runner's command line, device
routing, MIDI parsing and transport. Its functions carry contracts that Verus
proves. Calls into other crates stand behind small wrappers whose contracts are
trusted; the doc comment of each says what it claims.

`app/` is ordinary Rust around it: the native calls of each format, the audio and
MIDI devices, windows, and everything that works in floating point.

| Module        | Holds                                                        |
| ------------- | ------------------------------------------------------------ |
| `events`, `bus`, `buffer`, `info`, `plugin`, `state`, `error` | the framework's types |
| `wrapper`, `render`, `text` | panics at the edge, offline rendering, text    |
| `clap`, `vst3`, `lv2`, `au`, `au3` | one format each                         |
| `standalone`  | the runner                                                   |

Sample values and parameter values are floating point, which the library does not
compute with: it carries them as bit patterns or as fractions of integers.
