# bacon sounds and report lines

A verified library holding the logic of two parts of bacon:

- `src/sound/`: sounds (embedded bytes or audio files, optionally cut),
  the library of sounds by name (lookup, replacement, merging of the user's
  sounds over the embedded ones, resolution of paths), the validation of
  sound names, the durations of configuration, and what the sound player
  decides (its library, the sound a command asks for);
- `src/result/` and `src/analysis/`: report lines (title messages,
  locations) and the accumulation of lines into numbered items;
- `src/path.rs`, `src/text.rs`: `/`-separated paths and character helpers.

Contracts are stated over views (`Seq<char>` for strings, entry sequences
for libraries) and the laws of the library (a lookup after a `set`, the
effect of `apply`, the stability of resolved paths, the numbering of items)
are proof functions next to the code they speak of.

`app/` holds what stands around the library: deserialization and JSON schema
of the sound configuration, reading and playing sounds with rodio, and the
thread of the sound player.
