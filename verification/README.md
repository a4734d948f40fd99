# audio_player

The playback core of a desktop music player, verified with Verus.

The library decides; it performs no input or output. The program around it opens devices
and files, talks to the network and to the media controls, and computes with
floating-point numbers. It hands the library what happened, and carries out what comes
back.

- `src/state.rs`: the state of the player, its commands, and the ticks that tell the user
  interface about the position and the end of a track.
- `src/load.rs`: loading a track from a file or a URL, stage by stage.
- `src/decode.rs`: the decisions of the fallback decoder.
- `src/eq.rs`: the ten-band equalizer.
- `src/media.rs`: the media controls of the desktop.
- `src/devices.rs`, `src/output.rs`: the output devices, and the thread that owns one.
- `src/binary64.rs`: comparing doubles by their bit patterns.
- `src/text.rs`: building messages.
- `app/`: the program around the library, with its Tauri commands.

The functions marked `external_body` call other crates or the standard library; what their
contracts claim is taken on trust and said in their documentation. Everything else is
proved.
