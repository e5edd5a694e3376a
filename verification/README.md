# Matcha

The core of a native terminal workstation, written in Rust and verified with Verus.

- `src/terminal` turns an emulator into frames, searches its whole buffer, and encodes keys, mouse
  events and pasted text for the host.
- `src/ui` decides what the window draws and what it does about keys, the pointer, shell profiles
  and requests of terminal applications.
- `src/config` holds the settings, their normal form, and what is made of a configuration file.
- `src/pty.rs` plans, feeds and reads a local shell session.
- `src/context.rs`, `src/identity.rs`, `src/text.rs` and `src/sequences.rs` hold what the others
  share.
- `app` is the program around the library: files, processes, threads and the Floem window.
- `tests` runs the library with the emulator, the regular expressions and the other crates that it
  calls.

The functions that call another crate stand behind contracts that name the call and say what is
claimed of it. Everything else is proved.
