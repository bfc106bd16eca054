# flow_linux

Flow is an X11 desktop dictation app: hold Ctrl+Super, speak, release, and the transcript
from Groq's Whisper API is pasted into the focused window. This crate holds its logic as a
library verified with Verus, and the desktop program around it.

- `src/` — the verified library:
  - `keyboard`: the global hotkey handler (push-to-talk and the hands-free toggle) and the
    set of held keys;
  - `session`: which recording runs, when a start or stop request changes it, when a
    finished recording is sent for transcription, when the overlay shows, and how the
    history entry of a pasted transcript is marked;
  - `overlay`: parsing `xrandr --listactivemonitors` and `xdotool getwindowgeometry --shell`
    output and placing the listening pill on the target window's monitor;
  - `geometry_text`: the geometry text that `xrandr` writes, and that parsing reads it back;
  - `clipboard`, `clipboard_native`: terminal detection, the paste key stroke, window output,
    and clipboard restoring;
  - `config`: settings, their defaults and checks, and the import of the older `.env` file;
  - `samples`: decoding the `pw-record` stream, resampling ranges and WAV bytes;
  - `transcription`: the rules around a Groq request and its reply;
  - `history`: the statements of the history table, run through `rusqlite`;
  - `autostart`: the login-startup desktop entry;
  - `float_bits`, `text`: `f64` comparisons on bit patterns and string specifications.
- `tests/` — tests of the library.
- `app/` — the Tauri program: windows, tray, microphone capture, processes, files, sockets
  and the HTTP request. Floating-point audio arithmetic stays there too.
