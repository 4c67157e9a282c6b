# ontext

Push-to-talk dictation: hold Cmd+Shift+Space (Ctrl+Shift+Space outside
macOS), speak, release; the speech is cut into segments, transcribed by a
Whisper-compatible service and pasted into the application in front.

`src/` is the verified library (Verus):

- `hotkey`, `hotkey_laws`: the hotkey detector and what holds of any sequence
  of key presses and releases.
- `vad`, `vad_laws`: cutting a recording into speech chunks from per-frame
  voice decisions (webrtc-vad), and the properties of that segmentation.
- `transcribe`, `wav_laws`: WAV encoding (hound), the transcription request,
  the decisions on the service's reply, and the layout of the WAV file (its
  header, and every sample read back from its data).
- `clipboard`: pasting through the clipboard (arboard) and a simulated
  keystroke (enigo).
- `pipeline`, `focus`, `greeting`, `session_laws`: the decisions of a
  recording session and of focus tracking.
- `audio`, `platform`: shared types.

Samples are 32-bit floats; the library carries them as their bit patterns.

`app/` holds what stays outside verification: audio capture (cpal), the global
key listener (rdev), float sample arithmetic, the HTTP exchange (reqwest,
tokio), the macOS focus and accessibility calls, and the tauri shell.
