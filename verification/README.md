# terminator

A retro terminal front end for a local Gemma 4 model: the user types or
speaks, the model answers token by token, and tool calls it asks for
(opening, reading and listing files, running commands, looking at images)
wait for the user's approval.

- `src/` is the verified library: the application's state machine
  (`app`), the key bindings and main-loop dispatch (`control`), the model
  picker and download status (`picker`), the messages exchanged with the
  inference process (`bridge`), tool planning and result texts (`tools`),
  the layout of every screen element as styled text (`ui`, `theme`), base64
  and the live level buffer (`audio`), text helpers (`text`) and the laws
  that hold across operations (`laws`).
- `app/` is the program: the terminal, the microphone, the inference
  subprocess, the file system, and the floating-point audio work.
- `tests/` runs the library on concrete values.
