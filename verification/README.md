# Buddy

Buddy is a command-line assistant that indexes local machine context, stores it
in SQLite, and lets a Groq model answer questions about the snapshot. Answers can
be spoken through Voxd, and OBS scenes can be planned, applied and judged.

- `src/` is the library: the rules and decisions, written in Verus. Each function
  states what it does, and Verus proves that it does so. The functions whose names
  start with `law_` state what holds of several functions together.
- `app/` is the program around it: files, processes, the database, the network,
  and the floating-point geometry of scene layouts.
- `tests/` runs the library on concrete values.

## What is promised

- Speech and screen images are opt-in.
- A question scans the home directory if `--refresh` asks for it or nothing has
  been scanned yet. Otherwise it reuses the stored scan.
- `context` and `status` never contact the model.
- What is sent is a bounded view of the snapshot: all processes, and no more
  filesystem entries than the limit allows.
- Links are recorded but not followed. What cannot be read is counted. No path of
  a directory tree is visited twice.
- Update checks look at stable releases alone, pick the newest by number, and are
  answered from the last check for six hours.

## What is trusted

- `src/json.rs` states what some functions of `serde_json` return.
- `src/text.rs` states what `String::push` does.
