# Typed commands

The decisions behind the commands that are typed at an editor's prompt, written and proved in
Verus: what a line means, which command it runs, what that command asks of the editor, and what
the editor says.

## How it works

A command is a function from a snapshot of the editor (`editor`), its arguments (`args`) and what
happens at the prompt to a plan (`plan`): steps that the editor performs in turn until one of them
fails, and an error if the command fails by itself. After each step `next_step` says what comes
next, and a step whose outcome decides more than that names the function that goes on from there.

- `prompt` completes, documents and interprets what is typed; `command` lists the commands and
  finds them by their names; `run` runs one of them.
- `buffers` and `save` open, close, write and reload documents; `document` changes the document in
  focus; `clipboard`, `servers`, `syntax`, `shell` and `view` hold the other commands.
- `options` reads and changes options that are kept as JSON by `serde_json`; `character` shows how
  a character is encoded by `encoding_rs`.
- `change`, `selection`, `diff`, `number`, `text` and `variable` hold the computations that the
  commands share.

Each command's contract equates its plan with an open specification function, and public proof
functions (`lemma_...`) state what holds across commands: that nothing but a preview happens before
the input is confirmed, that every name finds its own command, that an option that was set is shown
as it was set, and so on.

## Layout

- `src/`: the library.
- `tests/`: its tests.
- `app/`: the loop around the library, which performs plans in an editor that implements `Host`.
