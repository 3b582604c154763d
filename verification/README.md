# codecrafters_shell

A small interactive Unix-like shell. The library under `src/` holds its logic,
verified with Verus; `app/` is the program around it (the read-eval loop, files,
processes, the environment and the line editor).

- `tokenizer`: command-line tokens with single quotes, double quotes and
  backslash escapes, specified as a character automaton.
- `redirect`: the redirection operators of a line (`>`, `1>`, `>>`, `1>>`,
  `2>`, `2>>`) and the files they name, in order.
- `pipeline`: the stages of a line between `|` tokens, and what each stage
  does: where its input and output go, or why the pipeline stops.
- `builtins`, `dir`, `exec`: what `exit`, `echo`, `type`, `pwd` and `cd`
  decide and print.
- `history`: the `history` builtin over the line editor's history.
- `completion`: tab-completion candidates for commands and file names.
- `path`: `$PATH` search candidates, execute permissions, sorted name lists.
- `number`, `text`: decimal formatting, integer parsing and string helpers.

Set `HISTFILE` to keep the history across sessions.
