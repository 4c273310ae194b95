# shell

An interactive command shell whose logic is a verified library.

- `src/` is the library, verified with Verus: text handling, the builtin
  tables and what the builtins print, argument validation for `history`,
  command and file-name completion, the command history (its walk, its
  files), the handling of keys at the prompt, and the plan of how a command
  line runs (builtins in the shell, processes connected by pipes).
- `app/` is the program around it: the terminal, directory listings,
  files, the working directory, and the processes and pipes that the
  library's plan asks for.
- `tests/` holds the library's tests.
