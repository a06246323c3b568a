# jlpkg

A Cargo-style command-line interface for Julia's package manager, built around
a verified library.

- `src/` is the library, with its contracts proved: command names and help rules
  (`cli`), each command's argument rules and plans (`commands`), `init`'s
  decisions (`init`), the Julia code and command lines (`julia`), project
  names (`names`), package lists and `--from-file` (`packages`),
  `Project.toml` identity fields (`project`), the character-level text model
  (`text`) and version 4 UUIDs (`uuid`).
- `app/` is the program: it reads the command line, touches the file system,
  starts Julia and prints, and asks the library for every decision.
- `tests/` exercises the library on concrete values.
