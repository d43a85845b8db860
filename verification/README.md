# hiboard

A command-line tool that pushes task results (Markdown) to the HarmonyOS
minus-one screen, written as a verified library with a thin program around it.

- `src/` — the library, verified with Verus:
  - `text`, `num`, `order`: character strings, decimal and hexadecimal
    notation, lexicographic sorting;
  - `version`: version numbers of the reference skill and their order;
  - `compat`: the comparison of the skill's newest release with this tool;
  - `template`: front matter, variables and rendering of templates;
  - `validator`, `payload`, `config`: request checks, the push request, the
    configuration;
  - `cli`: the decisions of the `push` and `skill-check` commands (a push
    is a sequence of steps, each from a state and an event to the next
    state and the outside work to do);
  - `system`: the user's directories and the text of their paths.
- `app/` — the program: argument parsing, files, the key chain, HTTP, SQLite.
- `tests/` — tests of the library.
