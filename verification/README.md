# settings

A settings window for applications that keep their configuration in TOML. A schema
describes the tabs, fields and rules; the window edits the configuration.

- `src/` is the library, verified with Verus: the schema model, its validation and
  the reports for schema authors, and what the window does with the events of a
  frame (tabs, sections, dialogs, key-value tables, key combinations, colors, fonts,
  saving, changes of the file from outside).
- `tests/` runs the library.
- `app/` is ordinary Rust around it: TOML through serde, drawing through egui, the
  file watcher and file dialogs. The configuration store, the rule engine, the
  palette and the texts of the window are supplied by the program that opens it
  (`app/host.rs`).

Floating-point numbers of a schema are held in the library by their bit patterns
(`Float32`, `Float64`); arithmetic on them is done in `app/`.

What the library takes on trust: equality of `str`, `String::push`, `str::trim`,
`char::from_u32`, the `Debug` form of a string, and what `cel::Program::compile`
accepts and reports.

Compiling an expression recurses on the stack. The library compiles those that fit
the stack of an ordinary thread (`is_compilable`); for a schema with larger ones it
takes the outcomes (`Schema::validate_with`), which `app/` gets on a thread with a
large stack.
