# praline

The logic of a repository scaffolder, verified with Verus.

- `src/help.rs`: template rendering. Tool-conditional blocks
  (`{if:<tool>}`, `{ifnot:<tool>}`, `{endif:<tool>}`) are resolved, then the
  `{ident}`, `{name}`, `{desc}` and `{owner}` placeholders are replaced; the
  result is specified character by character and UTF-8 encoded.
- `src/state.rs`: the form's state and the text-field commands.
- `src/input.rs`: the text field's buffer (`tui_input::Input`) and what the
  form relies on of it.
- `src/repo.rs`: the repository description, tool selection and presets.
- `src/entries.rs`: the ordered map of staged template files.
- `src/keys.rs`: what a key press asks of the form.
- `src/ui.rs`, `src/tool.rs`, `src/text.rs`: field drawing decisions, the task
  runner tool, and character-sequence helpers.
- `app/`: file-system walks, drawing with ratatui, and the terminal loop
  (`tui::run`) that feeds key events to the library.
