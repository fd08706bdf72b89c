# tira

The verified core of `tira`, a terminal client for Jira, written in Verus.

- `src/` is the library. Every function in it carries a contract that Verus
  proves: text editing (`input`, `filter`), tabs, notifications, the lazily
  loaded issue tree (`tree`, `filtered_tree`, `jira_tree`), multi-select
  dropdowns, the board navigator (`board`, with the laws on what its
  selection can name in `board_selection`), dates and timeline data
  (`date`, `models`), the setup form, the key bindings (`keys`, `keymap`,
  `keymap_config`, `keymap_hints`, `keymap_help`), the column picker
  (`issue_columns`, `column_fields`), the command log, the spinner and
  dialog placement.
- Calls into other crates (fuzzy matching, TOML parsing) and into the parts of
  the standard library that Verus has no specification for sit behind small
  wrappers whose contracts are stated next to them.
- `tests/` exercises the library on concrete values.
- `app/` is the command-line program: it reads and writes the configuration
  files and fills in the credential form from standard input.
