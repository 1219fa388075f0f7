# Roam

The window of a cross-backend desktop file browser.

`src/` decides what the window does: where a pane goes and what it remembers, which rows
of a table show, what a preview or a transfer says, how tabs and saved connections change,
what a form asks for, and which keys run which action. Every function there is verified
with Verus against its contract, and what holds of several of them together is stated as
`law_…` proof functions beside them.

`app/` draws it with GPUI Kit and talks to the backends through `roam-core`. It asks the
library what to do, does it, and hands back what came of it.

| module | what it decides |
| --- | --- |
| `actions`, `shortcut_settings` | shortcuts: their settings, their file, their form |
| `browser`, `delegate` | a pane and its table |
| `preview` | the preview panel |
| `transfer_panel` | the transfer panel |
| `dir_tree` | the sidebar's tree |
| `workspace` | tabs and connections |
| `connection_form` | the form for a connection |
| `dialog`, `name_dialog`, `placeholders` | dialogs and inputs |
| `startup` | what the program opens with |
| `entry` | what an entry and a session are |
| `config_text`, `paths`, `text`, `text_map` | files, paths and text |

What is believed without proof: what `toml` and `serde` read and write (`config_text`),
`Path::with_file_name` (`paths`), `String::from_utf8_lossy` (`preview`) and
`String::push` (`text`).
