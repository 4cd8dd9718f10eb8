# GLMeter

A tray program that shows how much of a GLM Coding Plan is left, and that can open a new quota
window by itself.

- `src/` is the library. It decides everything that can be decided without talking to the outside:
  what an answer of the service comes to, what the menu, the tray text and the tooltip say, when the
  quota is queried, when a window is activated and what follows an activation that did not help. Its
  functions carry contracts that Verus proves, from what is taken on trust below.
- `app/` is the program around it: settings on disk, requests, threads, the trays of the desktops.
- `tests/` runs the library on concrete values.

| module | what it holds |
| --- | --- |
| `text`, `json`, `clock` | texts, JSON documents, points in time |
| `config` | the settings and the addresses they lead to |
| `api`, `cards`, `request` | answers and requests of the service |
| `ui`, `template`, `tooltip`, `report` | what is shown |
| `menu`, `sni`, `trayicon`, `icon`, `command` | the menus and pictures of the trays, and what choosing a line does |
| `worker`, `ticker` | when something is done |

## Taken on trust

Verus believes these contracts without proof. Each is documented where it stands.

- `clock`: `local_now`, `local_at`, `local_reading`, `time_text` and `read_clock` call `chrono`.
- `json`: `value_from_text` and `json_from_value` call `serde_json`, whose `Value` is declared;
  `json_text` and `json_contents` name what they read.
- `icon`: `scaled_rgba` calls `image`.
- `text`: `String::push` and `char::is_whitespace` of the standard library; `white_space` names the
  latter.
- `ui`: `upper_text` calls `char::to_uppercase`; `upper_case` names what it gives.

`app/` is not verified. It has to test the preconditions of the functions that it calls.
