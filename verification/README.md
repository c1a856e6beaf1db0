# werk_cli

The logic of the `werk` command line, verified with Verus: what its commands
decide, compute, refuse and say.

- `src/` is the library. Every function states what it returns; the laws that
  span functions are public proof functions beside them.
- `tests/` runs the library on concrete values.
- `app/` is the program around it: arguments, terminals, files, and the calls to
  the model store, the runtimes and the server.

## Modules

| Area | Modules |
| --- | --- |
| Text, numbers, JSON | `text`, `order`, `paths`, `binary64`, `json`, `fields`, `report_lines` |
| Arguments and commands | `args`, `commands`, `runtime_control`, `progress` |
| Models and memory | `manifest`, `model_list`, `estimate`, `kv_cache`, `estimate_report`, `remote`, `memory`, `summaries` |
| Backends | `backend`, `selection`, `readiness`, `routing_debug`, `doctor`, `bench` |
| Chats | `messages`, `tool_calls`, `chat`, `chat_loop`, `chat_session`, `images`, `persistence`, `stats`, `line_edit`, `keys` |
| Media requests | `media_params`, `media_request`, `media_execution`, `media_run`, `run_inference`, `workload`, `parameters`, `outputs`, `redaction`, `media_diagnostics` |

## What is not proved

A few calls of outside crates and of the standard library are described by
contracts that are believed: parsing and quoting JSON (`serde_json`), Base64
(`base64`), SHA-256 (`sha2`), the width and padding of terminal text
(`console`), and `String::push`, `String::push_str` and `char::from_u32`. Each
stands in the module that needs it, with a comment that says what is claimed of
it.
