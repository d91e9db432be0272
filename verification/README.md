# llmux

LLM multiplexer. Routes OpenAI-compatible requests to model backends and switches between them on
demand using user-provided scripts: a **wake**, a **sleep** and an **alive** script per model.

The decisions that it takes are a library whose contracts are proved with
[Verus](https://github.com/verus-lang/verus); the I/O around them is ordinary Rust.

## Layout

- `src/` is the verified library.
  - `config`, `models`, `policy`: a configuration, its validation, and the policy it asks for.
  - `host`, `address`: the grammar of hosts and IP addresses.
  - `hooks`: the command that runs a lifecycle script, and what its end means.
  - `middleware`, `flow_laws`: the handling of a request as a state machine, and what holds of it
    from beginning to end.
  - `switcher`, `types`: where each model listens, and why one cannot be made ready.
  - `proxy`, `reply`: the URI of a forwarded request, and the answers to those not forwarded.
  - `json_reader`: what the JSON that is written means.
  - `text`, `json`, `uri`: what the rest builds on. What is taken on trust from the standard
    library, `serde_json` and `http` stands here, and says what is claimed of it.
- `tests/` runs the library on concrete values.
- `app/` reads files, runs processes and speaks HTTP.

## Configuration

```yaml
models:
  llama:
    port: 8001              # where the backend listens
    host: localhost         # default: localhost
    wake: ./scripts/wake-llama.sh
    sleep: ./scripts/sleep-llama.sh
    alive: curl -sf http://localhost:8001/health

policy:
  request_timeout_secs: 300   # default: no limit
  drain_before_switch: true   # default: true
  min_active_secs: 5          # default: 0

port: 3000                    # default: 3000
```

YAML and JSON are told apart by the file extension. A hook is run through `sh -c`, in the
environment of the process with `LLMUX_MODEL` and `LLMUX_DEST_PORT` set.
