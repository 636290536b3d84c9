# llm_wrapper

A gateway for LLM APIs. Clients speak Chat Completions, Responses or Anthropic Messages; each
request is routed by its model alias to an upstream, converted where the upstream speaks another
protocol, and answered in the protocol of the request.

- `src/` is the library, verified with Verus: JSON values, configuration, routing, parameter
  injection, protocol conversion, server-sent events, sessions, rate limits, key masking, quota
  reading and the rules around the CLIProxyAPI sidecar. Contracts are stated over views; the laws
  are the public proof functions beside the code that they speak of.
- `app/` is the program around it: the HTTP server, files, child processes and network requests.
- `tests/` runs the library together with the crates it calls.

What the library takes on trust are the declarations marked `external_body`,
`external_type_specification` and `assume_specification`; each says above it which function of
`serde_json`, `serde_yaml`, `base64`, `argon2`, `uuid`, `reqwest` or std it stands for.

## Settings

`config.yaml` holds upstreams, aliases and keys. The program reads `CONFIG_PATH`, `BIND_ADDR` and
`RUST_LOG`, and `ANTHROPIC_TOOL`: the name by which CLIProxyAPI knows Anthropic's command line
tool. Account files, login options, model names and quotas of that tool are told by this name, so
it has to be set to the spelling that CLIProxyAPI uses; it is `anthropic` where nothing is set.
