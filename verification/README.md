# OAAS — Own AI Agents System

A local orchestrator for `llama.cpp`: it runs `llama-server` for a profile of
its YAML configuration, serves an OpenAI-compatible proxy (`/v1/*`) with
optional LLMLingua prompt compression, a dashboard (`/oaas/`), and wires the
Continue IDE extension to it.

## Layout

- `src/` — the library, verified with Verus: the configuration model and its
  edits, the Continue integration (paths, merges, detection), the model and
  documentation catalogues, downloads with resumption, the proxy's routing
  rules, the LLMLingua framing, the `/proc` and GPU-tool parsers, and every
  report the commands print (`status`, `doctor`, `models`, `docs`). Each
  public function carries a contract; the laws that span functions are proof
  functions named `law_*`.
- `app/` — the `oaas` program: argument parsing, files, processes, sockets,
  HTTP (axum, reqwest) and the few floating-point figures of the metrics.
  It gathers what the library asks for and prints or serves what the library
  computes.
- `tests/` — tests of the library on concrete values.
