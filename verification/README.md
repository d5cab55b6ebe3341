# sntry

A read-side command-line client for Sentry, built around a library whose
behaviour is stated in Verus contracts and proved.

- `src/` is the verified library: credential resolution (flag, then
  environment, then the profile file), the profile store (a sorted map with
  its invariant), masking of tokens, the configuration path and file-mode
  check, relative and absolute time specs, request paths and query strings,
  the retry and pagination decisions, `Link` header parsing, API error
  messages, column layout and text rendering, and the per-command logic
  (issue annotation, metric type lookup, monitor audit and payloads,
  de-duplication in `tail`).
- Calls into `chrono`, `reqwest` (status reasons), `comfy-table` and `url`
  stand behind small trusted wrappers whose contracts name what the crate
  computes.
- `app/` is the program around it: clap arguments, files, the terminal,
  prompts, HTTP and the async loops, which perform what the library decides.
- `tests/` exercises the library on concrete values.
