# embedder

Embeddings for texts, asked for at a list of configured channels.

- `src/` is the verified library. `job` decides which channel is asked next, `request` and
  `channel` build what it is asked, `reply` and `response` read what comes back and put the vectors
  into the order of the texts. `response_laws` and `job_laws` state what holds of every response and
  of every job. `json` is the boundary to `serde_json`.
- `app/` sends the requests, loads the channels through the host application, and turns numbers into
  bit patterns and back.
- `tests/` runs the library with `serde_json` and `reqwest` linked.

A vector component is a single-precision number; the library holds its bit pattern.
