# mep_bot

A small HTTP service that answers with the AL30/GD30 bond quotes (ask and bid,
spot and next-day settlement) published by Balanz over its websocket, from
which the MEP dollar rate is computed.

- `src/` is the verified library (Verus): the table of quotes and how
  websocket messages fill it (`quotes`), the `/` endpoint's login steps
  (including reading the nonce reply), its process-wide token cell and its
  retry decisions (`root_service`), and the `/quotes` service's
  configuration, login steps, token cache, quote collection and retry
  policy (`balanz`). Text helpers live in `text`, errors in `error`.
- `app/` is the server around it: HTTP, websocket, Firestore and environment
  access, locking, and reading JSON bodies into the library's plain values,
  driving the library's decisions.
- `tests/` exercise the library on concrete values.
