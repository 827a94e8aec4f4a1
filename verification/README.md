# ajaya

The request and response logic of the Ajaya web framework, written in Verus
and proved against its specifications.

- `src/` is the verified library. Headers are kept in `http::HeaderMap`,
  modelled as a map from lowercase names to the byte strings stored under
  them; responses are plain parts (status, headers, body bytes). The modules
  cover the WebSocket handshake, Server-Sent Events, method filters, path
  parameter parsing, extractor checks and rejections, multipart limits, CORS,
  CSRF, compression choices, security headers, body limits, rate-limit keys,
  request identifiers, timeouts and error answers.
- `tests/` runs the library on concrete inputs.
- `app/` is the runtime around it: tower services, hyper connections, async
  codecs, WebSocket and event-stream bodies, multipart streaming, cookie jars
  and token buckets. The request and response decisions are the library's
  (for compression and decompression, the plan and outcome functions); app/
  runs the codecs only where their output is used, guards the library's
  header-count bounds, and keeps the floating-point token buckets.
