# gateway-proxy

A small reverse proxy and port forwarder for a home network that is reachable over IPv6.

- HTTPS: any number of domains on one port, told apart by `Host`, with WebSocket pass-through.
- TCP: ports passed on to hosts inside, such as 2222 to an SSH server.
- Certificates from Let's Encrypt, or PEM files of one's own.
- DDNS: Cloudflare AAAA records follow the public IPv6 address.

## Layout

- `src/` is the library: every decision the gateway takes, with contracts that Verus proves.
  - `config`: the configuration and its rules, the routing table.
  - `http_proxy`: which upstream a request goes to and how it is rewritten.
  - `tcp_proxy`: the loop of a TCP listener.
  - `tls`: where certificates come from, and how they are read.
  - `ddns`: when records are brought up to date, and to which address.
  - `cloudflare`: the API calls that do it.
  - `headers`, `status`, `json`, `text`: header maps, status codes, JSON values and text.
- `app/` is the program around it: sockets, TLS, files and the async runtime.
- `tests/` runs the library on concrete values.

## Trust

The proofs rest on contracts for the few functions of `hyper`, `serde_json`, `rustls-pemfile` and the
standard library that the library calls. Each of them stands next to its contract in `src/`.
