# tunnelx

TunnelX exposes a local web server through a relay: a tunnel client registers with the relay
over a WebSocket, the relay gives the tunnel a subdomain and a public URL, and browser requests
to that URL travel as frames through the WebSocket to the client, which replays them against
`localhost`.

This crate is the verified part of TunnelX: the decisions of the relay and of the client, each
stated as a Verus contract and proved.

- `src/` — the library, verified by Verus.
  - `frame`, `http`, `ws`: the frames of the tunnel protocol and WebSocket message kinds.
  - `relay`: registration of a tunnel (protocol version, token length, subdomain checks),
    public URLs, and what each message of a registered client asks for.
  - `routing`: which tunnel a public request goes to (path `/t/<sub>/…`, `Referer`, `Host`),
    which request headers are forwarded and which response headers pass.
  - `session`, `pending`: the relay's live sessions, expiry, and the requests waiting for a
    response.
  - `rate_limit`: per-client counting in one-second windows.
  - `crypto`: token hashing (SHA-256) and message signatures (HMAC-SHA256), hex encoded.
  - `client`: the client's decisions: where to connect, how to register, what each event
    asks for, how a local response goes back through the tunnel.
  - `registry`: the local list of running tunnels behind `tunnelx list` and `tunnelx status`.
  - `ui`: what the terminal display shows (colours, durations, truncated paths, the rows of
    the QR code of the public URL).
  - `text`: string helpers stated over `Seq<char>`.
  - Public `law_*` proof functions state the properties that span several functions, such as
    that a public URL handed out at registration routes back to its tunnel.
- `tests/` — tests of the library on concrete values.
- `app/` — the programs around the library: the relay server (axum) and the tunnel client
  (tokio-tungstenite, hyper, crossterm), with the wire codec (bincode) and the command line
  (clap).  The program runs as the relay when its executable is named `relay`.
