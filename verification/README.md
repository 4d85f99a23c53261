# microsandbox-terminal

Interactive terminal access to sandboxes: PTY sessions, the WebSocket protocol around them, rate
limiting of input, and the proxy between a client and the portal of a sandbox.

`src/` is the library, written in Verus. It holds every decision: what each operation answers, and
what is to be done next to the PTY, the shell process or the socket. Nothing in it touches the
operating system but to read the clock and to draw a random session identifier. The public
functions state what they return and change; of the time that is read, and of the identifier that is
drawn, only what holds of every one. The modules prove the laws that hold of their functions together
(the proof functions whose names begin with `law_`).

- `message`, `encoding`: protocol messages and their base64 payloads
- `rate_limit`, `clock`: the leaky bucket, counted exactly in billionths of a token
- `session`, `spawn`, `resize`, `error`: one PTY session, from opening to closing
- `manager`, `state`: the active sessions, and the cleaning up of idle ones
- `connection`, `output`: one terminal connection, in both directions
- `proxy`, `relay`: which proxy requests are accepted, and the relaying of frames
- `text`: plain text helpers

`app/` does what the library decides: file descriptors, processes, timers, JSON and sockets.
`tests/` runs the library on concrete values.

What the proofs take on trust is the base64, regex and UUID crates and a few functions of the
standard library; the doc comment of each such item says what is claimed of it.
