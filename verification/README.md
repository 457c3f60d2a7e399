# Pocket Relay Client Shared

Shared backend of the Pocket Relay client variants, written in Verus. What the
backend decides and computes is a library whose behaviour is stated in contracts
and proved; what talks to the network and the file system is ordinary Rust around
it.

- `src/`: the library
  - `fire`, `tagged`: fire packet framing, and the values that packets carry
  - `api`, `version`, `weburl`: server lookup, endpoints and headers
  - `ctx`, `update`: the client context, and releases on github
  - `servers`: the local servers
    - `redirector`, `http`, `qos`, `telemetry`: what they answer and decode
    - `tunnel`, `udp_tunnel`, `socket`, `reconnect`: the tunnels and their socket
      pools, as state machines that are told what happened and say what to do
  - `buffer`, `text`, `address`, `wire`: what the others are built on
- `app/`: the servers and requests themselves
- `tests/`: tests of the library

Functions that state what holds across several calls are called `law_...`.
