# MobileCode Connect, verified core

The logic of MobileCode Connect's agent, relay daemon, Control client and
command-line tools, written in Verus with its contracts proved.

- `src/` is the verified library. `text`, `ip` and `query` read and write the
  textual forms (trimming, splitting, decimal numbers, IP addresses, URL
  query strings); `table` is a map of records under string keys kept in
  insertion order; `ids`, `protocol`, `models` and `config` are the data the
  components exchange; `control_client` frames Control requests, parses
  responses and decides retries; `routes` builds the request paths that
  name an object; `token` signs and checks
  `payload.signature` tokens; `registry` and `target_policy` decide which
  local services a stream may reach; `mobile_grant` is the agent's store of
  mobile invites and grants; `runtime`, `relayd`, `cli` and `control_server`
  are the decisions of the agent, the relay daemon, the command-line tools
  and the Control server's settings.
- `tests/` runs the library on concrete values.
- `app/` is ordinary Rust around the library: JSON forms of its types, the
  HTTP transport, the grant store on disk, stream forwarding, LAN detection
  and reading the environment.
