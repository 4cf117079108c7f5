# xray-bridge

An HTTP→gRPC bridge for the Xray node management API: clients send HTTPS/JSON
requests with `Authorization: Bearer <BRIDGE_TOKEN>` and `X-Node-Domain` /
`X-Node-Token` / `X-Node-Port` / `X-Node-Name` headers; the bridge calls the named
node's gRPC API and answers in JSON.

## Layout

- `src/` — the library, written in Verus and proved against its contracts:
  - `text` — character-level helpers: substring search, `u16` parsing, decimal rendering;
  - `wire` — protobuf wire encoding of the fields the bridge writes itself;
  - `error` — error kinds and the gRPC-status → HTTP-status mapping;
  - `config` — settings (bridge token, listening port);
  - `auth` — bearer-token authentication and constant-time comparison;
  - `account`, `operations` — account messages and the add/remove-user requests;
  - `configs` — inbound/outbound handler configurations read from JSON;
  - `stats` — stat names (`scope>>>id>>>category>>>metric`), counters, user lists;
  - `channel` — TLS channels to node endpoints, each kept with the URI it reaches;
  - `nodes` — the LRU cache of node clients and `X-Node-*` header resolution;
  - `routes` — request bodies, defaults and the replies of management endpoints.
- `app/` — the executable: axum routing and extractors, the gRPC calls to the nodes,
  JSON (de)serialisation, environment and logging.
- `tests/` — tests of the library on concrete values.

## Configuration

| Variable | Required | Default | Description |
|---|---|---|---|
| `BRIDGE_TOKEN` | yes | — | Bridge authentication token |
| `PORT` | no | `8080` | HTTP listening port |
| `RUST_LOG` | no | `info,xray_bridge=debug` | Log filter |
