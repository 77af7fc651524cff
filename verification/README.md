# principia_aves

A warm-pool orchestration sidecar for Hummingbot bots. It takes deployment requests from
MQTT or HTTP, reserves an idle warm bot, fetches the deployment's files from object storage,
places them in the bot's folder, starts the strategy over MQTT and reports progress on
`orchestrate/status`.

## Layout

- `src/`: the verified library, written in Verus. Every function carries a contract that
  Verus proves.
  - `slot_store`: the pool of warm bots (sorted by name, no name twice), with the laws of
    reservation, release, heartbeats and the stale-bot reaper.
  - `request_flow`, `controller_flow`, `stop_flow`: the decisions of an orchestration
    request, a manual controller deployment and a stop, as state machines from an outcome
    to the next piece of outside work.
  - `mqtt`: topics, command envelopes, reply classification, message routing, reconnect
    backoff and status polling.
  - `config`: `.env` parsing and the settings with their defaults.
  - `r2`, `placement`: object keys, local paths, and the files written into a bot's folder.
  - `orchestrator`, `docker`, `types`, `json`, `log_store`, `text`, `clock`: reports and
    errors, container health, shared data, a JSON model, per-bot log buffers, string
    helpers, and the clock.
- `app/`: the program around the library: HTTP routes (axum), the MQTT connection
  (rumqttc), object storage (object_store), Docker (bollard), the file system and serde.
- `tests/`: tests run against the compiled library.
