# llama_watch

The decision logic of the LLAMA safety monitor, an ASCOM Alpaca
SafetyMonitor that combines MQTT feeds, remote Alpaca devices and Tempest
weather stations into one safety verdict, written in Verus and verified.

Layout:

- `src/` — the verified library:
  - `hold.rs` — hold-time state machines shared by monitors, weather
    devices and switches;
  - `monitors.rs` — monitor records: readings, errors, timeouts;
  - `safety.rs` — the overall verdict, monitor groups, reloads and safety
    comments;
  - `switches.rs` — aggregated switches (ANY / ALL / MIN_OF) and their
    manager;
  - `weather.rs` — ObservingConditions properties, the observation store and
    the weather safety check;
  - `validation.rs` — the configuration consistency check;
  - `alpaca.rs`, `requests.rs` — request checks, device states, discovery
    and the unique device id;
  - `logging.rs`, `web.rs` — what the debug log records and the status page
    listing;
  - `config.rs`, `text.rs` — shared records and text helpers.
- `tests/` — tests of the library on concrete values.
- `app/` — the server around the library: HTTP and UDP endpoints, MQTT and
  HTTP polling, the Tempest listener, files, and the floating-point
  threshold comparisons.
