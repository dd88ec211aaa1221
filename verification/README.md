# loa_logs

The combat-log logic of a Lost Ark damage meter, written in Verus with its
behaviour stated in contracts and proved.

- `src/live/status_tracker.rs`: status effects on the server clock — epoch
  and clock offset sampling, deadlines, removal, zone changes, reads for hits.
- `src/live/skill_tracker.rs`, `cast_log.rs`: skill casts and their hits.
- `src/live/buff_flags.rs`, `effect_info.rs`, `status_build.rs`, `utils.rs`:
  buff classification and descriptions, skill names and icons.
- `src/live/player_stats.rs`, `effect_order.rs`, `effect_select.rs`, `rdps.rs`:
  identity gauge runtime state and the integer parts of damage attribution.
- `src/live/processor.rs`, `stats_api.rs`: the decisions of the packet loop
  and what is sent to the stats service.
- `src/local_api.rs`, `local_api_http.rs`: the local HTTP API's access rules.
- `src/models/`: the meter's records.
- `src/order.rs`, `src/text.rs`: orders and text helpers the rest builds on.

`app/` holds the process around the library: logging, files, the HTTP
server and client. `tests/` runs the library on concrete values.
