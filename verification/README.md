# sensor

A Bluetooth intrusion detection sensor. It reads `btmon` output, assembles
packets, classifies them into Bluetooth events, applies signature rules over
the recent events, raises one alert per continuing condition, turns alerts
into SOC incidents that wait for an analyst's decision, and contains a
device only for an approved incident on the authorized test device. It also
collects 30-second behavioural feature windows per device for a dataset.

## Layout

- `src/` — the verified library (Verus). Each module states its behaviour in
  `requires`/`ensures` over spec functions:
  - `text`, `numtext`, `textmap`, `time`, `matching`: character-level text
    handling, number formatting and parsing, an association map keyed by
    text, whole-second ages, and regular expression captures;
  - `packet_builder`, `parser`: btmon lines to packets to events;
  - `signatures`, `detector`, `patterns`, `event_queue`: detection;
  - `soc`, `prevention`, `events`, `sender`: incidents, containment steps,
    exported security events;
  - `dashboard`, `statistics`, `ml`, `simulator`: session figures, feature
    windows, dataset labels and synthetic events.
- `tests/` — tests of the library on concrete inputs.
- `app/` — the program around the library: the monitoring loop, files,
  terminal output, `bluetoothctl`, the IDSM connection, CSV and the decision
  tree trainer.
