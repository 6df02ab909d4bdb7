# slothy

The request logic of a small plant-watering service, verified with Verus.

Humidity sensors, each identified by an IoT device and a sensor number,
report readings for the plants they watch. The service lists plants, answers
the latest humidity of a plant, and records new readings.

## Layout

- `src/` — the verified library.
  - `garden.rs`: plants addressed by device and sensor (`GET /plant/{iot}`,
    `GET /plant/{iot}/{sensor}`, `GET /water/{iot}/{sensor}`, `PUT /water`).
  - `named.rs`: plants addressed by name, matched without regard to ASCII
    case (`GET /plant`, `GET /plant/{name}`, `GET /water/{plant}`,
    `PUT /water/{plant}/{humidity}`).
  - `types.rs`: the `Plant`, `Observation` and `Measurement` records.
  - `names.rs`, `humidity.rs`, `ids.rs`, `clock.rs`, `error.rs`: name
    matching, humidity bit patterns and NaN, row ids, the clock, errors.
- `tests/` — tests of the library on concrete tables.
- `app/` — the HTTP server (actix-web) and the SQLite database (sqlx). Each
  handler reads the tables, asks the library for the answer and the row to
  write, writes it, and sends the answer.

Humidity readings cross into the library as the 64 bits of their `f64`
value; time stamps as whole seconds since the epoch.
