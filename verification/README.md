# hardware_scanner

Scans the machine it runs on, scores it against four operating-system
profiles (Windows 11, Ubuntu 24.04 LTS, Fedora Workstation 40, Debian 12)
and reports the matches best first, each with a compatibility category
(`Excellent`, `Good`, `Fair`, `Low`), the requirements it misses and the
upgrades it would need. A small HTTP service lets a local web page request
a scan with a one-time token, and a server request one with an API key.

Layout:

- `src/` — the verified library (Verus).
  - `text.rs`, `format.rs`: character-level parsing and number formatting.
  - `scoring.rs`, `ranking.rs`: the profiles, the score of one profile, the
    ranked recommendation.
  - `decimal.rs`: byte counts written in decimal or exponent notation, in
    hundredths of a gigabyte.
  - `hardware.rs`: the hardware summary made from the raw probe outputs.
  - `clock.rs`: the system clock, RFC 3339 text (through `chrono`) and
    random tokens (from the operating system's generator, through `rand`).
  - `service.rs`: the service's configuration and its request decisions.
  - `report.rs`: the report.
  - `laws.rs`: properties of the whole, proved.
- `tests/`: tests of the library.
- `app/`: the command-line program and the HTTP service (probing the
  machine, JSON, axum).

Memory and storage are kept in hundredths of a gigabyte inside the library;
the JSON output gives them in gigabytes.

Run `hardware_scanner` for the JSON report, `--compact` for one line, and
`--serve` for the service (`SCANNER_SERVICE_BIND`, `LOCAL_ALLOWED_ORIGINS`,
`LOCAL_TOKEN_TTL_SECONDS`, `SERVER_SCAN_API_KEY`).
