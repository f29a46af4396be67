# eda_license_collector

A Prometheus exporter for FlexLM license servers. It runs
`lmutil lmstat -a -c <port>@<host>` for every configured server, reads the
output, and exposes the usage of features and licenses as metrics.

- `src/` is the library, verified with Verus: reading the output, the retries of
  a collection, the metrics and the kept statuses, the configuration and the
  report. What it calls outside itself stands in `src/outside.rs`,
  `src/families.rs` and the head of `src/text.rs`, with the contracts that are
  believed of those calls. `src/*_laws.rs` hold what is proved of all inputs.
- `app/` is the program around it: the command line, the processes, the
  configuration file and the HTTP service.
- `tests/` runs the library.

| Option | Meaning |
|--------|---------|
| `-c, --config <PATH>` | The configuration file, `config/config.yaml` by default. A file `config.yaml.local` or `config.local.yaml` beside it takes its place. |
| `--port <PORT>` | The port of the metrics, in place of `prometheus.port` |
| `--once` | Collect once, print a report and leave |

| Path | Answer |
|------|--------|
| `/metrics` | The metrics in the text format |
| `/health` | `ok` |
