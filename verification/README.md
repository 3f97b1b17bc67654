# rivet

Verified core of Rivet's backend tooling and services, written in Verus.

`src/` holds the logic with its contracts and laws:

- `servers` — the servers of a namespace: names, tags, volumes and VLAN
  addresses (through `ipnet`), with later servers replacing earlier ones of
  the same name, and the check of what building them requires.
- `cargo_cli` — the Cargo build script and the per-binary Docker images.
- `db_conn` — the steps that connect the tooling to a namespace's databases,
  the addresses they record, and migration URLs.
- `job_log`, `build_get`, `cdn`, `user_search`, `default_builds` — the
  statements that the services run and the values they bind, and the
  parts in which a build's image is uploaded.
- `status`, `admin`, `models` — route decisions and API models.
- `text`, `query` — decimal rendering, joining and replacing in strings;
  statements and bound values.

`app/` runs what the library plans: processes, files, port forwards, SQL and
ClickHouse queries, HTTP uploads, and the serializable copies of the types.
