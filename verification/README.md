# cubed

A local manager for Minecraft Java servers. The rules of the manager live in
`src/` as Rust verified with Verus; `app/` drives processes, files, the
network and the clock around them.

## Layout

- `src/entities.rs`, `src/records.rs`, `src/repo.rs`: servers, backups, mods
  and modpacks, their stored form and the tables that hold them.
- `src/lifecycle.rs`: status changes, restarts, process exits and the
  start-up reconciliation.
- `src/console.rs`: the bounded console history of each server.
- `src/java.rs`, `src/downloader.rs`, `src/software.rs`: Java requirements
  and detection, and where each server software is downloaded from.
- `src/modpack.rs`, `src/mods.rs`: what a modpack installs and where, and
  how mods are checked and listed.
- `src/backup.rs`, `src/integrity.rs`, `src/resources.rs`: backups, the
  records-versus-disk check, and resource totals.
- `src/settings.rs`, `src/layout.rs`, `src/commands.rs`: settings, the
  directories and files of a server, and what the user interface receives.
- `src/ports.rs`, `src/tailscale.rs`: free ports and the Tailscale state.
- `src/text.rs`, `src/paths.rs`, `src/order.rs`, `src/stamps.rs`: text,
  paths, ordering, identifiers and times.

`tests/` exercises the library on concrete values.

## Storage

Servers, backups, mods and modpacks are kept in JSON files. Each file is read
once when its store is opened; a server that was starting, running or
stopping at that moment is read back as offline (`records::open_records`),
and later reads and writes within that store are served from the table in
memory. Entries the library cannot decode are kept as they were and written
back unchanged.

The PostgreSQL storage (SQLx, chosen by `DATABASE_URL`) is not provided:
SQLx is not a dependency of this crate and the schema migrations are not part
of it. `records::row_to_server` states how a database row reads as a server,
but nothing calls it.
