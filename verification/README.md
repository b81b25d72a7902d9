# Netweft

Deterministic network planning for portable infrastructure: Netweft validates
stable infrastructure intent (hosts, networks, services, DNS, a location's
segments and addresses), resolves provider-neutral plans from it, and hands
those plans to adapters that render tool-specific artifacts.

The library in `src/` is written in Verus; every function carries a contract
that Verus proves:

- `model` — the configuration model, with names and addresses as plain values;
- `validate` — the validation rules, accepting exactly the valid bundles;
- `plan` — the resolvers (DNS, recursion access, reverse proxy, environment,
  host and guest networking, Docker, SSH, mounts, NAS permissions, Proxmox
  storage and SDN, Cloudflare tunnels);
- `adapter`, `adapters` — adapter identities, the registry, each adapter's
  checks and the manifest of rendered files;
- `observe`, `resolve` — observations and the resolution boundary adapters
  read plans from;
- `paths`, `config`, `cli` — directories, configuration file locations and the
  command line as plain values;
- `net`, `text`, `table`, `ordered` — address arithmetic, text and sorted
  tables the rest is built on.

`app/` is the `netweft` program around the library: argument parsing, reading
the TOML files, printing plans and running `nginx -t`.
