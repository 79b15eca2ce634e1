# vopono_nordvpn

The NordVPN part of an OpenVPN setup tool, with its contracts proved by Verus:

- which download source to use (`NORDVPN_ALT_CONFIG_URL`, GitHub repositories),
- which set of configuration files the user chose, and what a client without a person
  answers,
- which entries of NordVPN's configuration archive are installed, and under which file
  names (server names are read with a verified matcher of the pattern
  `([a-z]+)(?:-(onion|[a-z]+))?([0-9]+)`),
- where credentials come from.

`src/` is the verified library. `app/` holds the I/O around it: environment variables,
the download, the filesystem, logging and `anyhow` errors. `tests/` runs the library,
including a comparison of the server-name matcher with the `regex` crate.
