# codewhale_tui

Two parts of a terminal agent as a verified library:

- the guard on fetches that the model asks for (`guard`, with `url`, `ip`, `ip_text`,
  `network_policy` and `tool`): which URLs may be fetched, which addresses never, and which
  address the connection is pinned to;
- the plugin commands (`plugin_commands`, with `plugins` and `commands`): list, show, enable
  and disable.

`guard_laws`, `ip_laws` and `plugin_laws` state and prove what holds of all inputs. `app/` is
ordinary Rust around the library: the DNS lookup, the audit file and the command table.
