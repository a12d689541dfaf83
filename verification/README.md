# mufw

A ufw-like firewall front end for macOS `pf`, written in Verus.

- `src/` is the verified library: the rule model (`rule`), its text forms
  (`text`, `net`), the rule store (`store`), the decisions of the command line
  (`cli`), the hook that `/etc/pf.conf` needs (`anchor`) and the errors
  (`error`). The laws of the library are the public `law_*` proof functions.
- `app/` is the `mufw` command: argument parsing, the rules file (TOML),
  `pfctl`, and the printed listings.
- `tests/` runs the library on concrete values.
