# crazy_portal

A captive-portal login client for many simulated users. For every user it
creates a macvlan interface with its own MAC and IP address, binds two TCP
connections to that interface, follows the portal's redirect, and logs the
user in (and later out) with the token the portal hands back.

The library in `src/` is written in Verus and holds the logic with its
contracts:

- `http_request`, `http_response`: the HTTP messages the client writes and
  reads, with the head/status line round trips proved.
- `ip`, `ip_parse`: prefix lengths, address ranges for the users, IPv6
  increments, the text of addresses and their parsing.
- `read_config` (TOML settings) and `line_config` (`key = value` settings).
- `config_iface`: the `ip`/`route` commands that set up and remove the
  interfaces, and how a failed command is taken.
- `user_config`: one account per user.
- `connect`: when to give up connecting.
- `portal`: the login session as a state machine, from event to action.
- `text`, `numtext`: text and numeral helpers; `boundary`: the calls into
  the standard library and outside crates, with the contracts taken on trust.

`app/main.rs` is the program: it reads the settings file, runs the commands,
opens the sockets and drives each session.
