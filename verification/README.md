# minishell

An SSH machine manager for the terminal: a list of machines (address, NAT
address, port, credentials, device, remark) kept in SQLite, searched and
edited in a full-screen list, logged in to over SSH with reconnection,
browsed over SFTP in a two-panel file browser, imported from and exported to
spreadsheets, and served by a small SSH/SFTP server.

## Layout

- `src/` is the verified library: the program's logic, as functions with
  contracts proved by Verus: machine records and their login target, text
  layout and display widths, the connect and disconnect cards, keystroke
  buffering, the step after each read or write on the channel and the
  reconnect bookkeeping of a session,
  the machine list screen (table, search, add/edit form, delete dialog),
  the file browser as a state machine from keys and I/O results to the
  next state and the I/O to perform, listing order and permission strings,
  spreadsheet rows, the server's configuration, password check, paths and
  handles, and the SQL the store runs.
- `app/` is the program around it: the command line, the SQLite store, the
  spreadsheet reader and writer, the SSH client loop, SFTP transfers, the
  terminal drawing and the SSH server. It performs what the library decides;
  the loops whose end rests on an outside reader (draining the SSH channel,
  the session pump) run there, with each step decided by the library.
- `tests/` exercises the library on concrete values.

Laws that relate several operations are public proof functions named
`law_*` in the module they speak of.
