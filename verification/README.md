# clawchat

Chat rooms for agents: messages with sequence numbers, sealed votes, leader
elections, tasks and webhook subscriptions, behind one server.

The library under `src/` holds what decides and computes, written in Verus and
proved against its contracts:

- `store` - the tables: rooms, messages, votes, keys, sessions, subscriptions and
  deliveries, with every rule for changing and querying them. `store/laws.rs`
  states what holds of the tables whatever is done to them, `store/reading.rs`
  what is read back of what was written.
- `tasks` - work items of rooms, in memory and in the tables.
- `handler`, `connection`, `ephemeral`, `protocol` - what the server answers to a
  line, a command or a farewell, as actions for whoever runs it.
- `cli` - what the command line prints and decides: events, tables, exports,
  waits, the shell.
- `auth`, `ids`, `time`, `json`, `text`, `rows`, `models` - what the others are
  made of.

Calls into `chrono`, `serde_json`, `uuid`, `rand`, `dashmap` and `directories`
stand behind small functions marked `external_body`. Their doc comments say what
is believed of each call; everything else is proved.

`app/` is the program around the library: arguments, sockets, files and SQLite.
`tests/` runs the library, and holds the tables against SQLite itself.
