# titanirc

An IRC server whose protocol logic is written in Verus and proved against
its contracts.

- `src/` is the verified library: host masks and the wildcard map of bans
  (`host_mask`), channels and access levels (`channel`), connection
  negotiation and SASL PLAIN login (`connection`), what a client's commands
  turn into (`client`), the server's replies (`server`), operator commands
  such as `GLINE` (`proto`), the line protocol's command grammar and reply
  writer (`protocol`, `wire`, `session`), and the text helpers they share.
  Calls into outside crates (base64, argon2, chrono, humantime, irc-proto)
  stand behind small trusted wrappers whose contracts are stated in their
  doc comments.
- `app/` is the program around it: configuration, sockets, threads and the
  in-memory stores, handing plain values to the library and performing the
  actions it decides on.
- `tests/` runs the library on concrete inputs.
