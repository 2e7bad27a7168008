# agend-daemon

The decisions of a daemon that runs a fleet of terminal agents, verified with
[Verus](https://github.com/verus-lang/verus): how it boots, serves, hands over to a
successor and shuts down; which wakes it delivers again; what its periodic handlers
report; which tasks a merged pull request closes.

- `src/` is the library. Every function states what it returns or changes, and Verus
  proves it. Functions named `law_*` state what holds of several of them together.
- `app/` performs what the library decides: files, processes, the network, threads.
  It drives the library's machines for booting, serving, starting and deleting agents
  and delivering wakes. What lies outside the daemon (inboxes, the task board, the
  fleet file, transports, the API) comes in through the trait `Host`.
- `tests/` runs the library on concrete values.

What is believed without proof is marked `external_body` or `assume_specification`,
with a comment that says what is claimed: the clock (`clock.rs`), regular
expressions (`patterns.rs`), dates (`dates.rs`), JSON (`json.rs`) and one function on
strings (`text.rs`).
