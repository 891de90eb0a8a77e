# persona-mind

The mind of Persona as a verified library: role claims over paths, the activity
that roles report, a memory and work graph of items, a typed graph of thoughts and
relations, and the actor planes that every request passes through, each with the
trace it leaves. The functions in `src/` carry contracts that Verus proves, except
three small wrappers around std's clock (`tables.rs`), which are trusted and claim
nothing of the time they read.

## Layout

- `src/` — the library, in Verus.
  - `claim.rs`, `path.rs`: claim scopes, path normal form and containment, the
    claim ledger.
  - `activity.rs`: the activity ledger.
  - `memory.rs`: the memory/work graph reducer and its views.
  - `graph.rs`: thoughts, relations, their filters and subscriptions.
  - `actors/`: the actor topology (`manifest`), traces (`trace`), the store
    kernel (`store`) and `MindCore` (`pipeline`), which serves one request along
    the actor path.
  - `contract.rs`: the request and reply records; `text.rs`: their text forms.
  - `command.rs`, `transport.rs`: the command line and the frame limits.
- `tests/`: tests of the library.
- `app/`: the `persona-mind` program: the daemon on a Unix socket, the client, and
  the conversion between the library's records and the signal wire records.

The store keeps its records in memory only: nothing is written to disk, and the
program starts every run with an empty store. `MindCore::restore` builds a mind
from a kernel's records held in memory; nothing saves or loads them yet.
