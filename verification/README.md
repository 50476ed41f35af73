# constellation_core

The verified core of the Constellation agent-to-agent SDK, written in Verus.

- `src/` — the library, every function with a contract proved by Verus:
  - `config` — agent configuration, its builder and its validation;
  - `message` — message, task and event types, @-mention parsing and
    mention formatting;
  - `utils` — username sanitising, room aliases, HTML escaping, device IDs,
    homeserver URL checks;
  - `task` — the registry of the tasks an agent created;
  - `ids` — Matrix user IDs, room aliases and room IDs read from text;
  - `agent` — the decisions of the agent: where an incoming message goes,
    how tasks are announced and finished, the message that mentions another
    agent, which names are shown, which homeserver login connects to, and
    what the sync loop does next;
  - `text`, `error` — string helpers and the error type.
- `app/` — the Matrix-facing agent (`matrix-sdk`, `tokio`), the serde forms
  of the protocol types and the full error type; it calls the library for
  every decision.
- `tests/` — tests of the library's behaviour.
