# vault_node

The decision core of a vault node: one signer of a t-of-n federation that guards a
Bitcoin vault. A node validates every spend and every refresh on its own, withholds its
signatures until they may fire, and answers a duress pin exactly as it answers the
normal one. The core is verified with Verus.

## Layout

- `src/` is the verified library. It holds no lock, opens no file and makes no
  connection: what the surroundings answered comes in as plain values, and what the node
  owes them goes out as an ordered list of errands.
  - `config`, `seal`, `lifecycle`: from a configuration to a node that may start.
  - `coord`, `replay`: the entrance, and what the node remembers.
  - `ingress`, `spend`, `refresh`, `verdict`, `registry`, `pin`, `policy`, `prevouts`,
    `signatures`, `ladder`, `commitment`: the way of a request to its answer.
  - `steps`: the order of that way, as a dialogue: what to ask the surroundings next, and
    what the node makes of the reply. The daemon only answers the questions.
  - `fire`, `sweep`, `broadcast`, `carrier`: what happens once a request is accepted, and
    the dialogues with peers.
  - `silence`, `acceptance`, `resting`, `rungs`, `freshness`: laws over the whole.
  - `codec`, `crypto`, `descriptor`: the calls into `bitcoin` and `miniscript`, each with
    the contract it is trusted for.
- `app/` is the daemon around the library.
- `tests/` runs the library with the outside crates linked.
