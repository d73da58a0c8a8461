# mara_fed

A federation node that moves funds between Bitcoin and a side chain. Its
members watch both chains for deposits and withdrawals, take turns as the
decision maker, and sign multisig transactions together.

## Layout

- `src/` is the library, verified with Verus. Each public function states in
  its contract what it returns, and the laws of the node stand there as
  proof functions:
  - `member`: the member list, who the decision maker is, and how the turn
    rotates with the block height;
  - `peer`: the announcement of the decision maker to the swarm and what a
    swarm event leads to;
  - `peg`: the spender tree, which paths online nodes can sign, and the
    signing round as a state machine (from state and event to next state and
    action);
  - `scanner`: what a transaction seen on a chain changes, which outputs are
    recorded, and the paging of the deposit and withdraw listings;
  - `transaction`: history filters and pages, node RPC requests and the
    query parameters of the endpoints;
  - `wallet`: block heights, days and account numbers;
  - `scheduler`: the periodic tick, with peg rounds on every sixth tick;
  - `cli`: requests to and replies from the wallet command-line tool;
  - `text`: decimal, hex, query-string and number helpers, with the calls
    into `hex`, `serde_json`, `qstring` and std's integer parsing behind small
    trusted wrappers.
- `tests/` runs the library on concrete values.
- `app/` is the node itself: configuration, the SQLite store, HTTP endpoints,
  node RPC over curl, ZeroMQ listeners and the peer swarm. It hands plain
  values to the library and acts on what comes back.
