# bloom

A small peer-to-peer gossip node for the `blo` protocol, with its logic
verified by Verus.

- `src/` is the verified library:
  - `hash`: Keccak-256 through `tiny-keccak`;
  - `hex`: hex decoding of locally submitted transactions through `rustc-hex`;
  - `hello`: the RLP hello packet through `rlp`;
  - `text`: decimal rendering;
  - `txpool`: the transaction pool, one transaction per Keccak-256 identifier;
  - `server`: the node state (peer table and pool), the decision taken on each
    packet and each local transaction, and the plan of a server's set-up;
  - `rpc`: subscriptions, the replies of the RPC interface, the bucket report;
  - `commands`: the `server` and `client` command lines and the requests the
    client sends.
- `app/` is the program around it: argument parsing, the devp2p network
  service, the JSON-RPC server and the TCP client.
- `tests/` runs the library on concrete values.
