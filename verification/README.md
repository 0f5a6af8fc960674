# reconnaissance

A lightweight Ethereum node that joins the peer-to-peer network, answers its
peers' requests for chain data from a JSON-RPC provider, and lets
transactions into its pool on the sender's nonce alone.

- `src/` is the verified library (Verus):
  - `block_client`: the provider rotation (`Cycler`), the node's model of
    provider blocks, headers and 256-bit words, and `BlockClient`, which
    decides what each provider or network answer becomes.
  - `tx`: transaction pricing (`TxPoolTx`), the pool's ordering
    (`BasicOrdering`) and the nonce check (`NonValidator`).
  - `reconnaissance`: enode URL splitting, the node's settings, and the
    decisions of one round of the node's polling (`PollRound`).
- `app/` runs the node: network, pool, RPC calls and the tokio runtime, with
  every decision taken by the library.
- `tests/` exercises the library on concrete values.
