# data_flow_rs

A download pipeline for EVM chains. Old blocks are first downloaded over HTTP, then the
pipeline switches to a websocket subscription for new blocks; full blocks are broadcast
on a channel to the tasks that process them.

- `src/` is the verified library:
  - `channel`: the tokio broadcast channel's handles, and the calls made on them;
  - `streaming`: the pipe from a source to an outbound, the broadcasting `DataSender`,
    the `DataReceiver` and the filter-map processing module, with the laws that a pipe
    forwards in order up to the first failure and that a receiver processes in order;
  - `blocks`: blocks and transactions as the pipeline keeps them;
  - `sync`: the range download, the switch from backfill to subscription (no block is
    lost), and the decisions of the live download and of the relay;
  - `split_read`: where each of two readers of one file stops.
- `app/` holds the programs: the asynchronous loops, the node connections and the
  printing. Its first argument picks the program.
- `tests/` runs the library with the real tokio channel.
