# mining_pool

The decisions of a Stratum V2 mining pool, verified with Verus.

- `src/` is the library. It says which id a downstream gets, what it is sent and in which frames,
  and what the tasks of the pool do after each thing that happens. It keeps no connection and
  waits for nothing: each task is a state machine that is told of events and answers with actions.
- `app/` carries the actions out: it holds the connections and channels, and runs the tasks.
- `tests/` runs the library together with the crates that it calls.

The modules of the library:

| module | what it holds |
| --- | --- |
| `message`, `template` | the messages of the mining protocol and of the template provider |
| `frame` | frames around encoded messages |
| `coinbase` | extended jobs without segwit data |
| `factory` | ids and jobs, from the channel factory of `roles_logic_sv2` |
| `downstream`, `delivery` | what a downstream is sent, in which order, up to the first failure |
| `receiver` | the task that receives what a downstream sends |
| `pool` | the downstreams of the pool, and how it starts |
| `accept`, `prev_hash`, `new_template` | the tasks of the pool |
| `run` | both tasks of templates and prev hashes, side by side |
| `error` | errors, and how a task goes on after one |

`Cargo.toml` names `noise_sv2` only to hold it to the version that `codec_sv2` builds with.
