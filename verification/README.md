# elfo

The core of an actor system and a dumper of its messages, written in Verus.

* `src/` is the library. It decides: how messages are routed, delivered and
  responded, when actors are started and restarted, what is traced, logged,
  dumped and measured, how dumps are stored, limited and laid out in files.
  Everything here is verified. Time, addresses of vacant places and results of
  sending are passed as arguments.
* `app/` is the runtime around it: clocks, task locals, groups, timers, signals,
  streams, files and serialization.
* `tests/` run the library as it is compiled.

## Layout of `src/`

| Module | What it is about |
|---|---|
| `addr`, `node`, `topology` | addresses, nodes, groups and connections |
| `message`, `messages`, `envelope` | messages with erased types, system messages |
| `request_table` | requests that wait for responses |
| `object`, `routers`, `supervisor`, `subscription` | delivery to actors, groups and remote nodes |
| `restarting` | when actors are restarted |
| `tracing`, `trace_id` | trace ids: layout, generation and validation |
| `permissions`, `scope`, `tls`, `telemetry`, `config` | what actors are allowed to produce |
| `source`, `signal`, `stream`, `time` | sources of messages |
| `start` | starting and terminating of a node |
| `stuck_detection`, `runtime`, `task`, `remote` | helpers of the runtime |
| `dumper` | storing of dumps, rules, templates of paths, reports |

Every public function has a contract. Properties that span several functions
are public proof functions at the end of their modules.

Outside crates are called through small functions marked
`#[verifier::external_body]`: `smallvec`, `slotmap`, `scc`, `regex` and
`serde_json`.
