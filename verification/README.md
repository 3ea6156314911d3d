# feather_server

The control plane of Feather, a Redis-backed job queue with at-least-once
delivery: jobs are enqueued, leased to one worker at a time, acked or nacked,
and put back on their queue when a lease runs out.

The library under `src/` is written in Verus. It holds the job lifecycle, the
storage key layout, the text encoding of a job in Redis, the request rules of
the API, and every write and script the store sends, each with a contract
that Verus proves. `src/model.rs` models what those writes and scripts do to
the data in Redis and proves the delivery guarantees on top of them.

| module      | what it holds                                                        |
|-------------|----------------------------------------------------------------------|
| `text`      | character-level string helpers, splitting and joining                |
| `decimal`   | integer ⇄ decimal text, as `to_string` and `str::parse` do it         |
| `keys`      | the `fe:{namespace}:…` key layout and namespace isolation            |
| `clock`     | wall-clock instants in milliseconds, through chrono                  |
| `job`       | jobs, their states and the lifecycle moves                           |
| `codec`     | a job as the fields of its Redis hash, and back (base64 payload)     |
| `store`     | the writes and script calls of each store operation, listings, stats |
| `dequeue`   | the decisions of a dequeue: queues in order, wait, claim popped ids  |
| `config`    | settings, their defaults and environment overrides                   |
| `service`   | queue and task name rules, payload limit, new jobs, dequeue defaults |
| `worker`    | worker registrations and heartbeats                                  |
| `api`       | gRPC and admin API defaults, status mapping, dequeue polling         |
| `model`     | Redis as a mathematical model, and the delivery laws                 |

`app/` is the server around the library: configuration loading, the Redis
connection that sends the planned writes and scripts, the gRPC services and
the admin HTTP API. `tests/` exercises the library on concrete values.

What is proved and what is trusted: the library proves which commands and
script calls each operation plans, and `model.rs` proves the delivery
guarantees of a Redis that carries them out as the model says (the model of
each script follows its Lua text). Nothing proves that `app/` sends the
plans unchanged, that Redis behaves as modelled, or that the operations of
concurrent requests interleave only between whole transactions and scripts;
those are assumptions of the guarantees.
