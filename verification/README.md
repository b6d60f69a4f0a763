# dynamo_llm

The core of a stateful responses service, verified with Verus.

- `src/responses` turns a stream of chat completion chunks into the events of
  the Responses API.
- `src/storage` holds responses by tenant and session, in memory and by the
  commands that a Redis server is sent; it also holds session locks, the
  settings of both, and the replay of recorded conversations.
- `src/discovery` knows the models that are served, the sets of workers behind
  each, and how prefill and decode workers meet.
- `src/http` reads the tenant and the session of a request.
- `src/routing` counts and describes what routing does, for traces.
- `src/metrics` says what is exported and in which buckets.
- `src/text`, `src/json`, `src/time`, `src/clock` and `src/ids` are shared by
  the rest.

Each function states what it returns or changes. The public proof functions
state what holds between functions: that tenants are kept apart, that what was
stored is found, that a fork leaves its source as it was, that pages join up to
the whole list, that a lock has one holder, that a stream announces every item
once and passes on every piece of text in order.

`app/` is the service around it: Redis, files, the environment, Axum,
Prometheus and logging. `tests/` runs the library.
