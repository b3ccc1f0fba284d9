# nodeget

The decision logic of the NodeGet monitoring server, written in Verus with
its behaviour stated as contracts and proved.

- `src/` is the verified library:
  - `monitoring`: query fields, their columns and JSON keys, and the plan
    (row filters, sort order, limit) that query conditions stand for;
  - `task`, `task_query`: task kinds, their names and permission fields, and
    the plan of task queries and what its filters mean for a task row;
  - `token`: splitting tokens and logins, telling them apart, the salted
    secret hash, and token deletion;
  - `permission`, `js_auth`: tokens, limits, scopes and permissions, and what
    each request needs;
  - `crontab`, `crontab_cache`: scheduled jobs, the checks made on them and
    the in-memory job cache;
  - `admission`: the checks that the writing RPC handlers make before the
    permission check, in their order, and the answer to that check;
  - `rpc_timing`, `response`, `text`: log levels, log lines and the JSON
    texts of answers, errors included;
  - `external`: the outside types and calls the library relies on, with the
    contracts that are trusted.
- `tests/` runs the library on concrete values.
- `app/` holds what cannot be verified: serde forms, the handlers' calls
  into the database, the RPC timing middleware, logging, the TCP probe and
  the floating-point averaging.
