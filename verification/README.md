# rust_nps

A Net Promoter Score service. The library under `src/` is verified with
Verus; `app/` is the Axum and MongoDB service around it.

- `segment`: the three customer segments and their names.
- `payloads`: the request types and their checks (segment names, scores
  0 to 10, dashboard periods of 1 to 730 days).
- `stats`: the score arithmetic (NPS, shares in tenths of a percent, the
  promoter, passive and detractor groups) and its laws.
- `clock`: the calls into chrono, with their claimed contracts.
- `trend`: the six-month window and the monthly trend figures.
- `db`, `error`, `handlers`: stored entries, service errors, and what each
  handler decides before and after it talks to the store.
- `text`: string comparison.
