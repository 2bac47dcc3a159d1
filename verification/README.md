# credence

An unfussy web server for a directory of web assets, whose decisions are verified with Verus.

- `src/` is the verified library: URI paths and file names, redirection, hiding and basic
  authentication of paths, the splitting and resolution of page annotations, rendering
  decisions, catalogs of pages and their sorting, page variables, and the planning of servers
  and their hosts. Calls into outside crates (regex, markdown, compris, kutil, dateparser,
  duration-str, httpdate, chrono, http) stand behind small trusted wrappers whose contracts
  say what those crates do; the laws of the library are public proof functions.
- `tests/` runs the library on concrete values.
- `app/` is the program: arguments, the tokio runtime, the axum routes and middleware, file
  reading and template rendering with minijinja. It asks the library what to do.
