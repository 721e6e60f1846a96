# policyd

The decision core of a sandbox policy daemon, verified with Verus.

Sandboxed processes ask whether they may reach a host, open a file, talk to a socket or a bus, or
run a command as root. Policy files, the decisions of users and the sessions that they were made
for give the answer; where they give none, a user is asked and the process waits.

- `src/` is the library. It holds every rule and every piece of state: requests and who may make
  them (`auth`, `handlers`, `client`, `gate`), contexts and policies (`context`, `merge`, `rules`,
  `evaluator`), requests that wait and how long (`network`, `filesystem`, `elevation`, `http`,
  `waiting`), decisions and what they leave behind (`decisions`, `decide`, `persist`), the trusted
  proxy (`flow`, `proxy`, `proxy_checks`), workspaces (`registry`, `attribution`, `workspaces`),
  the freezer (`freeze`) and the kernel's network grants (`snapshot`). Public functions say in
  their contracts what they return and change; what holds of several of them together is proved
  in the proof functions whose names begin with `law_`.
- `app/` is the daemon around it: sockets, files, processes and clocks. What it shares with its
  clients (the wire format, the matching of rules, the files' format) comes in through the trait
  `Shared`.
- `tests/` runs the library.

Times are nanoseconds of one clock, paths are text that is compared by components, and a caller
that waits is a number. A function that answers callers returns their numbers with the reply.
