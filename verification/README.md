# purge_warden

The decision core of a filtering DNS daemon, verified with Verus.

* `src/` is the library. Configuration rules (`validator`, `domain`, `net`,
  `cycle`), the local records (`local`, `local_profile`, `table`, `answer`),
  the response cache (`cache`), client subnets (`client_subnet`), the DNSSEC
  policy (`dnssec_validator`), the query path (`handler`, `stage`, `dispatch`,
  `response`, `outcome`, `security`, `filter`, `cidr`), and the lock of the
  configuration tree (`write_lock`, `writer`, `tree_path`).
* `tests/` runs the library on concrete queries, records and paths.
* `app/` is the daemon's side: hickory's request handler, the file locks and
  the tasks that ask the world what the library needs to know.

The library never reads a clock, a socket or a file. Each step of the query
path takes what the world said and returns either the reply that ends the
query or what the next step needs. `stage::advance` is one such step, and the
daemon takes every query on by it; `dispatch` proves what the steps add up to,
from end to end, and `dispatch::handle_inner` runs them on a world that is known
beforehand. Between two steps of the daemon other queries may change the cache;
what the steps add up to is stated of a query that nothing comes between.
