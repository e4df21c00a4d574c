# pg_search_scan

The planning and execution logic of a full text search index inside a Postgres server, with its
behaviour stated in contracts and proved with Verus.

- `src/` is the library. `projections` and `placeholders` look for score and snippet calls in target
  lists and put constants in their place; `scan` runs index scans; `numeric` makes rows of fast
  fields alone; `search` is what is searched for and found; `node`, `attname`, `item_pointer` and
  `catalog` hold what these speak of. `projection_laws`, `scan_laws` and `numeric_laws` state and
  prove what holds across functions.
- A scan alternates between decisions and work that only the server or the index can do. The
  decisions are functions of the library: each says in its result what is to be done next and which
  function to go on with.
- `tests/` runs the library.
- `app/` does the work: `drive` carries out the actions of a scan, `host` says what the extension
  has to provide for that, `postgres` reads and writes the server's structures.
