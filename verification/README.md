# rusthydrus

The core of a tag and file database, verified with Verus.

`src/` is the library. Its functions carry contracts that Verus proves,
except the small trusted functions described below:

- `inmemdbnew`: the in-memory database (tags, namespaces, files, file–tag
  relationships, parent relations between tags, settings and the job table),
  with an abstract view (`MemDbView`) and a well-formedness invariant;
  `memdb_laws` states what its operations promise of one another.
- `newinmemdb`: the earlier, smaller in-memory database.
- `jobs`: the queue of scraper jobs, kept per scraper, with the cache of
  jobs already seen; `deepeq` compares scrapers and jobs field by field.
- `dbserve`, `dbsearch`: the answers the in-memory database gives to the
  requests that plugins send to the server, file searches among them.
- `pluginout`: applying what a plugin hands back (files, tags, settings,
  jobs, relationships) to the database.
- `migrate`: the decisions and row rewrites of upgrading a stored database
  between versions.
- `pluginreg`: what loading plugins records (sites, callbacks, tag rules).
- `tagrules`: the tag callbacks plugins register, and which plugins a tag is
  handed to.
- `worker`, `login`, `fileplan`: a worker's decisions for a job (what it
  scrapes, whether it stays, what a scraper's answer leads to), the API
  logins it adds, and whether a file from a URL is skipped, already stored or
  downloaded.
- `download`: digests of downloaded bytes and the retry decisions of a
  download.
- `file`, `helpers`: sidecar files and storage folders.
- `time`, `time_func`, `timeconv`, `textparse`: repeat intervals such as
  `1d12h`, and the character handling they need.
- `intcoms`: the requests a plugin sends to the database server.
- `cli`, `cli_structs`: turning command-line values into job parts.
- `cantor`: Cantor pairing and unpairing, the ids of relations.
- `fnvmaps`: the FNV-hashed maps and sets the database stores its sets in.

Calls into other crates (`fnv`, `md5`, `sha1`, `sha2`, `regex`) and into a
few parts of `std` go through small functions marked
`#[verifier::external_body]`. Their contracts are trusted, not proved, and
some of them promise nothing of their result: the two `time_secs` read the
clock, so nothing is stated of the value they return.

`app/` holds what talks to the outside world: the socket client that sends
the library's requests to the server and the server loop that answers them
with `dbserve` (with serde copies of the request types), logging, the
operating-system check, the file reads (including the check for which
sidecar files exist on disk), and the loading of stored jobs.

`tests/` exercises the library on concrete values.
