# bucket_usage

How much data the buckets of an object store hold: counted from listings, added up from the
snapshots of single disks, kept in memory between scans, and shown to whoever asks.

The library under `src/` is verified with Verus: what each function does stands in its `requires`
and `ensures`, and what holds over several of them in the functions named `law_..`.

| module | about |
| --- | --- |
| `text`, `name_map`, `time` | names and their order, maps by name, points in time |
| `usage` | usage of buckets and of the store, totals |
| `listing`, `accumulator`, `listing_laws` | counting a bucket from a version listing, page by page |
| `live`, `live_refresh`, `live_response`, `live_laws` | recounts: epochs, sharing, publishing, showing |
| `memory`, `memory_sync`, `memory_update`, `memory_laws` | usage in memory: changes, snapshots, overlay |
| `backend` | storing and loading snapshots, removing buckets |
| `snapshot`, `snapshot_laws` | snapshots of disks, and what they come to together |
| `compression` | compression totals |
| `convert` | usage from a scanner's tree |

`app/` is ordinary asynchronous Rust around it: the locks, the cache of recounts, the encoding of
what is stored, and the calls into the store, which it knows through the trait `Platform`.

Two readings of clocks are taken on trust (`time::system_clock_nanos` and
`compression::clock_reading`). Nothing is claimed of what they return: the functions that use them
hold for every reading.
