# skit

The decision logic of the StreamKit server, verified with Verus: role
permissions and allowlists, marketplace URL policy, plugin and asset file
rules, sample pipelines, multipart routing of one-shot requests, pipeline
diffs, MCP tool checks and prompts, and the route tables of the media
gateways.

- `src/` — the library. Every function carries a contract that Verus proves;
  calls into `std` and outside crates (`glob`, `reqwest`'s URL parser,
  `multer`, `mime_guess`, `uuid`, `serde_json`, `serde-saphyr`) go through
  small trusted wrappers whose doc comments say what is assumed of them.
  Public `law_*` proof functions state properties that span operations.
- `tests/` — tests that run the library with the real outside crates.
- `app/` — the I/O around the library: DNS lookups and HTTP fetches for the
  marketplace, plugin directories and sample files on disk, gateway
  channels, and serde forms of configuration types.
