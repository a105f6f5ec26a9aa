# harbor-router

A router in front of a Harbor registry. Clients ask it for images under one
project; it finds the proxy-cache project that holds the image, remembers it, and
passes on what the project answers.

`src/` is the verified core, written for Verus. It holds the rules: how paths are
taken apart, which project is asked, what is cached and evicted, what is answered,
logged and counted. Every function states what it does in its contract, and the
functions named `law_...` state what holds across functions.

| Module | What it is about |
|---|---|
| `text` | operations on text and their models |
| `duration` | durations in the notation of Go |
| `secret` | credentials |
| `config` | settings from environment variables and secret files |
| `cache` | the in-memory cache and the cache shared over Redis Sentinel |
| `counts` | concurrent maps from text to integers |
| `headers` | HTTP header maps and status codes |
| `client` | settings of the HTTP clients |
| `discovery` | finding the proxy-cache projects |
| `breaker` | leaving out projects that keep failing |
| `rate` | limiting how often one address may ask |
| `flights` | sharing one fan-out among requests for the same |
| `resolver` | finding the project that holds an image |
| `proxy` | answering registry requests |
| `metrics` | image popularity and the text of the metrics |

`app/` is the program around it: the HTTP servers and clients, the connections to
Redis, the environment, the files, and the counters for Prometheus. `tests/` runs
the core with the outside crates linked.

Where the core needs an outside crate, it calls it through a small function whose
contract is trusted. The comment above such a function names what it calls and says
what is claimed of it.
