# gitlab-trackrd

A varlink daemon for GitLab time tracking. It caches assigned issues, merge
requests, boards, the timelog history and a search corpus, queues writes through
outages, and reconnects on its own.

The library under `src/` holds every rule of the daemon as executable Rust with
Verus contracts. Nothing in it waits, reads the clock or talks to GitLab: a method
that needs GitLab is split at the call, one step that decides what to ask for and
one that takes what came back. The caches live in memory and know what of them is
unsaved; no step forgets that, and it is marked saved once the disk has it.
`app/` is the shell around it: sockets, the
database file, the keychain, the configuration file and the HTTP client.

| Module | What it holds |
| --- | --- |
| `service` | varlink dispatch: requests, their arguments, how each call goes on |
| `handlers` | the daemon's state and its methods: writes, listings, search, refresh, sync |
| `queue` | the retry queue, its worker and the dead letters |
| `reconnect` | losing and re-establishing the session, startup |
| `search` | the search corpus, tracked projects, query matching |
| `cache`, `boards`, `history`, `refresh_meta`, `db` | the caches and the stores under them |
| `gitlab` | requests to GitLab and what is read out of its replies |
| `config`, `reload` | configuration, its normalisation and hot reload |
| `server` | socket activation and the idle timer |
| `secrets` | the stored credentials |
| `daemon` | the small variant: one issue list with an age limit |
| `api`, `error`, `json`, `order`, `text`, `time` | shared types and helpers |

Proof functions named `law_…` state what holds across several functions: that no
accepted write is lost, that an incremental sync removes nothing, that a stale
client never ends a newer session, that what was saved is read back.
