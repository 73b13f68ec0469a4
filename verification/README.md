# nix-capsule

Run a Nix devshell in a long-lived container, transparently: `ncap <command>`
on the host executes inside the container, with stdio, signals, exit code,
working directory and chosen variables passed through a Unix socket.

The crate under `src/` holds the rules of all of this, verified with Verus:

| Module | What it decides |
|--------|-----------------|
| `protocol`, `codec`, `json` | frames, messages and their wire form |
| `client` | the request's environment, and a session against the server |
| `connection`, `server` | one connection, a server's run, its log |
| `passthrough` | what the two ends keep when they are put together |
| `ctl` | configuration, cache freshness, launch options, and the course of every `ncap-ctl` command |
| `devshell`, `direnv`, `path` | the devshell cache below the project root, and direnv's word on it |
| `environment`, `pathname`, `text`, `number`, `order` | variables, paths and texts as values |

Commands, sessions and connections are state machines: `step` takes what came
of the last action and says what to do next. `app/` performs the actions:
sockets, processes, files and the clock.

What is taken on trust stands in `codec` (byte buffers), `json` (JSON strings,
arrays of strings and objects of numbers), `ctl::digest` (xxHash64),
`ctl::paths` (base directories) and `text` (appending a character), each with
the claim it makes.
