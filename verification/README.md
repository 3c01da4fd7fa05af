# tau-ext-provider-builtin

The built-in LLM provider extension, verified with Verus: it admits prompts, keeps their
credentials fresh, starts finite provider attempts, retries them, and reports how each one ended.

The library in `src/` is a set of state machines over plain values. The host observes the world
(frames of the harness, answers of secret storage, ended attempts, the clock), hands each
observation in, and performs the effects that come back, in order.

| Modules | Subject |
| --- | --- |
| `event_loop`, `runtime` | rounds of the main loop and the effects they ask for |
| `prompts`, `admission`, `exchange` | arrival, credential reads, shared token refreshes, cancellation |
| `worker`, `retry`, `scheduler`, `deadline` | failed attempts, retry policy, parked prompts, deadlines |
| `ownership` | every prompt has exactly one owner |
| `attempt`, `stream`, `report` | finite attempts, their progress, and their reports |
| `oauth`, `credentials`, `resolution`, `routes` | token rotation and provider routes |
| `quota`, `rolling`, `models`, `upkeep` | quota windows and model declarations |
| `supervise`, `prewarm`, `subscriptions` | supervised routes, prewarm workers, startup |
| `profiles`, `settings`, `setup`, `cli` | provider profiles, their settings, and setup commands |
| `names`, `pairs`, `text`, `clock`, `json` | ordered tables, text, time, and JSON documents |

`app/` is the ordinary Rust around it: threads, timers, terminal prompts, and the traits through
which an embedder supplies the harness connection, secret storage, and provider clients.
