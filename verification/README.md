# bender

A folder-scoped orchestrator for software jobs. A request becomes a job; the job is clarified, approved,
worked on by a coding tool, checked by the project's own commands, reviewed where the project asks for it,
and complete only when every required gate and every acceptance criterion is backed by evidence.

- `src/` is the verified library: the state of jobs and chats, the run of a job step by step, the rules on
  commands, paths and patches, the settings, and what is read out of the output of tools and models.
- `app/` is the program around it: the command line, the web interface, the Nostr listener, processes,
  files and requests.
- `tests/` runs the library.

The library takes what the program reads (file-system facts, outputs, the time) as plain values, and says in
its contracts what it decides and answers for each of them. A run is driven by `orchestrator::Orchestrator`:
each of its steps takes what came of the last action and gives the next one. `run_laws` states what holds of
every run.

Models of Anthropic are not built in. `.bender/anthropic-models.toml` names them: `prefix` is how their ids
start, and `models` lists those that are offered.
