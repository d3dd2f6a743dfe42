# Symphony

A long-lived scheduler that reads issues from Linear, gives each of them a
workspace of its own and drives coding-agent sessions inside those workspaces.

The rules of the service are a verified Verus library under `src/`; the program
around it, which talks to the disk, the network and the agent, is under `app/`.

- `workflow`, `config`, `env_loader`: the workflow file, the settings that it
  holds, and where environment files are looked for.
- `tracker`: requests to the tracker, and what its replies mean.
- `workspace`, `paths`: where the workspace of an issue lies, and the steps that
  make and remove it.
- `template`, `prompt`, `agent`, `worker`: which templates are plain, the prompt,
  the protocol of a session, and the run of an issue from its workspace to its
  last turn.
- `ranking`, `orchestrator`: in which order issues are taken up, and what becomes
  of them. Every operation of the scheduler returns the effects that the program
  then performs.
- `http`: the status pages.
- `guarantees`: what holds of the scheduler whatever happens.
- `json`, `yaml`, `text`, `keyed`, `model`: the values that all of this works on.

Calls into other crates stand behind small functions that are marked as trusted;
the comment above each says what is taken for granted of the call.
