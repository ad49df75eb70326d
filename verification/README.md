# pet_theatre

The logic of an LLM-driven desktop pet, verified with Verus.

A natural-language prompt is turned by a language model into a JSON script of
timestamped actions; a timeline dispatches the actions at their times, an
animator plays the PNG frame sequence of each action, and a small state
machine tracks whether the pet is idle, waiting for the model, or playing a
script.

## Layout

- `src/` — the verified library
  - `state_machine.rs` — the pet's states and transition table
  - `scripting.rs` — the action whitelist, timeline events, engine errors
  - `timeline.rs` — stable sorting of scripts and millisecond dispatch
  - `animation.rs` — frame selection for actions and one-shot effects
  - `texture.rs` — decoded frames and the nearest-neighbour sprite blit
  - `stage.rs` — what the window loop decides on each message, step and
    pointer event
  - `ipc.rs` — the length-prefixed message format between CLI and daemon
  - `config.rs` — configuration records, config keys, frame file names
  - `llm.rs` — the mock model client and the shutdown request
  - `clock.rs` — durations
- `tests/` — tests of the library
- `app/` — the `ai-pet` program: CLI, window, renderer, named-pipe IPC,
  model clients and asset loading
