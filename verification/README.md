# novel_processor

The core of a desktop tool that imports a TXT novel, asks a language model to validate its
chapter titles and to proofread its chapters, and exports the result. The logic is written in
Verus and proved against its contracts.

## Layout

- `src/` — the verified library:
  - `text`, `numfmt`: character-level string operations and decimal formatting/parsing.
  - `domain`: the records the application stores and shows.
  - `task_control`: the flags that start, pause, resume and cancel a validation or review.
  - `rate_limit`: per-endpoint cool-downs after a provider reports too many requests.
  - `jobs`: how a job splits its chapters into requests, and the loop's decisions and messages.
  - `json`: parsing and the four `serde_json::Value` accessors, each behind a small trusted
    wrapper; reading a model's answer is verified on top of them.
  - `prompts`, `provider`, `model_support`: request prompts, per-provider request settings,
    and the checks of a model's answer (`reqwest` errors through trusted wrappers).
  - `validate`, `review`: reading the model's verdicts and corrected chapters.
  - `chapters`, `settings`, `update`: export text, stored settings, API-key handling, model
    diagnosis, and update checks.
- `tests/` — tests of the library on concrete values.
- `app/` — the desktop shell: Tauri commands, SQLite storage, HTTP requests and the job loops
  that drive the library.
