# yt2action

Watches a private YouTube playlist, has a language model classify and
summarize each new video, and files the result as an Obsidian note and,
optionally, a Super Productivity task.

The library (`src/`) holds the rules of the pipeline, each function with a
Verus contract:

- `security` — escaping for YAML and XML, HTML stripping, and the
  sanitizing of model output before it enters a note, with laws such as
  "sanitized output never holds `obsidian://`" proved.
- `processor` — the prompts and request body sent to the model, how the
  completion reply is read, and how its content is read: JSON recovery, tag
  sanitizing, category, action and vault folder.
- `obsidian` — note file names, folders and the note text.
- `pipeline` — which playlists and videos a run takes, the folders offered
  to the model, pattern outputs, results and the final report.
- `youtube`, `sp_api`, `downloader`, `config`, `types` — request URLs,
  reply interpretation, download fallbacks, configuration defaults and the
  processed-video state.
- `text`, `json` — verified string helpers, and parsed JSON read one level
  at a time (nested values kept as JSON text and parsed when read).

`app/` is the command-line program around it: argument parsing, HTTP,
OAuth, files and external programs. `tests/` exercises the library.
