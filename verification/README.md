# keysight

The verified domain core of KeySight, a desktop knowledge vault on top of an
Obsidian folder: cards, notes, tasks and questions stored as markdown files with
YAML frontmatter, indexed in SQLite, drawn on whiteboards.

`src/` is written in Verus. Each public function states its result in its
`ensures` clause over spec functions on character sequences, and the laws the
library keeps are proof functions named `law_*`:

- `text` — the character-level model of strings (trimming, lines, joining,
  searching, replacing) with executable versions.
- `parser`, `card`, `sync` — frontmatter framing, titles and bodies, legacy
  `<details>` blocks, entity parsing from already-read frontmatter fields,
  frontmatter edits, card title/body rewrites, id insertion.
- `naming`, `project`, `plans` — titles, file names, vault paths, project
  names, task/question markdown, and the file writes of creates and updates.
- `models`, `errors`, `graph`, `search`, `legacy`, `todo` — data types, edge
  rules, link grouping and counts, search queries and ranks, legacy import,
  to-do rules.
- `suppression`, `watch` — recognising the application's own file writes and
  routing file-system events.
- `config`, `endpoint`, `perf`, `auth`, `vault` — settings, the endpoint file
  guard, timing thresholds, tokens, vault paths and an in-memory vault.

`app/` is ordinary Rust around it: reading and writing files, YAML/JSON/TOML
(de)serialisation, the SQLite to-do store, the watcher's side effects and
timing output.
