# Phronesis

A filesystem-based agentic memory served over MCP. Experiences are appended as JSONL
action files in a six-pillar folder tree, found again by embedding search over folder
descriptions and by grep over names and contents, and reorganised by moving, renaming
and linking. A projection runtime turns source notes into wisdom, decision, rollup and
report artifacts.

## Layout

- `src/` — the verified library (Verus). Each public function states its result in its
  contract; the laws of the memory are public proof functions beside the code they are
  about:
  - `text` — string operations with their specifications (trimming, splitting, search,
    ordering, number formatting);
  - `fs/jsonl`, `fs/action`, `fs/meta`, `fs/warnings`, `fs/skills` — reading JSONL logs
    back, last-line-wins metadata, warning queries, the appendable skills guide;
  - `fs/naming` — the `verb_object[_method].jsonl` convention;
  - `fs/sources`, `fs/projection` — the projection planner: ids, evidence graphs,
    bodies, jobs, listing, search and refresh, and where each file is stored;
  - `search/grep`, `search/vector_store`, `search/embedding` — grep over the files of a
    folder, the folder catalog of the embedding index, the deterministic test embedding;
  - `evolution` — what a move, a rename or a habit shortcut decides;
  - `listing` — stable newest-first ordering and paging;
  - `clock`, `paths` — the wall clock and `std::path` operations behind small contracts;
  - `server`, `config`, `bootstrap` — tool defaults and name parsing, configuration, the
    initial pillars and skills guide.
- `app/` — the program: file and network I/O, the embedding providers, the
  nearest-neighbour index, the serializable forms of the library's types, and the MCP
  server.
- `tests/` — tests of the library on concrete values.
