# cloche

Cloche turns a window capture into a presentation card: a padded, rounded
screenshot on a procedural backdrop, ready to paste into a chat with a coding
agent.

The crate has two parts.

- `src/` is the library, written in Verus. It holds the logic of the tool over
  plain values, each function with a contract that Verus proves: the backdrop
  catalogs and the seeded palette picker (`polish`, `space`, `sky`, `terrain`,
  `pattern`, `rendezvous`), preference resolution (`config`), the gallery HTML
  export (`html`), request parsing and routing for the local studio (`studio`),
  the JSON model and the MCP registration edits (`json`, `setup`), capture
  discovery and listing order (`captures`), and the
  planners behind the command line (`cli`, `clipboard`, `text`, `reel`,
  `codex`). JSON text is parsed in `json` behind one serde_json wrapper.
  Laws that span several functions stand as public proof functions beside
  them.
- `app/` is the program around it: argument parsing, file and network I/O,
  the Remotion reel render,
  pixel rendering with floating point, and the serde copies of the library's
  types.

`tests/` runs the library on concrete values.
