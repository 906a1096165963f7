# ykcode

The document model and editing logic of a drag-and-drop site builder, as a
verified library, with a small server program around it.

`src/` is the library. Verus proves each of its functions against its
contract, except a few small wrappers around calls into `uuid`, `chrono` and
the standard library, whose contracts are taken on trust:

- `document`: the site document (pages and a tree of nodes), inserting,
  removing and reordering nodes; `ids` and `style` hold identifiers and style
  values (lengths are IEEE-754 bit patterns).
- `export`: standalone HTML and CSS of a page; `walk` decides whether every
  walk from a page's nodes through their children ends, which the export and
  the layer list need; `css` decides and prints the CSS declarations of a node;
  `decimal` prints single-precision values with fixed decimals from their
  bit patterns.
- `history`, `editor_state`, `project_editor`: undo and redo.
- `store`: an in-memory store of serialized documents.
- `layers`, `palette`, `catalogue`, `canvas_view`, `status`, `autosave`,
  `text`, `shared`: the editor's lists, searches, labels and data types.

Laws that relate several operations are public proof functions named
`law_*`, next to the operations they are about.

`app/` is the program: the HTTP API, JSON serialization, persistent storage,
and the floating-point arithmetic and shortest-form number printing of the
canvas. `tests/` runs the library.
