# kanban

A small Kanban board whose logic is verified with Verus.

- `src/status.rs`: the workflow columns and how a card moves between them.
- `src/board.rs`: cards and boards, their abstract values, and the edits by
  card name (add, promote, demote, rename, update, remove).
- `src/edit.rs`: one type for an edit, shared by both front ends.
- `src/text.rs`, `src/cli.rs`: the terminal's command language (words,
  quoted arguments, commands).
- `src/request.rs`: the web clients' requests and how the board answers them.
- `src/laws.rs`: what holds of the edits taken together.
- `app/`: the program around the library: JSON storage through serde, the
  terminal loop and the warp websocket server.
