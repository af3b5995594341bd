# notecalc

The logic of a notepad calculator: a text whose lines are evaluated while they
are typed, with the results beside them.

- `src/` is the library, verified with Verus. It decides what a key, a click, a
  drag, a paste or the passing of time does, keeps what has to be drawn again,
  edits matrices, sums up the lines, lays out the screen, and draws the frame.
  It does not edit the text itself and does not evaluate expressions: it answers
  with requests to a text editor (`EditorCommand`) and with steps of an update
  (`UpdateAction`), and takes back what was done.
- `app/` runs these requests against a text editor and an evaluator.
- `tests/` runs the library with a small editor and a small evaluator.

Where to look in `src/`:

| Modules | Subject |
| --- | --- |
| `app`, `events`, `input`, `input_keys`, `mouse` | the calculator and what it answers to events |
| `update`, `update_laws` | the update of tokens, results and sums after an edit |
| `normalize`, `normalize_laws` | the text with references by place |
| `matrix_editing`, `matrix_input`, `matrix_laws` | the editing of a matrix in a line |
| `frame_render`, `frame_laws`, `line_render`, `line_laws`, `line_parts`, `result_render`, `matrix_*_render`, `selection_render` | the drawing of a frame |
| `clipboard`, `clipboard_laws`, `canvas` | selected lines copied with their results |
| `buckets`, `render_data`, `row_flags`, `objects`, `tokens`, `results`, `content`, `coords`, `editor` | the data |
| `external` | what is trusted of the outside crates and of std |
