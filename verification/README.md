# Quarry

Quarry is a desktop editor for large delimited files. It shows a file of any size through a small
buffer of rows, finds, filters and edits cells without rewriting the file, and makes larger changes
(splitting, combining, moving and deleting columns, sorting and deleting rows, replacing text
everywhere) on working copies that can be undone.

* `src/` is the editor without its surroundings: the state of the document and of the window, and
  the rules for every request and every piece of news. Its contracts are proved with Verus.
* `app/` is the window and the files: it draws the state, hands requests to the library, performs
  what the library asks for, and hands back what came of it.
* `tests/` runs the library on concrete values.

A `Document` never reads a file. A request returns a step, such as the rows to read, the search to
start or the change to make, and the effects that the surroundings owe it are listed in
`Document::effects`. What the surroundings found out comes back through the methods that end in
`_started`, `_progressed` and `_finished`.
