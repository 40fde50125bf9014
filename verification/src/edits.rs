//! Edits of headers and cells: what is typed, what is kept, and what is thrown away.

use crate::document::{no_rows, source_header, with_titles, Document, DocumentView, EditsView, GridView, SearchView, SelectionView};
use crate::model::{self, CellEdit, CellEditView, Effect, FileId, HeaderEdit, HeaderEditView, WorkingCopyView};
use crate::rows::GridSelection;
use crate::text;
use vstd::prelude::*;
use vstd::string::*;
use vstd::utf8::*;

verus! {

/// The document without a state to redo. A working copy that only redo would have gone to is
/// removed.
pub open spec fn without_redo(document: DocumentView) -> DocumentView {
    match document.working_copy {
        Some(copies) if copies.redo is Some => {
            let file = copies.redo->0.file;
            DocumentView {
                working_copy: Some(WorkingCopyView { redo: None, ..copies }),
                effects: if file != document.source.file && file is Generation {
                    document.effects.push(Effect::RemoveFile(file))
                } else {
                    document.effects
                },
                ..document
            }
        },
        _ => document,
    }
}

/// A header can be renamed: no save, export, search or structural change runs, and the file
/// has a name for the column that is text.
pub open spec fn header_editable(document: DocumentView, column: usize) -> bool {
    &&& !document.save.running
    &&& !document.export.running
    &&& !document.search.running
    &&& document.structural.job is None
    &&& source_header(document.source, column) is Some
}

/// The new name to keep for a header that is to be called `name`: none where that is its name
/// in the file.
pub open spec fn kept_name(document: DocumentView, column: usize, name: Seq<char>) -> Option<Seq<char>> {
    if source_header(document.source, column) == Some(name) {
        None
    } else {
        Some(name)
    }
}

/// What a map holds for a key, where it holds anything.
pub open spec fn found<K, V>(map: Map<K, V>, key: K) -> Option<V> {
    if map.dom().contains(key) {
        Some(map[key])
    } else {
        None
    }
}

/// The map with the value put in for the key, or with the key taken out where there is none.
pub open spec fn updated<K, V>(map: Map<K, V>, key: K, value: Option<V>) -> Map<K, V> {
    match value {
        Some(value) => map.insert(key, value),
        None => map.remove(key),
    }
}

/// The document with a header called `name`.
pub open spec fn renamed(document: DocumentView, column: usize, name: Seq<char>) -> DocumentView {
    let next = kept_name(document, column, name);
    if found(document.edits.renames, column) == next {
        document
    } else {
        let cleared = without_redo(document);
        with_titles(
            DocumentView {
                edits: EditsView { renames: updated(cleared.edits.renames, column, next), ..cleared.edits },
                ..cleared
            },
        )
    }
}

/// The document with the header that is being edited kept under the name that was typed.
pub open spec fn with_header_kept(document: DocumentView) -> DocumentView {
    match document.edits.header_edit {
        Some(edit) if !document.save.running => {
            let closed = DocumentView {
                edits: EditsView { header_edit: None, ..document.edits },
                ..document
            };
            if header_editable(closed, edit.column) {
                renamed(closed, edit.column, edit.draft)
            } else {
                closed
            }
        },
        _ => document,
    }
}

/// No search, and no matches of one.
pub open spec fn without_matches(search: SearchView) -> SearchView {
    SearchView {
        query: Seq::empty(),
        last_match: None,
        history: Seq::empty(),
        history_index: None,
        status: None,
        ..search
    }
}

/// The bytes to keep for a cell: none where they are those of the file.
pub open spec fn kept_bytes(edit: CellEditView) -> Option<Seq<u8>> {
    if encode_utf8(edit.draft) == edit.source {
        None
    } else {
        Some(encode_utf8(edit.draft))
    }
}

/// The document with the cell that is being edited kept as it was typed.
pub open spec fn with_cell_kept(document: DocumentView) -> DocumentView {
    match document.edits.cell_edit {
        Some(edit) if !document.save.running => {
            let closed = DocumentView { edits: EditsView { cell_edit: None, ..document.edits }, ..document };
            let key = (edit.row, edit.column);
            let next = kept_bytes(edit);
            if found(document.edits.cells, key) == next {
                closed
            } else {
                let cleared = without_redo(closed);
                DocumentView {
                    edits: EditsView { cells: updated(cleared.edits.cells, key, next), ..cleared.edits },
                    search: without_matches(cleared.search),
                    selection: SelectionView { reveal_cell: None, ..cleared.selection },
                    ..cleared
                }
            }
        },
        _ => document,
    }
}

/// The document with what is being typed kept. Nothing changes while a save runs.
#[verifier::opaque]
pub open spec fn committed(document: DocumentView) -> DocumentView {
    with_cell_kept(with_header_kept(document))
}

/// What a commit leaves alone.
pub open spec fn commit_frame(before: DocumentView, after: DocumentView) -> bool {
    &&& after.source == before.source
    &&& after.has_original == before.has_original
    &&& after.index == before.index
    &&& after.filter == before.filter
    &&& after.export == before.export
    &&& after.save == before.save
    &&& after.structural == before.structural
    &&& after.source_changed == before.source_changed
    &&& after.search.running == before.search.running
    &&& after.grid == (GridView { headers: after.grid.headers, ..before.grid })
    &&& after.selection == (SelectionView { reveal_cell: after.selection.reveal_cell, ..before.selection })
}

/// A commit changes edits, titles, the search and what undo and redo go to, and nothing else.
pub proof fn lemma_commit_frame(document: DocumentView)
    ensures
        commit_frame(document, committed(document)),
{
    reveal(committed);
}

/// Some cell has bytes that the file does not hold.
pub open spec fn cells_edited(document: DocumentView) -> bool {
    ||| document.edits.cells != Map::<(u64, usize), Seq<u8>>::empty()
    ||| document.edits.cell_edit matches Some(edit) && encode_utf8(edit.draft) != edit.source
}

/// Some header has a name that the file does not hold.
pub open spec fn headers_edited(document: DocumentView) -> bool {
    match document.edits.header_edit {
        None => document.edits.renames != Map::<usize, Seq<char>>::empty(),
        Some(edit) => {
            ||| exists|column: usize| #[trigger] document.edits.renames.dom().contains(column) && column != edit.column
            ||| source_header(document.source, edit.column) != Some(edit.draft)
        },
    }
}

/// The document is shown from a working copy.
pub open spec fn restructured(document: DocumentView) -> bool {
    document.source.file != FileId::Original
}

/// The document differs from the file that was opened.
pub open spec fn dirty(document: DocumentView) -> bool {
    headers_edited(document) || cells_edited(document) || restructured(document)
}

/// The document without new names of headers.
pub open spec fn without_header_edits(document: DocumentView) -> DocumentView {
    if document.save.running {
        document
    } else {
        with_titles(
            DocumentView {
                edits: EditsView { header_edit: None, renames: Map::empty(), ..document.edits },
                ..document
            },
        )
    }
}

/// The document without edits, and with nothing selected.
pub open spec fn without_edits(document: DocumentView) -> DocumentView {
    if document.save.running {
        document
    } else {
        let headers = without_header_edits(document);
        DocumentView {
            edits: EditsView { cell_edit: None, cells: Map::empty(), ..headers.edits },
            selection: SelectionView {
                selection: None,
                rows: no_rows(),
                reveal_cell: None,
                cell_focus: None,
                column_focus: None,
                ..headers.selection
            },
            search: without_matches(headers.search),
            working_copy: if restructured(document) { document.working_copy } else { None },
            has_original: restructured(document) && document.has_original,
            ..headers
        }
    }
}

/// The reason for which a cell that holds `source` cannot be edited.
pub open spec fn cell_reason(document: DocumentView, source: Option<Seq<u8>>) -> Option<Seq<char>> {
    if document.source_changed {
        Some("Reopen the changed source before editing data cells."@)
    } else if document.filter.query is Some {
        Some("Clear the filter before editing data cells."@)
    } else if document.save.running || document.export.running || document.search.running || document.filter.running
        || document.structural.job is Some {
        Some("Wait for the active file operation before editing data cells."@)
    } else if source is None {
        Some("This row has no cell in this file column."@)
    } else if !valid_utf8(source->0) {
        Some("This cell is not valid UTF-8 and cannot be edited."@)
    } else {
        None
    }
}

/// The bytes of a cell: those that an edit gave it, else those of the file.
pub open spec fn cell_bytes(document: DocumentView, row: u64, column: usize, source: Seq<u8>) -> Seq<u8> {
    match found(document.edits.cells, (row, column)) {
        Some(bytes) => bytes,
        None => source,
    }
}

/// The document with a cell open for editing.
pub open spec fn with_cell_open(document: DocumentView, row: u64, column: usize, source: Seq<u8>) -> DocumentView {
    let kept = with_cell_kept(with_header_kept(document));
    DocumentView {
        edits: EditsView {
            cell_edit: Some(
                CellEditView {
                    row,
                    column,
                    source,
                    draft: decode_utf8(cell_bytes(kept, row, column, source)),
                    focus_requested: true,
                },
            ),
            ..kept.edits
        },
        selection: SelectionView {
            selection: Some(GridSelection::Cell { row, column }),
            rows: no_rows(),
            ..kept.selection
        },
        ..kept
    }
}

/// The document with a header open for editing.
pub open spec fn with_header_open(document: DocumentView, column: usize) -> DocumentView {
    if header_editable(document, column) {
        let draft = match found(document.edits.renames, column) {
            Some(name) => name,
            None => source_header(document.source, column)->0,
        };
        let kept = with_header_kept(with_cell_kept(document));
        DocumentView {
            edits: EditsView {
                header_edit: Some(HeaderEditView { column, draft, focus_requested: true }),
                ..kept.edits
            },
            ..kept
        }
    } else {
        document
    }
}

/// Whether two byte strings are equal.
pub fn bytes_equal(one: &[u8], other: &[u8]) -> (equal: bool)
    ensures
        equal == (one@ == other@),
{
    let equal = crate::literal::literal_equals(one, other, crate::literal::CaseSensitivity::Sensitive);
    proof {
        if equal {
            assert forall|i: int| 0 <= i < one@.len() implies one@[i] == other@[i] by {
                assert(crate::literal::same_byte(
                    one@[i],
                    other@[i],
                    crate::literal::CaseSensitivity::Sensitive,
                ));
            }
            assert(one@ =~= other@);
        }
    }
    equal
}

impl Document {
    /// Gives up the state to redo.
    pub fn invalidate_structural_redo(&mut self)
        ensures
            final(self)@ == without_redo(old(self)@),
            old(self).wf() ==> final(self).wf(),
            *final(self) == (Document {
                working_copy: final(self).working_copy,
                effects: final(self).effects,
                ..*old(self)
            }),
    {
        if let Some(mut copies) = self.working_copy.take() {
            if let Some(redo) = copies.redo.take() {
                let obsolete = redo.file != self.source.file && match redo.file {
                    FileId::Generation(_) => true,
                    FileId::Original => false,
                };
                if obsolete {
                    self.effects.push(Effect::RemoveFile(redo.file));
                }
            }
            self.working_copy = Some(copies);
        }
        proof {
            assert(self@ =~= without_redo(old(self)@));
        }
    }

    /// Whether a header can be renamed.
    pub fn header_is_editable(&self, column: usize) -> (editable: bool)
        ensures
            editable == header_editable(self@, column),
    {
        !self.save.running && !self.export.running && !self.search.running && self.structural.job.is_none()
            && self.source.header_name(column).is_some()
    }

    /// Gives a header a new name.
    pub fn rename_header(&mut self, column: usize, name: String) -> (result: Result<(), String>)
        requires
            old(self).wf(),
        ensures
            final(self).wf(),
            match result {
                Ok(()) => header_editable(old(self)@, column) && final(self)@ == renamed(old(self)@, column, name@),
                Err(message) => final(self)@ == old(self)@ && !header_editable(old(self)@, column) && message@ == if old(self)@.save.running {
                    "Wait for the save to finish before editing headers."@
                } else if old(self)@.export.running {
                    "Wait for the filtered export to finish before editing headers."@
                } else if old(self)@.search.running {
                    "Wait for the search to finish before editing headers."@
                } else {
                    "Only columns in the source header row can be renamed."@
                },
            },
    {
        broadcast use crate::sets::group_ordered_keys;

        if self.save.running {
            return Err("Wait for the save to finish before editing headers.".to_owned());
        }
        if self.export.running {
            return Err("Wait for the filtered export to finish before editing headers.".to_owned());
        }
        if self.search.running {
            return Err("Wait for the search to finish before editing headers.".to_owned());
        }
        if !self.header_is_editable(column) {
            return Err("Only columns in the source header row can be renamed.".to_owned());
        }
        let source_name = self.source.header_name(column);
        let same_as_source = match &source_name {
            Some(source_name) => *source_name == name,
            None => false,
        };
        let ghost next = kept_name(old(self)@, column, name@);
        proof {
            model::lemma_renames_insert(self.edits.header_renames@, column, name);
        }
        let unchanged = match self.edits.header_renames.get(&column) {
            Some(current) => !same_as_source && *current == name,
            None => same_as_source,
        };
        assert(unchanged == (found(old(self)@.edits.renames, column) == next));
        if !unchanged {
            self.invalidate_structural_redo();
            let ghost cleared = self@;
            if same_as_source {
                self.edits.header_renames.remove(&column);
            } else {
                self.edits.header_renames.insert(column, name);
            }
            proof {
                assert(self@.edits.renames == updated(cleared.edits.renames, column, next));
                assert(self@ =~= DocumentView {
                    edits: EditsView { renames: updated(cleared.edits.renames, column, next), ..cleared.edits },
                    ..cleared
                });
            }
            self.refresh_column_headers();
        }
        Ok(())
    }

    /// Keeps the header that is being edited.
    pub fn commit_header_edit(&mut self)
        requires
            old(self).wf(),
        ensures
            final(self).wf(),
            final(self)@ == with_header_kept(old(self)@),
    {
        if self.save.running {
            return ;
        }
        if let Some(edit) = self.edits.header_edit.take() {
            let ghost closed = DocumentView {
                edits: EditsView { header_edit: None, ..old(self)@.edits },
                ..old(self)@
            };
            proof {
                assert(self@ =~= closed);
            }
            let _ = self.rename_header(edit.column, edit.draft);
        }
    }

    /// Why a cell cannot be edited.
    pub fn cell_edit_disabled_reason(&self, source: Option<&[u8]>) -> (reason: Option<&'static str>)
        ensures
            match reason {
                Some(reason) => cell_reason(
                    self@,
                    match source {
                        Some(source) => Some(source@),
                        None => None,
                    },
                ) == Some(reason@),
                None => cell_reason(
                    self@,
                    match source {
                        Some(source) => Some(source@),
                        None => None,
                    },
                ) == None::<Seq<char>>,
            },
    {
        if self.source_changed {
            Some("Reopen the changed source before editing data cells.")
        } else if self.filter.query.is_some() {
            Some("Clear the filter before editing data cells.")
        } else if self.save.running || self.export.running || self.search.running || self.filter.running
            || self.structural.job.is_some() {
            Some("Wait for the active file operation before editing data cells.")
        } else {
            match source {
                None => Some("This row has no cell in this file column."),
                Some(source) => if text::decode_strict(source).is_none() {
                    Some("This cell is not valid UTF-8 and cannot be edited.")
                } else {
                    None
                },
            }
        }
    }

    pub fn cell_is_editable(&self, source: Option<&[u8]>) -> (editable: bool)
        ensures
            editable == (cell_reason(
                self@,
                match source {
                    Some(source) => Some(source@),
                    None => None,
                },
            ) is None),
    {
        self.cell_edit_disabled_reason(source).is_none()
    }

    /// Opens a cell, which holds `source` in the file, for editing.
    pub fn begin_cell_edit(&mut self, row: u64, column: usize, source: Vec<u8>) -> (result: Result<(), String>)
        requires
            old(self).wf(),
            cell_reason(old(self)@, Some(source@)) is None ==> valid_utf8(
                cell_bytes(committed(old(self)@), row, column, source@),
            ),
        ensures
            final(self).wf(),
            match result {
                Ok(()) => cell_reason(old(self)@, Some(source@)) is None && final(self)@ == with_cell_open(
                    old(self)@,
                    row,
                    column,
                    source@,
                ),
                Err(message) => final(self)@ == old(self)@ && if old(self)@.filter.query is Some {
                    message@ == "Clear the filter before editing data cells."@
                } else {
                    cell_reason(old(self)@, Some(source@)) == Some(message@)
                },
            },
    {
        broadcast use crate::sets::group_ordered_keys;

        if self.filter.query.is_some() {
            return Err("Clear the filter before editing data cells.".to_owned());
        }
        match self.cell_edit_disabled_reason(Some(source.as_slice())) {
            Some(reason) => {
                return Err(reason.to_owned());
            },
            None => {},
        }
        self.commit_header_edit();
        self.commit_cell_edit();
        let ghost kept = self@;
        proof {
            reveal(committed);
            assert(self@.edits.cells.dom() =~= self.edits.cell_edits@.dom());
        }
        let decoded = match self.edits.cell_edits.get(&(row, column)) {
            Some(bytes) => text::decode_strict(bytes.as_slice()),
            None => text::decode_strict(source.as_slice()),
        };
        let draft = match decoded {
            Some(draft) => draft,
            None => String::new(),
        };
        self.selection.selection = Some(GridSelection::Cell { row, column });
        self.selection.rows.clear();
        self.edits.cell_edit = Some(CellEdit { row, column, source, draft, focus_requested: true });
        proof {
            assert(self@ =~= with_cell_open(old(self)@, row, column, source@));
        }
        Ok(())
    }

    /// Opens a header for editing, where it can be edited.
    pub fn begin_header_edit(&mut self, column: usize)
        requires
            old(self).wf(),
        ensures
            final(self).wf(),
            final(self)@ == with_header_open(old(self)@, column),
    {
        broadcast use crate::sets::group_ordered_keys;

        if !self.header_is_editable(column) {
            return ;
        }
        proof {
            assert(self@.edits.renames.dom() =~= self.edits.header_renames@.dom());
        }
        if let Some(source_name) = self.source.header_name(column) {
            let draft = match self.edits.header_renames.get(&column) {
                Some(name) => name.clone(),
                None => source_name,
            };
            self.commit_cell_edit();
            self.commit_header_edit();
            self.edits.header_edit = Some(HeaderEdit { column, draft, focus_requested: true });
            proof {
                assert(self@ =~= with_header_open(old(self)@, column));
            }
        }
    }

    /// Keeps the cell that is being edited.
    pub fn commit_cell_edit(&mut self)
        requires
            old(self).wf(),
        ensures
            final(self).wf(),
            final(self)@ == with_cell_kept(old(self)@),
    {
        broadcast use crate::sets::group_ordered_keys;

        if self.save.running {
            return ;
        }
        let edit = match self.edits.cell_edit.take() {
            Some(edit) => edit,
            None => {
                return ;
            },
        };
        let key = (edit.row, edit.column);
        let draft = model::copy_bytes(edit.draft.as_str().as_bytes());
        let same_as_source = bytes_equal(draft.as_slice(), edit.source.as_slice());
        let ghost view = model::cell_edit_view(old(self).edits.cell_edit)->0;
        let ghost next = kept_bytes(view);
        proof {
            model::lemma_edits_insert(self.edits.cell_edits@, key, draft);
        }
        let unchanged = match self.edits.cell_edits.get(&key) {
            Some(current) => !same_as_source && bytes_equal(current.as_slice(), draft.as_slice()),
            None => same_as_source,
        };
        assert(unchanged == (found(old(self)@.edits.cells, key) == next));
        if unchanged {
            proof {
                assert(self@ =~= with_cell_kept(old(self)@));
            }
            return ;
        }
        self.invalidate_structural_redo();
        let ghost cleared = self@;
        if same_as_source {
            self.edits.cell_edits.remove(&key);
        } else {
            self.edits.cell_edits.insert(key, draft);
        }
        assert(self@.edits.cells == updated(cleared.edits.cells, key, next));
        self.forget_matches();
        self.selection.reveal_cell = None;
        proof {
            assert(self@ =~= with_cell_kept(old(self)@));
        }
    }

    /// Forgets the search and its matches.
    pub fn forget_matches(&mut self)
        ensures
            final(self)@ == (DocumentView { search: without_matches(old(self)@.search), ..old(self)@ }),
            *final(self) == (Document { search: final(self).search, ..*old(self) }),
    {
        self.search.query.clear();
        self.search.last_match = None;
        self.search.history.clear();
        self.search.history_index = None;
        self.search.status = None;
        proof {
            assert(self@.search =~= without_matches(old(self)@.search));
        }
    }

    /// Keeps what is being typed.
    pub fn commit_edits(&mut self)
        requires
            old(self).wf(),
        ensures
            final(self).wf(),
            final(self)@ == committed(old(self)@),
            commit_frame(old(self)@, final(self)@),
    {
        self.commit_header_edit();
        self.commit_cell_edit();
        proof {
            reveal(committed);
        }
    }

    /// Throws the new names of headers away.
    pub fn discard_header_edits(&mut self)
        requires
            old(self).wf(),
        ensures
            final(self).wf(),
            final(self)@ == without_header_edits(old(self)@),
    {
        if self.save.running {
            return ;
        }
        self.edits.header_edit = None;
        self.edits.header_renames.clear();
        proof {
            assert(self@.edits.renames =~= Map::empty());
            assert(self@ =~= DocumentView {
                edits: EditsView { header_edit: None, renames: Map::empty(), ..old(self)@.edits },
                ..old(self)@
            });
        }
        self.refresh_column_headers();
    }

    /// Throws every edit away that no file holds.
    pub fn discard_edits(&mut self)
        requires
            old(self).wf(),
        ensures
            final(self).wf(),
            final(self)@ == without_edits(old(self)@),
    {
        if self.save.running {
            return ;
        }
        self.discard_header_edits();
        let ghost headers = self@;
        self.edits.cell_edit = None;
        self.edits.cell_edits.clear();
        self.selection.selection = None;
        self.selection.rows.clear();
        self.selection.reveal_cell = None;
        self.selection.cell_focus = None;
        self.selection.column_focus = None;
        self.forget_matches();
        let original = match self.source.file {
            FileId::Original => true,
            FileId::Generation(_) => false,
        };
        if original {
            self.working_copy = None;
            self.has_original = false;
        }
        proof {
            assert(self@.edits.cells =~= Map::empty());
            assert(self@ =~= without_edits(old(self)@));
        }
    }

    pub fn has_cell_edits(&self) -> (edited: bool)
        ensures
            edited == cells_edited(self@),
    {
        proof {
            assert(self@.edits.cells.dom() =~= self.edits.cell_edits@.dom());
            assert(self.edits.cell_edits@.is_empty() <==> self@.edits.cells =~= Map::empty());
        }
        !self.edits.cell_edits.is_empty() || match &self.edits.cell_edit {
            Some(edit) => !bytes_equal(edit.draft.as_str().as_bytes(), edit.source.as_slice()),
            None => false,
        }
    }

    pub fn has_structural_edits(&self) -> (changed: bool)
        ensures
            changed == restructured(self@),
    {
        match self.source.file {
            FileId::Original => false,
            FileId::Generation(_) => true,
        }
    }

    /// Whether some header has a name that the file does not hold.
    fn has_header_edits(&self) -> (edited: bool)
        requires
            self.wf(),
        ensures
            edited == headers_edited(self@),
    {
        broadcast use crate::sets::group_ordered_keys;

        let ghost renames = self.edits.header_renames@;
        proof {
            assert(self@.edits.renames.dom() =~= renames.dom());
            assert(renames.is_empty() <==> self@.edits.renames =~= Map::empty());
        }
        match &self.edits.header_edit {
            None => !self.edits.header_renames.is_empty(),
            Some(edit) => {
                let own: usize = if self.edits.header_renames.contains_key(&edit.column) { 1 } else { 0 };
                let others = self.edits.header_renames.len() > own;
                proof {
                    let rest = renames.dom().remove(edit.column);
                    assert(others <==> rest.len() > 0);
                    if others {
                        let column = rest.choose();
                        assert(rest.contains(column)) by {
                            if rest =~= Set::empty() {
                                assert(rest.len() == 0);
                            }
                        }
                        assert(self@.edits.renames.dom().contains(column));
                    } else {
                        assert(rest =~= Set::empty());
                        assert forall|column: usize| self@.edits.renames.dom().contains(column) implies column
                            == edit.column by {
                            if column != edit.column {
                                assert(rest.contains(column));
                            }
                        }
                    }
                }
                others || match self.source.header_name(edit.column) {
                    Some(name) => name != edit.draft,
                    None => true,
                }
            },
        }
    }

    /// Whether the document differs from the file that was opened.
    pub fn is_dirty(&self) -> (dirty: bool)
        requires
            self.wf(),
        ensures
            dirty == self::dirty(self@),
    {
        self.has_header_edits() || self.has_cell_edits() || self.has_structural_edits()
    }

    /// The bytes of a cell as the grid shows them: what is being typed, else the edit, else
    /// the bytes of the file.
    pub fn cell_value(&self, row: u64, column: usize, source: &[u8]) -> (value: Vec<u8>)
        ensures
            value@ == shown_bytes(self@, row, column, source@),
    {
        broadcast use crate::sets::group_ordered_keys;

        proof {
            assert(self@.edits.cells.dom() =~= self.edits.cell_edits@.dom());
        }
        match &self.edits.cell_edit {
            Some(edit) if edit.row == row && edit.column == column => {
                return model::copy_bytes(edit.draft.as_str().as_bytes());
            },
            _ => {},
        }
        match self.edits.cell_edits.get(&(row, column)) {
            Some(bytes) => model::copy_bytes(bytes.as_slice()),
            None => model::copy_bytes(source),
        }
    }

    /// The cells of a row as the grid shows them.
    pub fn row_with_edits(&self, row: u64, fields: &[Vec<u8>]) -> (cells: Vec<Vec<u8>>)
        ensures
            model::cells_of(cells@) == Seq::new(
                fields@.len(),
                |column: int| shown_bytes(self@, row, column as usize, fields@[column]@),
            ),
    {
        let mut cells: Vec<Vec<u8>> = Vec::new();
        for column in 0..fields.len()
            invariant
                cells@.len() == column,
                forall|j: int|
                    0 <= j < column ==> (#[trigger] cells@[j])@ == shown_bytes(self@, row, j as usize, fields@[j]@),
        {
            cells.push(self.cell_value(row, column, fields[column].as_slice()));
        }
        proof {
            assert(model::cells_of(cells@) =~= Seq::new(
                fields@.len(),
                |column: int| shown_bytes(self@, row, column as usize, fields@[column]@),
            ));
        }
        cells
    }
}

/// The bytes of a cell as the grid shows them.
pub open spec fn shown_bytes(document: DocumentView, row: u64, column: usize, source: Seq<u8>) -> Seq<u8> {
    match document.edits.cell_edit {
        Some(edit) if edit.row == row && edit.column == column => encode_utf8(edit.draft),
        _ => cell_bytes(document, row, column, source),
    }
}

/// Committing a draft that is what the file holds leaves no edit of that cell.
pub proof fn lemma_restored_cell_is_clean(document: DocumentView)
    requires
        document.edits.cell_edit matches Some(edit) && encode_utf8(edit.draft) == edit.source,
        !document.save.running,
    ensures
        ({
            let edit = document.edits.cell_edit->0;
            !with_cell_kept(document).edits.cells.dom().contains((edit.row, edit.column))
        }),
{
}

/// Committing changes only the cell that was being edited.
pub proof fn lemma_commit_touches_one_cell(document: DocumentView, row: u64, column: usize)
    requires
        document.edits.cell_edit matches Some(edit) ==> (edit.row, edit.column) != (row, column),
    ensures
        found(with_cell_kept(document).edits.cells, (row, column)) == found(document.edits.cells, (row, column)),
{
}

/// Committing twice is committing once, and leaves nothing being typed unless a save runs.
pub proof fn lemma_commit_is_idempotent(document: DocumentView)
    ensures
        committed(committed(document)) == committed(document),
        !document.save.running ==> committed(document).edits.header_edit is None && committed(document).edits.cell_edit
            is None,
{
    reveal(committed);
}

/// An edit that changes something gives up the state to redo.
pub proof fn lemma_new_cell_gives_up_redo(document: DocumentView)
    requires
        !document.save.running,
        document.edits.cell_edit matches Some(edit) && found(document.edits.cells, (edit.row, edit.column))
            != kept_bytes(edit),
    ensures
        with_cell_kept(document).working_copy matches Some(copies) ==> copies.redo is None,
{
}

/// Without edits, a document that is shown from the file that was opened is not dirty.
pub proof fn lemma_discarded_is_clean(document: DocumentView)
    requires
        !document.save.running,
    ensures
        dirty(without_edits(document)) == restructured(document),
{
}

/// What the grid shows of a cell is what a commit keeps of it.
pub proof fn lemma_commit_keeps_what_is_shown(document: DocumentView, row: u64, column: usize, source: Seq<u8>)
    requires
        document.edits.cell_edit matches Some(edit) ==> (edit.row == row && edit.column == column ==> edit.source
            == source),
        !document.save.running,
    ensures
        shown_bytes(with_cell_kept(document), row, column, source) == shown_bytes(document, row, column, source),
{
}

} // verus!
