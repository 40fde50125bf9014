//! What the menus, the toolbar and the status bar show and allow.

use crate::document::{Document, DocumentView};
use crate::edits::dirty;
use crate::format::{compact_header_mode_label, detected_delimiter_label, delimiter_name, DelimiterMode, HeaderMode};
use crate::grid::first_number;
use crate::model::text_view;
use crate::parse::capped_sum;
use crate::text::{self, decimal};
use crate::viewport::{grid_place, grid_rows, index_text};
use vstd::prelude::*;
use vstd::string::*;

verus! {

/// A save, an export or a structural change runs.
pub open spec fn file_work_runs(document: DocumentView) -> bool {
    document.save.running || document.export.running || document.structural.job is Some
}

/// What the document menu allows, and what it says where it does not.
#[derive(Clone, Copy, Debug, PartialEq, Eq)]
pub struct DocumentMenu {
    pub dirty: bool,
    pub can_open: bool,
    pub can_reload: bool,
    pub can_save: bool,
    pub can_discard: bool,
    pub open_hint: &'static str,
    pub reload_hint: &'static str,
    pub save_as_hint: &'static str,
    pub discard_hint: &'static str,
}

/// What the document menu allows.
pub fn document_menu(document: Option<&Document>) -> (menu: DocumentMenu)
    requires
        document matches Some(open) ==> open.wf(),
    ensures
        match document {
            None => {
                &&& !menu.dirty && menu.can_open && !menu.can_reload && !menu.can_save && !menu.can_discard
                &&& menu.open_hint@ == "Cancel the active export and wait for it to finish first."@
                &&& menu.reload_hint@ == "Open a file first."@
                &&& menu.save_as_hint@ == "Open a file before using Save As."@
                &&& menu.discard_hint@ == "Open a file first."@
            },
            Some(open) => {
                let changed = dirty(open@);
                &&& menu.dirty == changed
                &&& menu.can_open == (!file_work_runs(open@) && !changed)
                &&& menu.can_reload == (!file_work_runs(open@) && !changed)
                &&& menu.can_save == (!open@.source_changed && changed && !file_work_runs(open@))
                &&& menu.can_discard == (changed && !open@.save.running && open@.structural.job is None)
                &&& menu.open_hint@ == if changed {
                    "Discard or save your changes before opening another file."@
                } else {
                    "Cancel the active export and wait for it to finish first."@
                }
                &&& menu.reload_hint@ == if changed {
                    "Discard or save your changes before reloading the file."@
                } else {
                    "Cancel the active file operation and wait for it to finish first."@
                }
                &&& menu.save_as_hint@ == if changed {
                    "Wait for the active file operation to finish."@
                } else {
                    "Make a change before using Save As."@
                }
                &&& menu.discard_hint@ == if changed {
                    "Wait for the active file operation to finish."@
                } else {
                    "There are no changes to discard."@
                }
            },
        },
{
    match document {
        None => DocumentMenu {
            dirty: false,
            can_open: true,
            can_reload: false,
            can_save: false,
            can_discard: false,
            open_hint: "Cancel the active export and wait for it to finish first.",
            reload_hint: "Open a file first.",
            save_as_hint: "Open a file before using Save As.",
            discard_hint: "Open a file first.",
        },
        Some(open) => {
            let changed = open.is_dirty();
            let busy = open.save.running || open.export.running || open.structural.job.is_some();
            DocumentMenu {
                dirty: changed,
                can_open: !busy && !changed,
                can_reload: !busy && !changed,
                can_save: open.is_save_ready(),
                can_discard: changed && !open.save.running && open.structural.job.is_none(),
                open_hint: if changed {
                    "Discard or save your changes before opening another file."
                } else {
                    "Cancel the active export and wait for it to finish first."
                },
                reload_hint: if changed {
                    "Discard or save your changes before reloading the file."
                } else {
                    "Cancel the active file operation and wait for it to finish first."
                },
                save_as_hint: if changed {
                    "Wait for the active file operation to finish."
                } else {
                    "Make a change before using Save As."
                },
                discard_hint: if changed {
                    "Wait for the active file operation to finish."
                } else {
                    "There are no changes to discard."
                },
            }
        },
    }
}

/// The name of a header mode where there is little room.
pub open spec fn compact_header_name(mode: HeaderMode) -> Seq<char> {
    match mode {
        HeaderMode::Auto => "Auto"@,
        HeaderMode::FirstRow => "Header row"@,
        HeaderMode::NoHeader => "No header"@,
    }
}

pub open spec fn detected_delimiter_name(delimiter: u8) -> Seq<char> {
    if delimiter == 44 {
        "Comma"@
    } else if delimiter == 9 {
        "Tab"@
    } else if delimiter == 124 {
        "Pipe"@
    } else if delimiter == 59 {
        "Semicolon"@
    } else {
        "Custom"@
    }
}

pub open spec fn detected_header_name(has_header: bool) -> Seq<char> {
    if has_header {
        "Header row"@
    } else {
        "No header"@
    }
}

fn detected_header_label(has_header: bool) -> (label: &'static str)
    ensures
        label@ == detected_header_name(has_header),
{
    if has_header {
        "Header row"
    } else {
        "No header"
    }
}

/// The label of the format menu, with `between` between the delimiter and the header mode.
fn format_text(delimiter: DelimiterMode, header: HeaderMode, between: &str) -> (label: String)
    ensures
        label@ == "Format: "@ + delimiter_name(delimiter) + between@ + compact_header_name(header),
{
    "Format: ".to_owned().concat(delimiter.label()).concat(between).concat(compact_header_mode_label(header))
}

/// The label of the format menu.
pub fn format_label(document_open: bool, delimiter: DelimiterMode, header: HeaderMode, compact: bool) -> (label: String)
    ensures
        label@ == if !document_open {
            "Format"@
        } else if compact {
            delimiter_name(delimiter)
        } else {
            "Format: "@ + delimiter_name(delimiter) + " · "@ + compact_header_name(header)
        },
{
    if !document_open {
        "Format".to_owned()
    } else if compact {
        delimiter.label().to_owned()
    } else {
        format_text(delimiter, header, " · ")
    }
}

/// What the format menu is called where its name is read out.
pub fn spoken_format_label(document_open: bool, delimiter: DelimiterMode, header: HeaderMode) -> (label: String)
    ensures
        label@ == if !document_open {
            "Format"@
        } else {
            "Format: "@ + delimiter_name(delimiter) + ", "@ + compact_header_name(header)
        },
{
    if !document_open {
        "Format".to_owned()
    } else {
        format_text(delimiter, header, ", ")
    }
}

/// The format that is applied, in the format menu.
pub fn applied_format_text(delimiter: DelimiterMode, header: HeaderMode) -> (words: String)
    ensures
        words@ == "Applied: "@ + delimiter_name(delimiter) + " · "@ + compact_header_name(header),
{
    "Applied: ".to_owned().concat(delimiter.label()).concat(" · ").concat(compact_header_mode_label(header))
}

impl Document {
    /// The format that was found in the file, in the format menu.
    pub fn detected_format_text(&self) -> (words: String)
        ensures
            words@ == "Detected: "@ + detected_delimiter_name(self@.source.delimiter) + " · "@ + detected_header_name(
                self@.source.has_header,
            ),
    {
        "Detected: ".to_owned().concat(detected_delimiter_label(self.source.delimiter)).concat(" · ").concat(
            detected_header_label(self.source.has_header),
        )
    }

    /// The format that is applied and the one that was found in the file.
    pub fn format_description(&self, delimiter: DelimiterMode, header: HeaderMode) -> (words: String)
        ensures
            words@ == "Applied "@ + delimiter_name(delimiter) + ", "@ + compact_header_name(header) + ". Detected "@
                + detected_delimiter_name(self@.source.delimiter) + ", "@ + detected_header_name(
                self@.source.has_header,
            ) + "."@,
    {
        "Applied ".to_owned().concat(delimiter.label()).concat(", ").concat(compact_header_mode_label(header)).concat(
            ". Detected ",
        ).concat(detected_delimiter_label(self.source.delimiter)).concat(", ").concat(
            detected_header_label(self.source.has_header),
        ).concat(".")
    }

    /// Why the file cannot be reopened with another format.
    pub fn reopen_hint(&self, changed: bool) -> (hint: Option<&'static str>)
        requires
            self.wf(),
        ensures
            match hint {
                Some(hint) => if !changed {
                    hint@ == "Choose a different delimiter or header mode first."@
                } else if dirty(self@) {
                    hint@ == "Discard or save your changes before reopening the file."@
                } else {
                    file_work_runs(self@) && hint@
                        == "Cancel the active file operation and wait for it to finish first."@
                },
                None => changed && !dirty(self@) && !file_work_runs(self@),
            },
    {
        if !changed {
            Some("Choose a different delimiter or header mode first.")
        } else if self.is_dirty() {
            Some("Discard or save your changes before reopening the file.")
        } else if self.save.running || self.export.running || self.structural.job.is_some() {
            Some("Cancel the active file operation and wait for it to finish first.")
        } else {
            None
        }
    }

    /// The number of columns, in the status bar.
    pub fn columns_text(&self) -> (words: String)
        ensures
            words@ == decimal(self@.grid.total_columns as nat) + " columns"@,
    {
        text::count(self.grid.total_columns).concat(" columns")
    }

    /// The number of columns that are shown, where some are hidden.
    pub fn shown_text(&self) -> (words: Option<String>)
        requires
            self.wf(),
        ensures
            ({
                let count = crate::document::shown(self@).len();
                match words {
                    Some(words) => count != self@.grid.total_columns && words@ == decimal(count) + " shown"@,
                    None => count == self@.grid.total_columns,
                }
            }),
    {
        let count: usize = self.grid.columns.shown_count();
        if count == self.grid.total_columns {
            None
        } else {
            Some(text::count(count).concat(" shown"))
        }
    }

    /// The number of rows, else of columns, that are selected.
    pub fn selection_count_text(&self) -> (words: Option<String>)
        requires
            self.wf(),
        ensures
            ({
                let rows = crate::structural::capped(self@.selection.rows.rows.len());
                let columns = self@.selection.columns.len();
                text_view(words) == if rows > 0 {
                    Some(decimal(rows as nat) + " row"@ + ending(rows as nat) + " selected"@)
                } else if columns > 0 {
                    Some(decimal(columns) + " column"@ + ending(columns) + " selected"@)
                } else {
                    None
                }
            }),
    {
        let rows: u64 = self.selection.rows.count();
        let columns: usize = self.selection.columns.len();
        if rows > 0 {
            Some(
                text::number(rows).concat(" row").concat(
                    if rows == 1 {
                        ""
                    } else {
                        "s"
                    },
                ).concat(" selected"),
            )
        } else if columns > 0 {
            Some(
                text::count(columns).concat(" column").concat(
                    if columns == 1 {
                        ""
                    } else {
                        "s"
                    },
                ).concat(" selected"),
            )
        } else {
            None
        }
    }

    /// The status of the index, where it is worth showing.
    pub fn idle_status(&self) -> (status: Option<&'static str>)
        ensures
            match status {
                Some(status) => status@ == index_text(self@) && index_worth_showing(self@),
                None => !index_worth_showing(self@),
            },
    {
        let failed = !self.index.running && self.index.indexed_rows.is_none();
        if self.source_changed || failed {
            None
        } else {
            Some(self.index_status())
        }
    }

    /// What the scroll bar is called where its name is read out.
    pub fn scroll_label(&self) -> (label: String)
        requires
            self.wf(),
        ensures
            label@ == if grid_rows(self@) == 0 {
                "Vertical scroll, no data rows"@
            } else if self@.filter.query is Some {
                "Vertical scroll, filter match "@ + decimal(capped_sum(grid_place(self@) as int, 1) as nat) + " of "@
                    + decimal(grid_rows(self@) as nat)
            } else {
                "Vertical scroll, row "@ + decimal(first_number(self@) as nat) + " of "@ + decimal(
                    grid_rows(self@) as nat,
                )
            },
    {
        let total: u64 = self.grid_total_rows();
        if total == 0 {
            "Vertical scroll, no data rows".to_owned()
        } else if self.filter_active() {
            let place: u64 = self.grid_position().saturating_add(1);
            "Vertical scroll, filter match ".to_owned().concat(text::number(place).as_str()).concat(" of ").concat(
                text::number(total).as_str(),
            )
        } else {
            "Vertical scroll, row ".to_owned().concat(text::number(self.display_start()).as_str()).concat(
                " of ",
            ).concat(text::number(total).as_str())
        }
    }

    /// What the scroll bar says under the pointer.
    pub fn scroll_hint(&self) -> (hint: String)
        requires
            self.wf(),
        ensures
            hint@ == if grid_rows(self@) == 0 {
                "No data rows"@
            } else if self@.filter.query is Some {
                "Filter match "@ + decimal(capped_sum(grid_place(self@) as int, 1) as nat) + " of "@ + decimal(
                    grid_rows(self@) as nat,
                )
            } else {
                "Row "@ + decimal(first_number(self@) as nat) + " of "@ + decimal(grid_rows(self@) as nat)
            },
    {
        let total: u64 = self.grid_total_rows();
        if total == 0 {
            "No data rows".to_owned()
        } else if self.filter_active() {
            let place: u64 = self.grid_position().saturating_add(1);
            "Filter match ".to_owned().concat(text::number(place).as_str()).concat(" of ").concat(
                text::number(total).as_str(),
            )
        } else {
            "Row ".to_owned().concat(text::number(self.display_start()).as_str()).concat(" of ").concat(
                text::number(total).as_str(),
            )
        }
    }
}

/// The index neither failed nor belongs to a file that has changed.
pub open spec fn index_worth_showing(document: DocumentView) -> bool {
    !document.source_changed && (document.index.running || document.index.indexed_rows is Some)
}

/// An `s` for all numbers but one.
pub open spec fn ending(count: nat) -> Seq<char> {
    if count == 1 {
        ""@
    } else {
        "s"@
    }
}

/// The format that is being chosen after a click on the format menu: that of the file where the
/// menu opens, none where it closes.
pub fn toggled_format_draft(
    draft: Option<(DelimiterMode, HeaderMode)>,
    applied: (DelimiterMode, HeaderMode),
) -> (next: Option<(DelimiterMode, HeaderMode)>)
    ensures
        next == if draft is Some {
            None
        } else {
            Some(applied)
        },
{
    if draft.is_some() {
        None
    } else {
        Some(applied)
    }
}

/// What the find bar allows.
#[derive(Clone, Copy, Debug, PartialEq, Eq, Structural)]
pub struct FindControls {
    pub can_type: bool,
    pub can_find: bool,
    pub can_find_previous: bool,
    pub can_replace: bool,
    pub can_replace_all: bool,
}

/// What the find bar allows. `has_previous` and `has_match` say that there is a match before the
/// current one, and a current one that can be replaced.
pub fn find_controls(document: &Document, query: &str, replacement: &str, has_previous: bool, has_match: bool) -> (controls: FindControls)
    ensures
        ({
            let free = !document@.search.running && document@.filter.query is None;
            let can_find = crate::search::search_ready(document@) && free && query@.len() > 0;
            controls == (FindControls {
                can_type: free,
                can_find,
                can_find_previous: can_find && has_previous,
                can_replace: has_match && free,
                can_replace_all: can_find && query@ != replacement@,
            })
        }),
{
    let free = !document.search.running && document.filter.query.is_none();
    let can_find = document.is_search_ready() && free && !query.is_empty();
    let same = text::same_text(query, replacement);
    FindControls {
        can_type: free,
        can_find,
        can_find_previous: can_find && has_previous,
        can_replace: has_match && free,
        can_replace_all: can_find && !same,
    }
}

} // verus!
