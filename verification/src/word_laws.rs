//! What the words of the editor are for: the laws of names, numbers, copies and menus.

use crate::clipboard::{
    append_clipboard_field, clipboard_field, copied_row, ensure_copy_capacity, field_texts, lemma_row_text_reads_back,
    record, rendered_text, row_text, size, MAX_COPY_BYTES,
};
use crate::document::{ChangeKind, Document, JobView};
use crate::edit_laws::can_save;
use crate::format::{DelimiterMode, HeaderMode};
use crate::grid::GridStep;
use crate::literal::CaseSensitivity;
use crate::menus::{document_menu, DocumentMenu};
use crate::message::{AppMessage, MessageSeverity};
use crate::model::{FileId, FilterOperator, FilterQuery, SearchMatch, SortDirection};
use crate::names::{file_name, filtered_export_file_name, last_place, save_as_file_name, without_trailing_parts};
use crate::parse::{parse_data_row, parse_file_column, parse_move_position};
use crate::rows::GridSelection;
use crate::saving::ExportOutcome;
use crate::session_laws::can_be_left;
use crate::structural::{StructuralOutcome, StructuralStep};
use crate::text::{decimal, is_digit, lemma_decimal, lemma_decimal_parses, parsed, trimmed};
use crate::view_laws::{most, rows_known};
use crate::workspace::Workspace;
use vstd::prelude::*;
use vstd::utf8::*;

verus! {

/// A character does not occur in a text.
pub open spec fn lacks(text: Seq<char>, character: char) -> bool {
    forall|i: int| 0 <= i < text.len() ==> #[trigger] text[i] != character
}

proof fn lemma_last_place_is(text: Seq<char>, wanted: char, at: int)
    requires
        0 <= at < text.len(),
        text[at] == wanted,
        lacks(text.skip(at + 1), wanted),
    ensures
        last_place(text, wanted) == Some(at),
    decreases text.len(),
{
    if at < text.len() - 1 {
        let rest = text.skip(at + 1);
        assert(rest[rest.len() - 1] == text.last());
        let shorter = text.drop_last();
        assert forall|i: int| 0 <= i < shorter.skip(at + 1).len() implies #[trigger] shorter.skip(at + 1)[i]
            != wanted by {
            assert(shorter.skip(at + 1)[i] == rest[i]);
        }
        lemma_last_place_is(shorter, wanted, at);
    }
}

proof fn lemma_no_last_place(text: Seq<char>, wanted: char)
    requires
        lacks(text, wanted),
    ensures
        last_place(text, wanted) is None,
    decreases text.len(),
{
    if text.len() > 0 {
        assert(text[text.len() - 1] == text.last());
        assert forall|i: int| 0 <= i < text.drop_last().len() implies #[trigger] text.drop_last()[i] != wanted by {
            assert(text.drop_last()[i] == text[i]);
        }
        lemma_no_last_place(text.drop_last(), wanted);
    }
}

/// A file name with a stem and an extension.
pub open spec fn is_name(name: Seq<char>, front: Seq<char>, behind: Seq<char>) -> bool {
    &&& name == front + seq!['.'] + behind
    &&& front.len() > 0
    &&& behind.len() > 0
    &&& lacks(name, '/')
    &&& lacks(behind, '.')
}

proof fn lemma_name_of_path(directory: Seq<char>, name: Seq<char>, front: Seq<char>, behind: Seq<char>)
    requires
        is_name(name, front, behind),
    ensures
        file_name(directory + seq!['/'] + name) == Some(name),
        last_place(name, '.') == Some(front.len() as int),
        name.take(front.len() as int) == front,
        name.skip(front.len() as int + 1) == behind,
{
    let path = directory + seq!['/'] + name;
    assert(name.skip(front.len() as int + 1) =~= behind);
    assert(name.take(front.len() as int) =~= front);
    assert(name[front.len() as int] == '.');
    lemma_last_place_is(name, '.', front.len() as int);
    assert(path.last() == name.last());
    assert(name.last() == behind.last());
    assert(behind[behind.len() - 1] == behind.last());
    assert(name[name.len() - 1] == name.last());
    assert(without_trailing_parts(path) == path);
    assert(path.skip(directory.len() as int + 1) =~= name);
    assert(path[directory.len() as int] == '/');
    lemma_last_place_is(path, '/', directory.len() as int);
    assert(name.len() >= 3);
}

/// The name that is proposed for an export or a copy is that of the file with a word between its stem
/// and its extension, whatever directory it is in.
pub proof fn lemma_proposed_names(
    source: &str,
    directory: Seq<char>,
    file: Seq<char>,
    front: Seq<char>,
    behind: Seq<char>,
    export: String,
    copy: String,
)
    requires
        is_name(file, front, behind),
        source@ == directory + seq!['/'] + file,
        call_ensures(filtered_export_file_name, (source,), export),
        call_ensures(save_as_file_name, (source,), copy),
    ensures
        export@ == front + "-filtered"@ + seq!['.'] + behind,
        copy@ == front + "-edited"@ + seq!['.'] + behind,
{
    lemma_name_of_path(directory, file, front, behind);
}

proof fn lemma_digits_are_kept(text: Seq<char>)
    requires
        text.len() > 0,
        forall|i: int| 0 <= i < text.len() ==> is_digit(#[trigger] text[i]),
    ensures
        trimmed(text) == text,
{
    assert(is_digit(text[0]));
    assert(is_digit(text[text.len() - 1]));
    assert(text.last() == text[text.len() - 1]);
}

/// A number that is written in digits is read as that number.
pub proof fn lemma_written_number_is_read(number: nat, limit: nat)
    requires
        number <= limit,
    ensures
        parsed(trimmed(decimal(number)), limit) == Some(number),
{
    lemma_decimal(number);
    lemma_decimal_parses(number, limit);
    lemma_digits_are_kept(decimal(number));
}

/// The data row, the column and the place whose number is written, counted from one, are the ones
/// that are meant.
pub proof fn lemma_numbers_count_from_one(
    row_text: &str,
    column_text: &str,
    place_text: &str,
    row: u64,
    column: usize,
    place: usize,
    data_start: u64,
    total_columns: usize,
    selected_columns: usize,
    row_result: Result<u64, String>,
    column_result: Result<usize, String>,
    place_result: Result<usize, String>,
)
    requires
        row < u64::MAX,
        data_start + row <= u64::MAX,
        column < total_columns,
        0 < selected_columns <= total_columns,
        place <= total_columns - selected_columns,
        row_text@ == decimal((row + 1) as nat),
        column_text@ == decimal((column + 1) as nat),
        place_text@ == decimal((place + 1) as nat),
        call_ensures(parse_data_row, (row_text, data_start), row_result),
        call_ensures(parse_file_column, (column_text, total_columns), column_result),
        call_ensures(parse_move_position, (place_text, total_columns, selected_columns), place_result),
    ensures
        row_result matches Ok(found) && found == data_start + row,
        column_result matches Ok(found) && found == column,
        place_result matches Ok(found) && found == place,
{
    lemma_written_number_is_read((row + 1) as nat, u64::MAX as nat);
    lemma_written_number_is_read((column + 1) as nat, usize::MAX as nat);
    lemma_written_number_is_read((place + 1) as nat, usize::MAX as nat);
}

/// Zero, and numbers beyond what there is, name no column and no place.
pub proof fn lemma_numbers_out_of_range(
    text: &str,
    number: nat,
    total_columns: usize,
    selected_columns: usize,
    data_start: u64,
    row_result: Result<u64, String>,
    column_result: Result<usize, String>,
    place_result: Result<usize, String>,
)
    requires
        parsed(trimmed(text@), usize::MAX as nat) == Some(number),
        0 < selected_columns <= total_columns,
        call_ensures(parse_data_row, (text, data_start), row_result),
        call_ensures(parse_file_column, (text, total_columns), column_result),
        call_ensures(parse_move_position, (text, total_columns, selected_columns), place_result),
    ensures
        number == 0 ==> row_result is Err && column_result is Err && place_result is Err,
        number > total_columns ==> column_result is Err,
        number > total_columns - selected_columns + 1 ==> place_result is Err,
        0 < number <= total_columns ==> (column_result matches Ok(found) && found + 1 == number),
        0 < number <= total_columns - selected_columns + 1 ==> (place_result matches Ok(found) && found + 1 == number),
{
}

proof fn lemma_escaped(text: Seq<char>)
    ensures
        lacks(crate::clipboard::escaped(text), '\n'),
        lacks(crate::clipboard::escaped(text), '\r'),
        crate::clipboard::escaped(text).len() >= text.len(),
        lacks(text, '\n') && lacks(text, '\r') ==> crate::clipboard::escaped(text) == text,
    decreases text.len(),
{
    if text.len() > 0 {
        let rest = text.drop_last();
        lemma_escaped(rest);
        assert(text[text.len() - 1] == text.last());
        if lacks(text, '\n') && lacks(text, '\r') {
            assert forall|i: int| 0 <= i < rest.len() implies #[trigger] rest[i] != '\n' && rest[i] != '\r' by {
                assert(rest[i] == text[i]);
            }
            assert(rest + seq![text.last()] =~= text);
        }
    } else {
        assert(text =~= Seq::empty());
    }
}

/// A cell is shown on one line of at most 120 characters; a short text without line ends is shown as
/// it is, and a long one starts as the text does.
pub proof fn lemma_cell_is_one_line(decoded: &str, line: String, at: int)
    requires
        call_ensures(rendered_text, (decoded,), line),
    ensures
        line@.len() <= 120,
        lacks(line@, '\n'),
        lacks(line@, '\r'),
        lacks(decoded@, '\n') && lacks(decoded@, '\r') && decoded@.len() <= 120 ==> line@ == decoded@,
        lacks(decoded@, '\n') && lacks(decoded@, '\r') && 0 <= at < 117 && at < decoded@.len() ==> line@[at]
            == decoded@[at],
{
    reveal_strlit("...");
    lemma_escaped(decoded@);
    let whole = crate::clipboard::escaped(decoded@);
    assert forall|i: int| 0 <= i < line@.len() implies #[trigger] line@[i] != '\n' && line@[i] != '\r' by {
        if i < whole.len() && (whole.len() <= 120 || i < 117) {
            assert(line@[i] == whole[i]);
        }
    }
}

/// A field is added to a copy where it is text and there is room for it; else the copy stays as it
/// is.
pub proof fn lemma_field_is_copied(
    output: &mut String,
    field: &[u8],
    quote: bool,
    max_bytes: usize,
    result: Result<(), String>,
)
    requires
        max_bytes < usize::MAX,
        call_ensures(append_clipboard_field, (output, field, quote, max_bytes), result),
    ensures
        ({
            let piece = clipboard_field(decode_utf8(field@), quote);
            &&& result is Ok <==> valid_utf8(field@) && size(old(output)@) + size(piece) <= max_bytes
            &&& result is Ok ==> final(output)@ == old(output)@ + piece
            &&& result is Err ==> final(output)@ == old(output)@
            &&& !quote && result is Ok ==> encode_utf8(final(output)@) == encode_utf8(old(output)@) + field@
        }),
{
    if valid_utf8(field@) {
        decode_utf8_encode_utf8(field@);
        crate::text::lemma_encode_concat(old(output)@, decode_utf8(field@));
    }
}

/// There is room for so many bytes more where the limit is not gone over.
pub proof fn lemma_room_for_a_copy(output: &str, added: usize, max_bytes: usize, result: Result<(), String>)
    requires
        max_bytes < usize::MAX,
        call_ensures(ensure_copy_capacity, (output, added, max_bytes), result),
    ensures
        result is Ok <==> encode_utf8(output@).len() + added <= max_bytes,
{
}

/// What the menu offers is what would be done: another file is opened where no change is lost, and a
/// save where there is something to save.
pub proof fn lemma_menu_offers_what_can_be_done(document: &Document, menu: DocumentMenu)
    requires
        document@.edits.header_edit is None,
        document@.edits.cell_edit is None,
        call_ensures(document_menu, (Some(document),), menu),
    ensures
        menu.can_open <==> can_be_left(document@),
        menu.can_reload <==> can_be_left(document@),
        menu.can_save <==> can_save(document@) && document@.structural.job is None,
        menu.can_discard <==> menu.dirty && !document@.save.running && document@.structural.job is None,
        menu.dirty <==> document@.edits.renames.dom() != Set::<usize>::empty() || document@.edits.cells.dom() != Set::<
            (u64, usize),
        >::empty() || document@.source.file != FileId::Original,
{
    crate::browsing::lemma_rest(document@);
    crate::change_laws::lemma_no_entries(document@.edits.renames);
    crate::change_laws::lemma_no_entries(document@.edits.cells);
}

/// Where no file is open, one can be opened and nothing else can be done.
pub proof fn lemma_menu_without_a_file(menu: DocumentMenu)
    requires
        call_ensures(document_menu, (None,), menu),
    ensures
        menu.can_open,
        !menu.dirty,
        !menu.can_reload,
        !menu.can_save,
        !menu.can_discard,
{
}

/// A message says what it was given, with the severity of its name.
pub proof fn lemma_messages(text: String, error: AppMessage, warning: AppMessage, status: AppMessage)
    requires
        call_ensures(AppMessage::error, (text,), error),
        call_ensures(AppMessage::warning, (text,), warning),
        call_ensures(AppMessage::status, (text,), status),
    ensures
        error.text == text && error.severity == MessageSeverity::Error,
        warning.text == text && warning.severity == MessageSeverity::Warning,
        status.text == text && status.severity == MessageSeverity::Status,
{
}

/// The disk space for a sort is known once the rows are counted; without edits it is that of the file
/// and of a longer line end for each row.
pub proof fn lemma_space_for_a_sort(document: &Document, space: Option<(u64, u64)>)
    requires
        document.wf(),
        call_ensures(Document::sort_space, (document,), space),
        document@.edits.renames.dom() == Set::<usize>::empty(),
        document@.edits.cells.dom() == Set::<(u64, usize)>::empty(),
        document@.edits.header_edit is None,
        document@.edits.cell_edit is None,
    ensures
        space is Some <==> document@.index.indexed_rows is Some,
        document@.index.indexed_rows matches Some(rows) ==> (rows >= document@.grid.data_start ==> (space matches Some(known)
            && known.1 == rows - document@.grid.data_start && (document@.source.file_size + 2 * known.1 <= u64::MAX
            ==> known.0 == document@.source.file_size + 2 * known.1))),
{
    let names = crate::saving::name_bytes(document@.edits.renames);
    assert(names.dom() =~= Set::empty());
    assert(names.dom().len() == 0);
    assert(document@.edits.cells.dom().len() == 0);
}

/// A cell is copied as the text that it holds now, what is being typed included; one that is not text
/// is not copied.
pub proof fn lemma_selected_cell_is_copied(
    document: &Document,
    row: u64,
    column: usize,
    source: &[u8],
    value: Vec<u8>,
    result: Result<String, String>,
)
    requires
        document@.filter.query is None,
        document@.selection.selection == Some(GridSelection::Cell { row, column }),
        document@.grid.buffer_start <= row < document@.grid.buffer_start + document@.grid.rows.len(),
        column < document@.grid.rows[row - document@.grid.buffer_start].len(),
        source@ == document@.grid.rows[row - document@.grid.buffer_start][column as int],
        call_ensures(Document::cell_value, (document, row, column, source), value),
        call_ensures(Document::copy_selection_text, (document,), result),
    ensures
        result is Ok <==> valid_utf8(value@) && value@.len() <= MAX_COPY_BYTES,
        result matches Ok(copied) ==> encode_utf8(copied@) == value@,
{
    if valid_utf8(value@) {
        decode_utf8_encode_utf8(value@);
        assert(Seq::<char>::empty() + decode_utf8(value@) =~= decode_utf8(value@));
        crate::clipboard::lemma_size_sum(Seq::empty(), decode_utf8(value@));
    }
    let fields = document@.grid.rows[row - document@.grid.buffer_start];
    assert(crate::grid::edited_cells(document@, row, fields)[column as int] == value@);
}

/// A row is copied as one record of tab-separated text from which each of its cells, as it is now, can
/// be read back.
pub proof fn lemma_selected_row_is_copied(
    document: &Document,
    row: u64,
    column: usize,
    source: &[u8],
    value: Vec<u8>,
    copied: String,
)
    requires
        document@.filter.query is None,
        document@.selection.selection == Some(GridSelection::Row { row }),
        document@.grid.buffer_start <= row < document@.grid.buffer_start + document@.grid.rows.len(),
        column < document@.grid.rows[row - document@.grid.buffer_start].len(),
        source@ == document@.grid.rows[row - document@.grid.buffer_start][column as int],
        call_ensures(Document::cell_value, (document, row, column, source), value),
        call_ensures(Document::copy_selection_text, (document,), Ok(copied)),
    ensures
        record(copied@).len() == document@.grid.rows[row - document@.grid.buffer_start].len(),
        record(copied@)[column as int] == decode_utf8(value@),
        valid_utf8(value@),
{
    let fields = document@.grid.rows[row - document@.grid.buffer_start];
    let cells = crate::grid::edited_cells(document@, row, fields);
    assert(cells.len() == fields.len());
    assert(cells[column as int] == value@);
    lemma_row_copy(cells, cells.len() as int);
    lemma_row_text_reads_back(cells);
    assert(field_texts(cells, cells.len() as int)[column as int] == decode_utf8(value@));
}

proof fn lemma_row_copy(cells: Seq<Seq<u8>>, count: int)
    requires
        0 <= count <= cells.len(),
    ensures
        copied_row(cells, count, MAX_COPY_BYTES) matches Ok(copied) ==> copied == row_text(cells, count) && forall|i: int|
            0 <= i < count ==> valid_utf8(#[trigger] cells[i]),
    decreases count,
{
    if count > 0 {
        lemma_row_copy(cells, count - 1);
        if let Ok(copied) = copied_row(cells, count, MAX_COPY_BYTES) {
            assert(Seq::<char>::empty() + clipboard_field(decode_utf8(cells[count - 1]), true) =~= clipboard_field(
                decode_utf8(cells[count - 1]),
                true,
            ));
            assert(copied =~= row_text(cells, count));
        }
    }
}

/// Nothing is copied where nothing is selected.
pub proof fn lemma_nothing_is_copied(document: &Document, result: Result<String, String>)
    requires
        document@.selection.selection is None,
        call_ensures(Document::copy_selection_text, (document,), result),
    ensures
        result is Err,
{
}

/// Copying through the editor copies what is selected in the document, and says why where it cannot.
pub proof fn lemma_editor_copies(
    workspace: &mut Workspace,
    document: &Document,
    copied: Option<String>,
    result: Result<String, String>,
)
    requires
        old(workspace)@.document == Some(document@),
        call_ensures(Workspace::copy_selection, (workspace,), copied),
        call_ensures(Document::copy_selection_text, (document,), result),
    ensures
        copied is Some <==> result is Ok,
        result matches Ok(text) ==> copied->0@ == text@ && final(workspace)@.notice is None,
        result matches Err(message) ==> (final(workspace)@.notice matches Some(notice) && notice.text == message@),
        final(workspace)@.document == old(workspace)@.document,
{
}

/// The bytes of a field are shown as the line of its text, and an unnamed header is read out as such.
pub proof fn lemma_fields_are_shown(field: &[u8], decoded: &str, line: String, same: String, name: &str, spoken: &str)
    requires
        valid_utf8(field@),
        decoded@ == decode_utf8(field@),
        call_ensures(crate::clipboard::field_text, (field,), line),
        call_ensures(rendered_text, (decoded,), same),
        call_ensures(crate::clipboard::accessible_header_name, (name,), spoken),
    ensures
        line@ == same@,
        name@.len() > 0 ==> spoken@ == name@,
        spoken@.len() > 0,
{
    reveal_strlit("unnamed header");
}

/// The labels say what they stand for.
pub proof fn lemma_labels(
    direction: SortDirection,
    operator: FilterOperator,
    case: CaseSensitivity,
    delimiter: DelimiterMode,
    header: HeaderMode,
    labels: (&'static str, &'static str, &'static str, &'static str, &'static str),
)
    requires
        call_ensures(crate::dialogs::sort_direction_label, (direction,), labels.0),
        call_ensures(crate::dialogs::filter_operator_label, (operator,), labels.1),
        call_ensures(crate::dialogs::case_sensitivity_label, (case,), labels.2),
        call_ensures(DelimiterMode::label, (delimiter,), labels.3),
        call_ensures(crate::format::header_mode_label, (header,), labels.4),
    ensures
        direction == SortDirection::Ascending ==> labels.0@ == "Ascending"@,
        direction == SortDirection::Descending ==> labels.0@ == "Descending"@,
        operator == FilterOperator::Contains ==> labels.1@ == "Contains"@,
        operator == FilterOperator::Equals ==> labels.1@ == "Equals"@,
        operator == FilterOperator::NotEquals ==> labels.1@ == "Does not equal"@,
        case == CaseSensitivity::Sensitive ==> labels.2@ == "case-sensitive"@,
        case == CaseSensitivity::Insensitive ==> labels.2@ == "case-insensitive"@,
        delimiter == DelimiterMode::Auto ==> labels.3@ == "Auto"@,
        delimiter == DelimiterMode::Comma ==> labels.3@ == "Comma"@,
        delimiter == DelimiterMode::Tab ==> labels.3@ == "Tab"@,
        delimiter == DelimiterMode::Pipe ==> labels.3@ == "Pipe"@,
        delimiter == DelimiterMode::Semicolon ==> labels.3@ == "Semicolon"@,
        header == HeaderMode::Auto ==> labels.4@ == "Auto"@,
        header == HeaderMode::FirstRow ==> labels.4@ == "First row is header"@,
        header == HeaderMode::NoHeader ==> labels.4@ == "No header"@,
{
}

/// The delimiter that was found in a file is called as the one that can be chosen.
pub proof fn lemma_found_delimiter_is_named(
    mode: DelimiterMode,
    delimiter: Option<u8>,
    chosen: &'static str,
    found: &'static str,
)
    requires
        call_ensures(DelimiterMode::delimiter, (mode,), delimiter),
        delimiter is Some,
        call_ensures(DelimiterMode::label, (mode,), chosen),
        call_ensures(crate::format::detected_delimiter_label, (delimiter->0,), found),
    ensures
        found@ == chosen@,
{
}

/// The format menu proposes the applied format where it opens, and nothing where it closes.
pub proof fn lemma_format_menu(
    draft: Option<(DelimiterMode, HeaderMode)>,
    applied: (DelimiterMode, HeaderMode),
    next: Option<(DelimiterMode, HeaderMode)>,
)
    requires
        call_ensures(crate::menus::toggled_format_draft, (draft, applied), next),
    ensures
        next is Some <==> draft is None,
        next matches Some(proposed) ==> proposed == applied,
{
}

/// The find bar allows what would be done.
pub proof fn lemma_find_bar_allows_what_can_be_done(
    document: &Document,
    query: &str,
    replacement: &str,
    has_previous: bool,
    has_match: bool,
    controls: crate::menus::FindControls,
    bytes: Seq<u8>,
)
    requires
        bytes == encode_utf8(query@),
        call_ensures(crate::menus::find_controls, (document, query, replacement, has_previous, has_match), controls),
    ensures
        query@.len() > 0 && bytes.len() > 0 ==> (controls.can_find <==> crate::find_laws::can_find(document@, bytes)),
        query@.len() == 0 ==> !controls.can_find && !controls.can_find_previous && !controls.can_replace_all,
        controls.can_find_previous <==> controls.can_find && has_previous,
        controls.can_type <==> !document@.search.running && document@.filter.query is None,
        controls.can_replace <==> has_match && controls.can_type,
        controls.can_replace_all <==> controls.can_find && query@ != replacement@,
{
}

/// The status bar counts the columns and, where some are hidden, those that are shown.
pub proof fn lemma_columns_are_counted(document: &Document, all: String, some: Option<String>)
    requires
        document.wf(),
        call_ensures(Document::columns_text, (document,), all),
        call_ensures(Document::shown_text, (document,), some),
    ensures
        all@ == decimal(document@.grid.total_columns as nat) + " columns"@,
        some is Some <==> crate::document::shown(document@).len() != document@.grid.total_columns,
        some matches Some(words) ==> words@ == decimal(crate::document::shown(document@).len()) + " shown"@,
{
}

/// A size is given in the largest unit that it reaches, below one kibibyte as the number of bytes.
pub proof fn lemma_sizes_in_words(bytes: u64, size: String)
    requires
        bytes < 1024,
        call_ensures(crate::bytes::format_bytes, (bytes,), size),
    ensures
        size@ == decimal(bytes as nat) + ".00 B"@,
{
    crate::bytes::lemma_small_sizes_are_exact(bytes as nat);
    reveal_strlit(".00 B");
    reveal_strlit("B");
    reveal_strlit(".");
    reveal_strlit(" ");
    assert((100 * bytes) / 100 == bytes);
    assert((100 * bytes) % 100 == 0);
    assert((100 * bytes) % 10 == 0);
    assert((100 * bytes) / 10 % 10 == 0);
    assert(size@ =~= decimal(bytes as nat) + ".00 B"@);
}

/// A text is trimmed of the white space around it and of nothing else, and a number is read from
/// digits.
pub proof fn lemma_typed_text_is_read(text: &str, trimmed_text: String, number: nat, limit: u64, value: Option<u64>)
    requires
        call_ensures(crate::text::trim, (text,), trimmed_text),
        text@ == decimal(number),
        call_ensures(crate::text::parse_number, (text, limit), value),
    ensures
        trimmed_text@ == text@,
        value is Some <==> number <= limit,
        value matches Some(read) ==> read == number,
{
    lemma_decimal(number);
    lemma_digits_are_kept(decimal(number));
    lemma_decimal_parses(number, if number <= limit { limit as nat } else { number });
}

/// A text starts with another.
pub open spec fn starts(text: Seq<char>, start: Seq<char>) -> bool {
    start.len() <= text.len() && text.take(start.len() as int) == start
}

/// What is said once a change is made names what was done: how many matches were replaced, how many
/// rows were deleted, or by which column, counted from one, the rows were sorted and in which
/// direction.
pub proof fn lemma_change_is_told(
    document: &mut Document,
    kind: ChangeKind,
    replacements: u64,
    result: Result<StructuralStep, AppMessage>,
)
    requires
        old(document)@.structural.job matches Some(JobView::Changing { kind: running, .. }) && running == kind,
        old(document)@.working_copy is Some,
        call_ensures(Document::structural_finished, (document, StructuralOutcome::Complete { replacements }), result),
    ensures
        result matches Ok(StructuralStep::Install(copy)) && match kind {
            ChangeKind::Replace => starts(copy.notice@, "Replaced "@ + decimal(replacements as nat) + " occurrence"@),
            ChangeKind::DeleteRows { count } => starts(copy.notice@, "Deleted "@ + decimal(count as nat) + " row"@),
            ChangeKind::Sort { column, direction } => column < usize::MAX ==> starts(
                copy.notice@,
                "Sorted rows by column "@ + decimal((column + 1) as nat) + " "@ + match direction {
                    SortDirection::Ascending => "ascending"@,
                    SortDirection::Descending => "descending"@,
                },
            ),
            ChangeKind::Columns => starts(copy.notice@, "Column edit applied."@),
        },
{
    reveal_strlit("Column edit applied.");
    reveal_strlit("Column edit applied. Save to keep it, or discard changes.");
    let notice = crate::structural::change_notice(kind, replacements);
    match kind {
        ChangeKind::Replace => {
            let start = "Replaced "@ + decimal(replacements as nat) + " occurrence"@;
            assert(notice.take(start.len() as int) =~= start);
        },
        ChangeKind::DeleteRows { count } => {
            let start = "Deleted "@ + decimal(count as nat) + " row"@;
            assert(notice.take(start.len() as int) =~= start);
        },
        ChangeKind::Sort { column, direction } => {
            let start = "Sorted rows by column "@ + decimal((column + 1) as nat) + " "@ + match direction {
                SortDirection::Ascending => "ascending"@,
                SortDirection::Descending => "descending"@,
            };
            if column < usize::MAX {
                assert(notice.take(start.len() as int) =~= start);
            }
        },
        ChangeKind::Columns => {
            let start = "Column edit applied."@;
            assert(notice.take(start.len() as int) =~= start);
        },
    }
}

/// What is said once an export is complete names the number of rows, their size and the file.
pub proof fn lemma_export_is_told(
    document: &mut Document,
    rows: u64,
    bytes: u64,
    destination: String,
    size: String,
    result: Result<(), String>,
)
    requires
        call_ensures(
            Document::export_finished,
            (document, ExportOutcome::Complete { rows_written: rows, bytes_written: bytes, destination }),
            result,
        ),
        call_ensures(crate::bytes::format_bytes, (bytes,), size),
    ensures
        result is Ok,
        final(document)@.export.status == Some(
            "Export complete: "@ + decimal(rows as nat) + " rows ("@ + size@ + ") saved to "@ + destination@ + "."@,
        ),
{
}

/// What is said once a filter has run over the file names the number of its matches.
pub proof fn lemma_filter_end_is_told(document: &mut Document, matches: u64, result: Result<GridStep, String>)
    requires
        old(document)@.filter.query is Some,
        call_ensures(Document::filter_finished, (document, Ok(matches)), result),
    ensures
        ({
            let cancelled = old(document)@.filter.progress matches Some(progress) && progress.cancelled;
            final(document)@.filter.status matches Some(status) && {
                &&& cancelled ==> status == "Filter cancelled after "@ + decimal(matches as nat) + " matches."@
                &&& !cancelled && matches > 0 ==> status == "Filter complete. "@ + decimal(matches as nat) + " matches."@
                &&& !cancelled && matches == 0 ==> status == "Filter complete. No matching rows."@
            }
        }),
{
    reveal(crate::grid::without_hidden);
    reveal(crate::filter::scheduled);
}

/// What is said of a match that is shown names its data row and its column, counted from one.
pub proof fn lemma_match_is_told(document: &mut Document, found: SearchMatch)
    requires
        old(document).wf(),
        found.row >= old(document)@.grid.data_start,
        found.row - old(document)@.grid.data_start < u64::MAX,
        found.column < usize::MAX,
        call_ensures(Document::reveal_match, (document, found), ()),
    ensures
        final(document)@.search.status == Some(
            "Found row "@ + decimal((found.row - old(document)@.grid.data_start + 1) as nat) + ", column "@ + decimal(
                (found.column + 1) as nat,
            ) + "."@,
        ),
{
    reveal(crate::grid::without_hidden);
    crate::edits::lemma_commit_frame(old(document)@);
}

/// What is said once a file is saved names it, as saved or as saved under another name.
pub proof fn lemma_save_is_told(
    workspace: &mut Workspace,
    document: Document,
    in_place: bool,
    path: &str,
    result: (bool, Option<Document>),
)
    requires
        call_ensures(Workspace::saved, (workspace, Ok(document), in_place, path), result),
    ensures
        final(workspace)@.footer_status matches Some(status) && status.severity == MessageSeverity::Status && status.text
            == if in_place {
            "Saved "@ + path@ + "."@
        } else {
            "Saved as "@ + path@ + "."@
        },
{
}

/// What is said of a row that is not known yet names it, counted from one, and how many there are.
pub proof fn lemma_unknown_row_is_told(document: &mut Document, requested: u64, message: String)
    requires
        old(document).wf(),
        crate::browsing::at_rest(old(document)@),
        old(document)@.grid.data_start <= requested,
        requested >= rows_known(old(document)@),
        requested - old(document)@.grid.data_start < u64::MAX,
        call_ensures(Document::navigate, (document, requested), Err(message)),
    ensures
        message@ == "Data row "@ + decimal((requested - old(document)@.grid.data_start + 1) as nat)
            + " is not indexed yet ("@ + decimal(
            most(0, rows_known(old(document)@) - old(document)@.grid.data_start) as nat,
        ) + " available)."@,
{
    crate::browsing::lemma_rest(old(document)@);
}

/// A whole number of kibibytes, mebibytes or gibibytes is given as that number of them.
pub proof fn lemma_whole_units_in_words(
    count: u64,
    kibibytes: String,
    mebibytes: String,
    gibibytes: String,
)
    requires
        1 <= count < 1024,
        call_ensures(crate::bytes::format_bytes, ((count * 0x400) as u64,), kibibytes),
        call_ensures(crate::bytes::format_bytes, ((count * 0x10_0000) as u64,), mebibytes),
        call_ensures(crate::bytes::format_bytes, ((count * 0x4000_0000) as u64,), gibibytes),
    ensures
        kibibytes@ == decimal(count as nat) + ".00 KiB"@,
        mebibytes@ == decimal(count as nat) + ".00 MiB"@,
        gibibytes@ == decimal(count as nat) + ".00 GiB"@,
{
    lemma_whole_size(count as nat, 0x400);
    lemma_whole_size(count as nat, 0x10_0000);
    lemma_whole_size(count as nat, 0x4000_0000);
    reveal_strlit(".00 KiB");
    reveal_strlit(".00 MiB");
    reveal_strlit(".00 GiB");
    reveal_strlit("KiB");
    reveal_strlit("MiB");
    reveal_strlit("GiB");
    reveal_strlit(".");
    reveal_strlit(" ");
    assert((100 * count) / 100 == count);
    assert((100 * count) % 10 == 0);
    assert((100 * count) / 10 % 10 == 0);
    assert(kibibytes@ =~= decimal(count as nat) + ".00 KiB"@);
    assert(mebibytes@ =~= decimal(count as nat) + ".00 MiB"@);
    assert(gibibytes@ =~= decimal(count as nat) + ".00 GiB"@);
}

proof fn lemma_whole_size(count: nat, size: nat)
    requires
        1 <= count < 1024,
        size == 0x400 || size == 0x10_0000 || size == 0x4000_0000,
    ensures
        crate::bytes::hundredths(count * size) == 100 * count,
        crate::bytes::unit_size(crate::bytes::unit(count * size)) == size,
{
    let value = count * size;
    assert(size <= value < 1024 * size) by (nonlinear_arith)
        requires
            value == count * size,
            1 <= count < 1024,
            size > 0,
    ;
    assert(crate::bytes::spacing(value) == 1);
    assert(crate::bytes::rounded(value, 1) == value);
    assert(crate::bytes::double(value) == value);
    assert(100 * value == (100 * count) * size) by (nonlinear_arith)
        requires
            value == count * size,
    ;
    vstd::arithmetic::div_mod::lemma_div_multiples_vanish((100 * count) as int, size as int);
    vstd::arithmetic::div_mod::lemma_mod_multiples_basic((100 * count) as int, size as int);
    vstd::arithmetic::mul::lemma_mul_is_commutative((100 * count) as int, size as int);
}

/// A file name without an extension gets the word at its end; a path that names no file a name of its
/// own.
pub proof fn lemma_proposed_names_without_extension(source: &str, empty: &str, exports: (String, String), copies: (String, String))
    requires
        source@.len() > 0,
        lacks(source@, '/'),
        lacks(source@, '.'),
        empty@.len() == 0,
        call_ensures(filtered_export_file_name, (source,), exports.0),
        call_ensures(save_as_file_name, (source,), copies.0),
        call_ensures(filtered_export_file_name, (empty,), exports.1),
        call_ensures(save_as_file_name, (empty,), copies.1),
    ensures
        exports.0@ == source@ + "-filtered"@,
        copies.0@ == source@ + "-edited"@,
        exports.1@ == "export"@ + "-filtered"@,
        copies.1@ == "edited"@ + "-edited"@,
{
    lemma_no_last_place(source@, '/');
    lemma_no_last_place(source@, '.');
    lemma_no_last_place(empty@, '/');
    assert(source@[source@.len() - 1] == source@.last());
    assert(without_trailing_parts(source@) == source@);
    assert(source@[0] != '.');
}

/// A field takes up at most twice its bytes in a file, and two quotes around them.
pub proof fn lemma_room_for_a_field(value: &[u8], bound: u64)
    requires
        value@.len() < 0x4000_0000_0000_0000,
        call_ensures(crate::space::serialized_field_upper_bound, (value,), bound),
    ensures
        bound == 2 * value@.len() + 2,
{
}

/// The names of the columns of a dialog follow each other in their order, each with its number,
/// counted from one.
pub proof fn lemma_dialog_names_its_columns(
    document: &Document,
    columns: &Vec<usize>,
    more: &Vec<usize>,
    last: &Vec<usize>,
    names: String,
    longer: String,
    name: String,
)
    requires
        columns@.len() > 0,
        last@.len() == 1,
        last@[0] < usize::MAX,
        more@ == columns@.push(last@[0]),
        call_ensures(Document::dialog_columns, (document, columns), names),
        call_ensures(Document::dialog_columns, (document, more), longer),
        call_ensures(Document::dialog_columns, (document, last), name),
    ensures
        longer@ == names@ + ", "@ + name@,
        starts(name@, decimal((last@[0] + 1) as nat)),
{
    lemma_same_names(document@, columns@, more@, columns@.len() as int);
    let number = decimal((last@[0] + 1) as nat);
    assert(name@.take(number.len() as int) =~= number);
}

proof fn lemma_same_names(document: crate::document::DocumentView, columns: Seq<usize>, more: Seq<usize>, count: int)
    requires
        count <= columns.len() <= more.len(),
        forall|i: int| 0 <= i < columns.len() ==> columns[i] == more[i],
    ensures
        crate::dialogs::numbered_names(document, columns, count) == crate::dialogs::numbered_names(document, more, count),
    decreases count,
{
    if count > 1 {
        lemma_same_names(document, columns, more, count - 1);
    }
}

/// A file can be read in another format where one was chosen and no change is lost.
pub proof fn lemma_format_can_be_changed(document: &Document, changed: bool, hint: Option<&'static str>)
    requires
        document@.edits.header_edit is None,
        document@.edits.cell_edit is None,
        call_ensures(Document::reopen_hint, (document, changed), hint),
    ensures
        hint is None <==> changed && can_be_left(document@),
{
    crate::browsing::lemma_rest(document@);
    crate::change_laws::lemma_no_entries(document@.edits.renames);
    crate::change_laws::lemma_no_entries(document@.edits.cells);
}

/// The scroll bar tells which row is at the top of the page, counted from one, and of how many.
pub proof fn lemma_scroll_bar_counts_rows(document: &Document, label: String, hint: String, total: u64, first: u64)
    requires
        document@.filter.query is None,
        call_ensures(Document::scroll_label, (document,), label),
        call_ensures(Document::scroll_hint, (document,), hint),
        call_ensures(Document::grid_total_rows, (document,), total),
        call_ensures(Document::display_start, (document,), first),
        total > 0,
    ensures
        label@ == "Vertical scroll, row "@ + decimal(first as nat) + " of "@ + decimal(total as nat),
        hint@ == "Row "@ + decimal(first as nat) + " of "@ + decimal(total as nat),
{
}

/// The state of the index is told: that the file has changed, that there is none, that it was
/// cancelled, that it is being made, or that it is complete, in this order.
pub proof fn lemma_index_is_told(document: &Document, status: &'static str, idle: Option<&'static str>)
    requires
        call_ensures(Document::index_status, (document,), status),
        call_ensures(Document::idle_status, (document,), idle),
    ensures
        ({
            let index = document@.index;
            let there = index.running || index.indexed_rows is Some;
            &&& document@.source_changed ==> status@ == "Source changed"@ && idle is None
            &&& !document@.source_changed && !there ==> status@ == "Index failed"@ && idle is None
            &&& !document@.source_changed && there && index.progress.cancelled ==> status@ == "Index cancelled"@
            &&& !document@.source_changed && there && !index.progress.cancelled && index.running ==> status@
                == "Indexing"@
            &&& !document@.source_changed && there && !index.progress.cancelled && !index.running ==> status@
                == "Index complete"@
            &&& !document@.source_changed && there ==> (idle matches Some(words) && words@ == status@)
        }),
{
}

/// The button for filters counts the rules of the filter that is applied.
pub proof fn lemma_filter_button_counts_rules(query: &FilterQuery, label: String, plain: String)
    requires
        call_ensures(crate::dialogs::filter_button_label, (Some(query),), label),
        call_ensures(crate::dialogs::filter_button_label, (None,), plain),
    ensures
        label@ == "Filters ("@ + decimal(query.predicates@.len()) + ")…"@,
        plain@ == "Filters…"@,
{
    assert(query@.predicates.len() == query.predicates@.len());
}

/// The status bar counts the selected rows, and the selected columns where no row is selected.
pub proof fn lemma_selection_is_counted(document: &Document, words: Option<String>)
    requires
        document@.selection.rows.rows.len() <= u64::MAX,
        call_ensures(Document::selection_count_text, (document,), words),
    ensures
        ({
            let rows = document@.selection.rows.rows.len();
            let columns = document@.selection.columns.len();
            &&& words is None <==> rows == 0 && columns == 0
            &&& rows > 0 ==> starts(words->0@, decimal(rows) + " row"@)
            &&& rows == 0 && columns > 0 ==> starts(words->0@, decimal(columns) + " column"@)
        }),
{
    let rows = document@.selection.rows.rows.len();
    let columns = document@.selection.columns.len();
    if rows > 0 {
        let start = decimal(rows) + " row"@;
        assert(words->0@.take(start.len() as int) =~= start);
    } else if columns > 0 {
        let start = decimal(columns) + " column"@;
        assert(words->0@.take(start.len() as int) =~= start);
    }
}

/// The text of one field of a row is that field, where it is text and there is room for it.
pub proof fn lemma_field_of_a_row_is_copied(
    fields: &[Vec<u8>],
    row: u64,
    column: usize,
    max_bytes: usize,
    result: Result<String, String>,
)
    requires
        column < fields@.len(),
        max_bytes < usize::MAX,
        call_ensures(
            crate::clipboard::selection_fields_text,
            (fields, GridSelection::Cell { row, column }, max_bytes),
            result,
        ),
    ensures
        result is Ok <==> valid_utf8(fields@[column as int]@) && fields@[column as int]@.len() <= max_bytes,
        result matches Ok(copied) ==> encode_utf8(copied@) == fields@[column as int]@,
{
    let cells = crate::model::cells_of(fields@);
    let cell = fields@[column as int]@;
    assert(cells.len() == fields@.len());
    assert(cells[column as int] == cell);
    if valid_utf8(cell) {
        decode_utf8_encode_utf8(cell);
        assert(Seq::<char>::empty() + decode_utf8(cell) =~= decode_utf8(cell));
        crate::clipboard::lemma_size_sum(Seq::empty(), decode_utf8(cell));
    }
}

/// The text of a row, read as one record of tab-separated text, gives back the texts of its fields.
pub proof fn lemma_fields_of_a_row_are_copied(
    fields: &[Vec<u8>],
    row: u64,
    max_bytes: usize,
    copied: String,
    column: usize,
)
    requires
        column < fields@.len(),
        call_ensures(
            crate::clipboard::selection_fields_text,
            (fields, GridSelection::Row { row }, max_bytes),
            Ok::<String, String>(copied),
        ),
    ensures
        record(copied@).len() == fields@.len(),
        record(copied@)[column as int] == decode_utf8(fields@[column as int]@),
{
    let cells = crate::model::cells_of(fields@);
    assert(cells.len() == fields@.len());
    assert(cells[column as int] == fields@[column as int]@);
    lemma_row_text_reads_back(cells);
    assert(field_texts(cells, cells.len() as int)[column as int] == decode_utf8(cells[column as int]));
}

} // verus!
