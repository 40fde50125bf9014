//! Cells as text: in the grid, and on the clipboard.

use crate::bytes::{self, size_text};
use crate::model::cells_of;
use crate::rows::GridSelection;
use crate::text;
use vstd::prelude::*;
use vstd::string::*;
use vstd::utf8::*;

verus! {

/// The most bytes that one copy may put on the clipboard.
pub const MAX_COPY_BYTES: usize = 67_108_864;

/// `text` with every line feed and carriage return written as an escape.
pub open spec fn escaped(text: Seq<char>) -> Seq<char>
    decreases text.len(),
{
    if text.len() == 0 {
        Seq::empty()
    } else {
        escaped(text.drop_last()) + if text.last() == '\n' {
            seq!['\\', 'n']
        } else if text.last() == '\r' {
            seq!['\\', 'r']
        } else {
            seq![text.last()]
        }
    }
}

/// `text` cut to 117 characters and three dots where it has more than 120.
pub open spec fn shortened(text: Seq<char>) -> Seq<char> {
    if text.len() <= 120 {
        text
    } else {
        text.take(117) + "..."@
    }
}

/// One line for the grid: escapes for line ends, cut where it is long.
pub fn rendered_text(decoded: &str) -> (line: String)
    ensures
        line@ == shortened(escaped(decoded@)),
{
    let mut line: Vec<char> = Vec::new();
    for character in iter: decoded.chars()
        invariant
            iter.seq() == decoded@,
            line@ == escaped(decoded@.take(iter.index())),
    {
        proof {
            let next = decoded@.take(iter.index() + 1);
            assert(next.drop_last() =~= decoded@.take(iter.index()));
            assert(next.last() == character);
        }
        if character == '\n' {
            line.push('\\');
            line.push('n');
        } else if character == '\r' {
            line.push('\\');
            line.push('r');
        } else {
            line.push(character);
        }
        proof {
            assert(line@ =~= escaped(decoded@.take(iter.index() + 1)));
        }
    }
    proof {
        assert(decoded@.take(decoded@.len() as int) =~= decoded@);
        assert(line@.subrange(0, line@.len() as int) =~= line@);
        if line@.len() > 120 {
            assert(line@.subrange(0, 117) =~= line@.take(117));
        }
    }
    if line.len() <= 120 {
        text::text_of(&line, 0, line.len())
    } else {
        text::text_of(&line, 0, 117).concat("...")
    }
}

/// A cell as one line for the grid.
pub fn field_text(field: &[u8]) -> (line: String)
    ensures
        line@ == shortened(escaped(text::lossy_text(field@))),
        valid_utf8(field@) ==> line@ == shortened(escaped(decode_utf8(field@))),
{
    let decoded = text::decode_lossy(field);
    rendered_text(decoded.as_str())
}

/// What a header is called where its name is read out.
pub fn accessible_header_name(name: &str) -> (spoken: &str)
    ensures
        spoken@ == if name@.len() == 0 { "unnamed header"@ } else { name@ },
{
    if name.is_empty() {
        "unnamed header"
    } else {
        name
    }
}

/// Characters that a field of tab-separated text holds only between quotes.
pub open spec fn needs_quotes(text: Seq<char>) -> bool {
    exists|i: int| 0 <= i < text.len() && breaks_field(#[trigger] text[i])
}

pub open spec fn breaks_field(character: char) -> bool {
    character == '\t' || character == '\r' || character == '\n' || character == '"'
}

/// `text` with every quote doubled.
pub open spec fn doubled_quotes(text: Seq<char>) -> Seq<char>
    decreases text.len(),
{
    if text.len() == 0 {
        Seq::empty()
    } else {
        doubled_quotes(text.drop_last()) + if text.last() == '"' {
            seq!['"', '"']
        } else {
            seq![text.last()]
        }
    }
}

/// The number of quotes in `text`.
pub open spec fn quotes(text: Seq<char>) -> nat
    decreases text.len(),
{
    if text.len() == 0 {
        0
    } else {
        quotes(text.drop_last()) + if text.last() == '"' {
            1nat
        } else {
            0
        }
    }
}

/// A field as it stands on the clipboard.
pub open spec fn clipboard_field(text: Seq<char>, quote_for_tsv: bool) -> Seq<char> {
    if quote_for_tsv && needs_quotes(text) {
        seq!['"'] + doubled_quotes(text) + seq!['"']
    } else {
        text
    }
}

/// The number of bytes that a text takes up.
pub open spec fn size(text: Seq<char>) -> nat {
    encode_utf8(text).len()
}

/// Whether `added` bytes more than `used` are over the limit. No copy is over the largest limit.
pub open spec fn over_limit(used: nat, added: nat, max_bytes: usize) -> bool {
    used + added > max_bytes && max_bytes < usize::MAX
}

pub open spec fn not_utf8() -> Seq<char> {
    "The selected data is not valid UTF-8 and cannot be copied yet."@
}

pub open spec fn over_limit_message(max_bytes: usize) -> Seq<char> {
    "Copy exceeds the "@ + size_text(max_bytes as nat) + " clipboard limit."@
}

/// An ASCII character takes up one byte.
proof fn lemma_ascii_size(character: char)
    requires
        (character as u32) < 0x80,
    ensures
        size(seq![character]) == 1,
{
    let one = seq![character];
    assert(one.drop_first() =~= Seq::empty());
    assert(encode_utf8(Seq::<char>::empty()) =~= Seq::empty());
    assert(encode_scalar(character as u32).len() == 1);
}

/// The sizes of two texts add up.
pub proof fn lemma_size_sum(one: Seq<char>, other: Seq<char>)
    ensures
        size(one + other) == size(one) + size(other),
{
    text::lemma_encode_concat(one, other);
}

/// Doubling the quotes adds one byte for each.
proof fn lemma_doubled_size(text: Seq<char>)
    ensures
        size(doubled_quotes(text)) == size(text) + quotes(text),
    decreases text.len(),
{
    if text.len() > 0 {
        let rest = text.drop_last();
        lemma_doubled_size(rest);
        let last = text.last();
        assert(rest + seq![last] =~= text);
        lemma_size_sum(rest, seq![last]);
        if last == '"' {
            lemma_ascii_size('"');
            lemma_size_sum(doubled_quotes(rest), seq!['"', '"']);
            lemma_size_sum(seq!['"'], seq!['"']);
            assert(seq!['"'] + seq!['"'] =~= seq!['"', '"']);
        } else {
            lemma_size_sum(doubled_quotes(rest), seq![last]);
        }
    } else {
        assert(doubled_quotes(text) =~= text);
    }
}

/// The number of bytes that a field adds to the clipboard.
pub proof fn lemma_field_size(text: Seq<char>, quote_for_tsv: bool)
    ensures
        size(clipboard_field(text, quote_for_tsv)) == size(text) + if quote_for_tsv && needs_quotes(text) {
            2 + quotes(text)
        } else {
            0
        },
{
    if quote_for_tsv && needs_quotes(text) {
        lemma_doubled_size(text);
        lemma_ascii_size('"');
        lemma_size_sum(seq!['"'], doubled_quotes(text));
        lemma_size_sum(seq!['"'] + doubled_quotes(text), seq!['"']);
    }
}

/// Fails where `added` bytes more would go over the limit.
pub fn ensure_copy_capacity(output: &str, added: usize, max_bytes: usize) -> (result: Result<(), String>)
    ensures
        match result {
            Ok(()) => !over_limit(size(output@), added as nat, max_bytes),
            Err(message) => over_limit(size(output@), added as nat, max_bytes) && message@ == over_limit_message(
                max_bytes,
            ),
        },
{
    if output.as_bytes().len().saturating_add(added) > max_bytes {
        Err(
            "Copy exceeds the ".to_owned().concat(bytes::format_bytes(max_bytes as u64).as_str()).concat(
                " clipboard limit.",
            ),
        )
    } else {
        Ok(())
    }
}

/// Appends a field, quoted for tab-separated text where that is asked for and needed.
pub fn append_clipboard_field(output: &mut String, field: &[u8], quote_for_tsv: bool, max_bytes: usize) -> (result: Result<
    (),
    String,
>)
    ensures
        ({
            let piece = clipboard_field(decode_utf8(field@), quote_for_tsv);
            match result {
                Ok(()) => valid_utf8(field@) && !over_limit(size(old(output)@), size(piece), max_bytes) && final(output)@
                    == old(output)@ + piece,
                Err(message) => final(output)@ == old(output)@ && if valid_utf8(field@) {
                    over_limit(size(old(output)@), size(piece), max_bytes) && message@ == over_limit_message(max_bytes)
                } else {
                    message@ == not_utf8()
                },
            }
        }),
{
    let decoded = match text::decode_strict(field) {
        Some(decoded) => decoded,
        None => {
            return Err("The selected data is not valid UTF-8 and cannot be copied yet.".to_owned());
        },
    };
    let ghost all = decoded@;
    let mut special = false;
    let mut quote_count: usize = 0;
    proof {
        lemma_quotes_bound(all);
        assert(all == decode_utf8(field@));
    }
    let byte_count: usize = decoded.as_str().as_bytes().len();
    for character in iter: decoded.as_str().chars()
        invariant
            iter.seq() == all,
            quotes(all) <= size(all) == byte_count,
            quote_count == quotes(all.take(iter.index())),
            special == exists|i: int| 0 <= i < iter.index() && breaks_field(#[trigger] all[i]),
    {
        proof {
            let next = all.take(iter.index() + 1);
            assert(next.drop_last() =~= all.take(iter.index()));
            assert(next.last() == character);
            lemma_quotes_grow(all, iter.index() + 1);
            assert(all[iter.index()] == character);
        }
        if character == '\t' || character == '\r' || character == '\n' || character == '"' {
            special = true;
        }
        if character == '"' {
            quote_count = quote_count + 1;
        }
    }
    proof {
        assert(all.take(all.len() as int) =~= all);
        lemma_field_size(all, quote_for_tsv);
    }
    let quoted = quote_for_tsv && special;
    let extra: usize = if quoted { quote_count.saturating_add(2) } else { 0 };
    let added: usize = byte_count.saturating_add(extra);
    match ensure_copy_capacity(output.as_str(), added, max_bytes) {
        Ok(()) => {},
        Err(message) => {
            return Err(message);
        },
    }
    let ghost before = output@;
    if quoted {
        output.push('"');
        for character in iter: decoded.as_str().chars()
            invariant
                iter.seq() == all,
                output@ == before + (seq!['"'] + doubled_quotes(all.take(iter.index()))),
        {
            proof {
                let next = all.take(iter.index() + 1);
                assert(next.drop_last() =~= all.take(iter.index()));
                assert(next.last() == character);
            }
            if character == '"' {
                output.push('"');
            }
            output.push(character);
            proof {
                assert(output@ =~= before + (seq!['"'] + doubled_quotes(all.take(iter.index() + 1))));
            }
        }
        output.push('"');
        proof {
            assert(output@ =~= before + clipboard_field(all, quote_for_tsv));
        }
    } else {
        output.append(decoded.as_str());
    }
    Ok(())
}

/// There are no more quotes in a text than bytes.
proof fn lemma_quotes_bound(text: Seq<char>)
    ensures
        quotes(text) <= size(text),
    decreases text.len(),
{
    if text.len() > 0 {
        let rest = text.drop_last();
        lemma_quotes_bound(rest);
        assert(rest + seq![text.last()] =~= text);
        lemma_size_sum(rest, seq![text.last()]);
        if text.last() == '"' {
            lemma_ascii_size('"');
        }
    }
}

proof fn lemma_quotes_grow(text: Seq<char>, count: int)
    requires
        0 <= count <= text.len(),
    ensures
        quotes(text.take(count)) <= quotes(text),
    decreases text.len(),
{
    if count == text.len() {
        assert(text.take(count) =~= text);
    } else {
        lemma_quotes_grow(text.drop_last(), count);
        assert(text.drop_last().take(count) =~= text.take(count));
    }
}

/// The first `count` fields of a row as tab-separated text.
pub open spec fn row_text(fields: Seq<Seq<u8>>, count: int) -> Seq<char>
    decreases count,
{
    if count <= 0 {
        Seq::empty()
    } else {
        let before = row_text(fields, count - 1);
        let piece = clipboard_field(decode_utf8(fields[count - 1]), true);
        if count == 1 {
            piece
        } else {
            before + seq!['\t'] + piece
        }
    }
}

/// The text of a selection within a row. A cell beyond the end of the row is empty.
pub open spec fn selected_text(fields: Seq<Seq<u8>>, selection: GridSelection) -> Seq<char> {
    match selection {
        GridSelection::Cell { column, .. } => if column < fields.len() {
            decode_utf8(fields[column as int])
        } else {
            Seq::empty()
        },
        GridSelection::Row { .. } => row_text(fields, fields.len() as int),
    }
}

/// Whether every field that a selection takes is valid UTF-8.
pub open spec fn selection_is_text(fields: Seq<Seq<u8>>, selection: GridSelection) -> bool {
    match selection {
        GridSelection::Cell { column, .. } => column < fields.len() ==> valid_utf8(fields[column as int]),
        GridSelection::Row { .. } => forall|i: int| 0 <= i < fields.len() ==> valid_utf8(#[trigger] fields[i]),
    }
}

/// More fields make a text at least as long.
proof fn lemma_row_text_grows(fields: Seq<Seq<u8>>, count: int, more: int)
    requires
        0 <= count <= more,
    ensures
        size(row_text(fields, count)) <= size(row_text(fields, more)),
    decreases more,
{
    if count < more {
        lemma_row_text_grows(fields, count, more - 1);
        lemma_row_text_step(fields, more);
    }
}

proof fn lemma_row_text_step(fields: Seq<Seq<u8>>, count: int)
    requires
        count > 0,
    ensures
        size(row_text(fields, count)) == size(row_text(fields, count - 1)) + size(
            clipboard_field(decode_utf8(fields[count - 1]), true),
        ) + if count == 1 {
            0int
        } else {
            1
        },
{
    let before = row_text(fields, count - 1);
    let piece = clipboard_field(decode_utf8(fields[count - 1]), true);
    if count == 1 {
        assert(size(before) == 0);
    } else {
        lemma_ascii_size('\t');
        lemma_size_sum(before, seq!['\t']);
        lemma_size_sum(before + seq!['\t'], piece);
    }
}

/// What appending a field to `before` gives: the longer text, or the message that says why not.
pub open spec fn appended(before: Seq<char>, field: Seq<u8>, quote_for_tsv: bool, max_bytes: usize) -> Result<
    Seq<char>,
    Seq<char>,
> {
    let piece = clipboard_field(decode_utf8(field), quote_for_tsv);
    if !valid_utf8(field) {
        Err(not_utf8())
    } else if over_limit(size(before), size(piece), max_bytes) {
        Err(over_limit_message(max_bytes))
    } else {
        Ok(before + piece)
    }
}

/// What copying the first `count` fields of a row gives: the text, or the message for the first
/// field at which the copy stops.
pub open spec fn copied_row(fields: Seq<Seq<u8>>, count: int, max_bytes: usize) -> Result<Seq<char>, Seq<char>>
    decreases count,
{
    if count <= 0 {
        Ok(Seq::empty())
    } else {
        match copied_row(fields, count - 1, max_bytes) {
            Err(message) => Err(message),
            Ok(before) => if count == 1 {
                appended(before, fields[count - 1], true, max_bytes)
            } else if over_limit(size(before), 1, max_bytes) {
                Err(over_limit_message(max_bytes))
            } else {
                appended(before + seq!['\t'], fields[count - 1], true, max_bytes)
            },
        }
    }
}

/// What copying a selection gives.
pub open spec fn copied_selection(fields: Seq<Seq<u8>>, selection: GridSelection, max_bytes: usize) -> Result<
    Seq<char>,
    Seq<char>,
> {
    match selection {
        GridSelection::Cell { column, .. } => if column < fields.len() {
            appended(Seq::empty(), fields[column as int], false, max_bytes)
        } else {
            Ok(Seq::empty())
        },
        GridSelection::Row { .. } => copied_row(fields, fields.len() as int, max_bytes),
    }
}

/// A copy that stops at a field stops for the whole row.
proof fn lemma_copy_stops(fields: Seq<Seq<u8>>, count: int, more: int, max_bytes: usize)
    requires
        0 <= count <= more,
        copied_row(fields, count, max_bytes) is Err,
    ensures
        copied_row(fields, more, max_bytes) == copied_row(fields, count, max_bytes),
    decreases more,
{
    if count < more {
        lemma_copy_stops(fields, count, more - 1, max_bytes);
    }
}

/// The text of the selected cell or row, where it is valid UTF-8 and within the limit.
pub fn selection_fields_text(fields: &[Vec<u8>], selection: GridSelection, max_bytes: usize) -> (result: Result<
    String,
    String,
>)
    ensures
        match result {
            Ok(copied) => copied_selection(cells_of(fields@), selection, max_bytes) == Ok::<Seq<char>, Seq<char>>(copied@),
            Err(message) => copied_selection(cells_of(fields@), selection, max_bytes) == Err::<Seq<char>, Seq<char>>(message@),
        },
        match result {
            Ok(copied) => selection_is_text(cells_of(fields@), selection) && copied@ == selected_text(cells_of(fields@), selection)
                && !over_limit(0, size(copied@), max_bytes),
            Err(message) => selection_is_text(cells_of(fields@), selection) ==> over_limit(
                0,
                size(selected_text(cells_of(fields@), selection)),
                max_bytes,
            ) && message@ == over_limit_message(max_bytes),
        },
{
    let mut output = String::new();
    proof {
        assert(size(Seq::<char>::empty()) == 0);
    }
    match selection {
        GridSelection::Cell { column, .. } => {
            if column < fields.len() {
                match append_clipboard_field(&mut output, fields[column].as_slice(), false, max_bytes) {
                    Ok(()) => {},
                    Err(message) => {
                        return Err(message);
                    },
                }
                proof {
                    assert(output@ =~= decode_utf8(cells_of(fields@)[column as int]));
                }
            }
            Ok(output)
        },
        GridSelection::Row { .. } => {
            for index in 0..fields.len()
                invariant
                    selection is Row,
                    output@ == row_text(cells_of(fields@), index as int),
                    copied_row(cells_of(fields@), index as int, max_bytes) == Ok::<Seq<char>, Seq<char>>(output@),
                    !over_limit(0, size(output@), max_bytes),
                    forall|i: int| 0 <= i < index ==> valid_utf8(#[trigger] cells_of(fields@)[i]),
            {
                let ghost before = output@;
                proof {
                    lemma_row_text_step(cells_of(fields@), index + 1);
                    lemma_row_text_grows(cells_of(fields@), index + 1, fields@.len() as int);
                    lemma_ascii_size('\t');
                    lemma_size_sum(before, seq!['\t']);
                }
                if index > 0 {
                    match ensure_copy_capacity(output.as_str(), 1, max_bytes) {
                        Ok(()) => {},
                        Err(message) => {
                            proof {
                                lemma_copy_stops(cells_of(fields@), index + 1, fields@.len() as int, max_bytes);
                            }
                            return Err(message);
                        },
                    }
                    output.push('\t');
                    assert(output@ =~= before + seq!['\t']);
                }
                let ghost start = output@;
                match append_clipboard_field(&mut output, fields[index].as_slice(), true, max_bytes) {
                    Ok(()) => {},
                    Err(message) => {
                        proof {
                            assert(!valid_utf8(cells_of(fields@)[index as int]) ==> !selection_is_text(cells_of(fields@), selection));
                            lemma_copy_stops(cells_of(fields@), index + 1, fields@.len() as int, max_bytes);
                        }
                        return Err(message);
                    },
                }
                proof {
                    let piece = clipboard_field(decode_utf8(cells_of(fields@)[index as int]), true);
                    lemma_size_sum(start, piece);
                    assert(output@ =~= row_text(cells_of(fields@), index + 1));
                }
            }
            Ok(output)
        },
    }
}

/// Where the reading of a tab-separated record stands.
pub enum Place {
    /// Before the first character of a field.
    FieldStart,
    /// In a field without quotes.
    Plain,
    /// Between the quotes of a field.
    Quoted,
    /// Behind a quote that ends the field, or is the first of two.
    QuoteSeen,
    /// Behind the line end that ends the record.
    Ended,
}

/// A tab-separated record that is read: the fields that are complete, and the one that is read.
#[verifier::ext_equal]
pub struct Reading {
    pub fields: Seq<Seq<char>>,
    pub field: Seq<char>,
    pub place: Place,
}

/// The reading of a record one character on. Between quotes, two quotes stand for one; outside of
/// them a tab ends the field, and a line end the record.
pub open spec fn read_on(before: Reading, character: char) -> Reading {
    match before.place {
        Place::Ended => before,
        Place::Quoted if character == '"' => Reading { place: Place::QuoteSeen, ..before },
        Place::Quoted => Reading { field: before.field.push(character), ..before },
        Place::FieldStart if character == '"' => Reading { place: Place::Quoted, ..before },
        Place::QuoteSeen if character == '"' => Reading {
            field: before.field.push('"'),
            place: Place::Quoted,
            ..before
        },
        _ => if character == '\t' {
            Reading {
                fields: before.fields.push(before.field),
                field: Seq::empty(),
                place: Place::FieldStart,
            }
        } else if character == '\n' || character == '\r' {
            Reading { place: Place::Ended, ..before }
        } else {
            Reading { field: before.field.push(character), place: Place::Plain, ..before }
        },
    }
}

/// The reading of a text from its start to its end.
pub open spec fn reading(text: Seq<char>) -> Reading
    decreases text.len(),
{
    if text.len() == 0 {
        Reading { fields: Seq::empty(), field: Seq::empty(), place: Place::FieldStart }
    } else {
        read_on(reading(text.drop_last()), text.last())
    }
}

/// The fields of a text that is read as one tab-separated record.
pub open spec fn record(text: Seq<char>) -> Seq<Seq<char>> {
    reading(text).fields.push(reading(text).field)
}

/// A field can end here, and the record goes on behind a tab.
spec fn field_ends(place: Place) -> bool {
    place is FieldStart || place is Plain || place is QuoteSeen
}

proof fn lemma_read_on(before: Seq<char>, character: char)
    ensures
        reading(before.push(character)) == read_on(reading(before), character),
{
    assert(before.push(character).drop_last() =~= before);
}

/// A field that needs no quotes is read as it stands.
proof fn lemma_read_plain(before: Seq<char>, text: Seq<char>)
    requires
        reading(before).place is FieldStart,
        reading(before).field.len() == 0,
        !needs_quotes(text),
    ensures
        reading(before + text) == (Reading {
            field: text,
            place: if text.len() == 0 {
                Place::FieldStart
            } else {
                Place::Plain
            },
            ..reading(before)
        }),
    decreases text.len(),
{
    if text.len() == 0 {
        assert(before + text =~= before);
        assert(reading(before).field =~= text);
    } else {
        let rest = text.drop_last();
        assert forall|i: int| 0 <= i < rest.len() implies !breaks_field(#[trigger] rest[i]) by {
            assert(text[i] == rest[i]);
        }
        lemma_read_plain(before, rest);
        assert(!breaks_field(text[text.len() - 1]));
        assert(before + text =~= (before + rest).push(text.last()));
        lemma_read_on(before + rest, text.last());
        assert(rest.push(text.last()) =~= text);
    }
}

/// What stands between quotes is read with its doubled quotes halved.
proof fn lemma_read_doubled(before: Seq<char>, text: Seq<char>)
    requires
        reading(before).place is Quoted,
        reading(before).field.len() == 0,
    ensures
        reading(before + doubled_quotes(text)) == (Reading { field: text, ..reading(before) }),
    decreases text.len(),
{
    if text.len() == 0 {
        assert(before + doubled_quotes(text) =~= before);
        assert(reading(before).field =~= text);
    } else {
        let rest = text.drop_last();
        let last = text.last();
        lemma_read_doubled(before, rest);
        let read = before + doubled_quotes(rest);
        assert(rest.push(last) =~= text);
        lemma_read_on(read, last);
        if last == '"' {
            assert(before + doubled_quotes(text) =~= read.push('"').push('"'));
            lemma_read_on(read.push('"'), '"');
        } else {
            assert(before + doubled_quotes(text) =~= read.push(last));
        }
    }
}

/// A field of the clipboard is read as the text that it was made from.
proof fn lemma_read_field(before: Seq<char>, text: Seq<char>)
    requires
        reading(before).place is FieldStart,
        reading(before).field.len() == 0,
    ensures
        ({
            let after = reading(before + clipboard_field(text, true));
            after.fields == reading(before).fields && after.field == text && field_ends(after.place)
        }),
{
    if needs_quotes(text) {
        let opened = before.push('"');
        lemma_read_on(before, '"');
        lemma_read_doubled(opened, text);
        let inside = opened + doubled_quotes(text);
        lemma_read_on(inside, '"');
        assert(before + clipboard_field(text, true) =~= inside.push('"'));
    } else {
        lemma_read_plain(before, text);
    }
}

/// The texts of the first `count` fields of a row.
pub open spec fn field_texts(fields: Seq<Seq<u8>>, count: int) -> Seq<Seq<char>> {
    Seq::new(count as nat, |i: int| decode_utf8(fields[i]))
}

proof fn lemma_read_row(fields: Seq<Seq<u8>>, count: int)
    requires
        count > 0,
    ensures
        ({
            let after = reading(row_text(fields, count));
            &&& after.fields == field_texts(fields, count - 1)
            &&& after.field == decode_utf8(fields[count - 1])
            &&& field_ends(after.place)
        }),
    decreases count,
{
    let text = decode_utf8(fields[count - 1]);
    if count == 1 {
        let nothing = Seq::<char>::empty();
        lemma_read_field(nothing, text);
        assert(nothing + clipboard_field(text, true) =~= clipboard_field(text, true));
        assert(field_texts(fields, 0) =~= Seq::empty());
    } else {
        lemma_read_row(fields, count - 1);
        let before = row_text(fields, count - 1);
        lemma_read_on(before, '\t');
        assert(before + seq!['\t'] =~= before.push('\t'));
        lemma_read_field(before.push('\t'), text);
        assert(field_texts(fields, count - 2).push(decode_utf8(fields[count - 2])) =~= field_texts(fields, count - 1));
    }
}

/// A row on the clipboard, read as one tab-separated record, gives back the texts of its fields:
/// none is cut, and none runs into another.
pub proof fn lemma_row_text_reads_back(fields: Seq<Seq<u8>>)
    requires
        fields.len() > 0,
    ensures
        record(row_text(fields, fields.len() as int)) == field_texts(fields, fields.len() as int),
{
    let count = fields.len() as int;
    lemma_read_row(fields, count);
    assert(field_texts(fields, count - 1).push(decode_utf8(fields[count - 1])) =~= field_texts(fields, count));
}

proof fn lemma_copied_row(fields: Seq<Seq<u8>>, count: int, max_bytes: usize)
    requires
        0 <= count,
        copied_row(fields, count, max_bytes) is Ok,
    ensures
        copied_row(fields, count, max_bytes)->Ok_0 == row_text(fields, count),
        forall|i: int| 0 <= i < count ==> valid_utf8(#[trigger] fields[i]),
        !over_limit(0, size(row_text(fields, count)), max_bytes),
    decreases count,
{
    if count > 0 {
        lemma_copied_row(fields, count - 1, max_bytes);
        let before = row_text(fields, count - 1);
        let piece = clipboard_field(decode_utf8(fields[count - 1]), true);
        lemma_row_text_step(fields, count);
        if count == 1 {
            assert(before + piece =~= piece);
            assert(size(before) == 0);
        } else {
            lemma_ascii_size('\t');
            lemma_size_sum(before, seq!['\t']);
        }
    } else {
        assert(size(Seq::<char>::empty()) == 0);
    }
}

/// A copied row, read as one tab-separated record, gives back exactly the bytes of its fields,
/// and is within the limit.
pub proof fn lemma_copied_row_reads_back(fields: Seq<Seq<u8>>, row: u64, max_bytes: usize, copied: Seq<char>)
    requires
        fields.len() > 0,
        copied_selection(fields, GridSelection::Row { row }, max_bytes) == Ok::<Seq<char>, Seq<char>>(copied),
    ensures
        record(copied).map_values(|field: Seq<char>| encode_utf8(field)) == fields,
        max_bytes < usize::MAX ==> size(copied) <= max_bytes,
{
    let count = fields.len() as int;
    lemma_copied_row(fields, count, max_bytes);
    lemma_row_text_reads_back(fields);
    let read = record(copied).map_values(|field: Seq<char>| encode_utf8(field));
    assert forall|i: int| 0 <= i < count implies read[i] == #[trigger] fields[i] by {
        decode_utf8_encode_utf8(fields[i]);
    }
    assert(read =~= fields);
}

/// A copied cell is exactly the bytes of its field, without quotes, or nothing where the row ends
/// before it, and is within the limit.
pub proof fn lemma_copied_cell_is_its_field(fields: Seq<Seq<u8>>, row: u64, column: usize, max_bytes: usize, copied: Seq<char>)
    requires
        copied_selection(fields, GridSelection::Cell { row, column }, max_bytes) == Ok::<Seq<char>, Seq<char>>(copied),
    ensures
        encode_utf8(copied) == if column < fields.len() {
            fields[column as int]
        } else {
            Seq::empty()
        },
        max_bytes < usize::MAX ==> size(copied) <= max_bytes,
{
    let nothing = Seq::<char>::empty();
    assert(size(nothing) == 0);
    assert(encode_utf8(nothing) =~= Seq::empty());
    if column < fields.len() {
        let field = fields[column as int];
        assert(nothing + decode_utf8(field) =~= decode_utf8(field));
        decode_utf8_encode_utf8(field);
    }
}

} // verus!
