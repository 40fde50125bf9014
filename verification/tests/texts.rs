//! Numbers, names, sizes and cells as text.

use quarry::bytes::format_bytes;
use quarry::clipboard::{
    accessible_header_name, append_clipboard_field, ensure_copy_capacity, field_text, selection_fields_text,
};
use quarry::format::{
    compact_header_mode_label, detected_delimiter_label, header_mode_label, DelimiterMode, HeaderMode,
};
use quarry::literal::{literal_contains, literal_equals, replace_literal_all_with_case, CaseSensitivity};
use quarry::message::{AppMessage, MessageSeverity};
use quarry::names::{filtered_export_file_name, save_as_file_name};
use quarry::parse::{parse_data_row, parse_file_column, parse_move_position};
use quarry::rows::GridSelection;
use quarry::space::serialized_field_upper_bound;
use quarry::text::{parse_number, trim};
use std::path::Path;

#[test]
fn row_and_file_column_inputs_are_one_based() {
    assert_eq!(parse_data_row("1", 1).unwrap(), 1);
    assert_eq!(parse_data_row("100000000", 1).unwrap(), 100_000_000);
    assert_eq!(parse_data_row("0", 1).unwrap_err(), "Data rows start at 1.");
    assert_eq!(parse_file_column("40", 40).unwrap(), 39);
    assert_eq!(parse_file_column("0", 40).unwrap_err(), "File columns start at 1.");
    assert_eq!(
        parse_file_column("41", 40).unwrap_err(),
        "File column must be between 1 and 40."
    );
}

#[test]
fn typed_numbers_are_trimmed_and_checked() {
    assert_eq!(parse_data_row("  12\t", 0).unwrap(), 11);
    assert_eq!(parse_data_row("+3", 1).unwrap(), 3);
    for wrong in ["", " ", "-1", "+", "1.5", "1_000", "１", "18446744073709551616"] {
        assert_eq!(
            parse_data_row(wrong, 1).unwrap_err(),
            "Data row must be a positive whole number."
        );
    }
    assert_eq!(parse_data_row("18446744073709551615", 5).unwrap(), u64::MAX);
    assert_eq!(
        parse_file_column("x", 4).unwrap_err(),
        "File column must be a positive whole number."
    );
    assert_eq!(parse_file_column("1", 0).unwrap_err(), "This file has no columns.");
}

#[test]
fn a_place_to_move_columns_to_is_checked() {
    assert_eq!(parse_move_position(" 2 ", 5, 2).unwrap(), 1);
    assert_eq!(parse_move_position("4", 5, 2).unwrap(), 3);
    assert_eq!(
        parse_move_position("5", 5, 2).unwrap_err(),
        "Destination position must be between 1 and 4."
    );
    assert_eq!(
        parse_move_position("0", 5, 2).unwrap_err(),
        "Destination positions start at 1."
    );
    assert_eq!(
        parse_move_position("two", 5, 2).unwrap_err(),
        "Destination position must be a positive whole number."
    );
    assert_eq!(
        parse_move_position("1", 5, 0).unwrap_err(),
        "Select at least one numbered column first."
    );
    assert_eq!(
        parse_move_position("1", 5, 6).unwrap_err(),
        "A selected column is outside this file."
    );
}

#[test]
fn numbers_and_space_are_read_as_std_reads_them() {
    for word in [
        "", "0", "00", "7", "+7", "++7", "-7", " 7", "7 ", "18446744073709551615", "18446744073709551616", "9a",
    ] {
        assert_eq!(parse_number(word, u64::MAX), word.parse::<u64>().ok(), "{word:?}");
    }
    for word in ["", "  a b ", "\u{a0}x\u{2003}", "\u{85}\u{200b}y", "\u{1680}\u{3000}", "\u{feff}z"] {
        assert_eq!(trim(word), word.trim(), "{word:?}");
    }
}

#[test]
fn sizes_have_two_decimals() {
    let expected = |bytes: u64| {
        const UNITS: [&str; 5] = ["B", "KiB", "MiB", "GiB", "TiB"];
        let mut value = bytes as f64;
        let mut unit = 0;
        while value >= 1024.0 && unit < UNITS.len() - 1 {
            value /= 1024.0;
            unit += 1;
        }
        format!("{value:.2} {}", UNITS[unit])
    };
    for bytes in [
        0,
        1,
        1023,
        1024,
        1025,
        1029,
        1536,
        1_048_575,
        1_048_576,
        5_368_709_120,
        1_099_511_627_776,
        9_007_199_254_740_993,
        u64::MAX - 1024,
        u64::MAX,
    ] {
        assert_eq!(format_bytes(bytes), expected(bytes), "{bytes}");
    }
    assert_eq!(format_bytes(1536), "1.50 KiB");
}

#[test]
fn proposed_names_follow_the_file() {
    assert_eq!(filtered_export_file_name("/data/sales.csv"), "sales-filtered.csv");
    assert_eq!(filtered_export_file_name("/data/sales"), "sales-filtered");
    assert_eq!(filtered_export_file_name("/"), "export-filtered");
    assert_eq!(save_as_file_name("/data/sales.tsv"), "sales-edited.tsv");
    assert_eq!(save_as_file_name("/data/.hidden"), ".hidden-edited");
    assert_eq!(save_as_file_name(".."), "edited-edited");
    for path in [
        "/a/b.c", "b.c.d", "/a/.b", "/a/b.", "/", "", ".", "..", "/a/..", "/a/b/", "/a/b.x/.", "a/./", "x/y.z//", "./c.d",
    ] {
        let source = Path::new(path);
        let stem = source.file_stem().map_or("export".into(), |stem| stem.to_string_lossy());
        let expected = match source.extension() {
            Some(extension) => format!("{stem}-filtered.{}", extension.to_string_lossy()),
            None => format!("{stem}-filtered"),
        };
        assert_eq!(filtered_export_file_name(path), expected, "{path}");
    }
}

#[test]
fn formats_have_labels() {
    assert_eq!(
        DelimiterMode::all().map(|mode| mode.delimiter()),
        [None, Some(b','), Some(b'\t'), Some(b'|'), Some(b';')]
    );
    assert_eq!(DelimiterMode::Auto.label(), "Auto");
    assert_eq!(detected_delimiter_label(b'\t'), "Tab");
    assert_ne!(header_mode_label(HeaderMode::FirstRow), header_mode_label(HeaderMode::NoHeader));
    assert_ne!(
        compact_header_mode_label(HeaderMode::Auto),
        compact_header_mode_label(HeaderMode::FirstRow)
    );
}

#[test]
fn messages_keep_their_severity() {
    assert_eq!(AppMessage::error("a".into()).severity, MessageSeverity::Error);
    assert_eq!(AppMessage::warning("a".into()).severity, MessageSeverity::Warning);
    assert_eq!(AppMessage::status("a".into()).severity, MessageSeverity::Status);
    let message = AppMessage::new("text".into(), MessageSeverity::Warning);
    assert_eq!((message.text.as_str(), message.severity), ("text", MessageSeverity::Warning));
}

#[test]
fn selected_cells_and_rows_copy_full_bounded_text() {
    let fields = vec![vec![b'x'; 200], b"has\ttab".to_vec(), b"say \"hi\"".to_vec(), Vec::new()];
    let cell = GridSelection::Cell { row: 0, column: 0 };
    assert_eq!(selection_fields_text(&fields, cell, 200).unwrap(), "x".repeat(200));
    assert!(selection_fields_text(&fields, cell, 199).is_err());

    let selected_row = GridSelection::Row { row: 0 };
    assert_eq!(
        selection_fields_text(&fields, selected_row, 1024).unwrap(),
        format!("{}\t\"has\ttab\"\t\"say \"\"hi\"\"\"\t", "x".repeat(200))
    );

    let invalid = vec![vec![0xff]];
    assert!(selection_fields_text(&invalid, cell, 1024).is_err());
}

#[test]
fn what_does_not_fit_the_clipboard_is_refused() {
    let mut output = String::from("ab");
    assert!(ensure_copy_capacity(&output, 3, 5).is_ok());
    assert_eq!(
        ensure_copy_capacity(&output, 4, 5).unwrap_err(),
        "Copy exceeds the 5.00 B clipboard limit."
    );
    assert!(append_clipboard_field(&mut output, b"c\"d", true, 100).is_ok());
    assert_eq!(output, "ab\"c\"\"d\"");
    assert_eq!(
        append_clipboard_field(&mut output, b"xyz", false, 9).unwrap_err(),
        "Copy exceeds the 9.00 B clipboard limit."
    );
}

#[test]
fn cells_are_shown_on_one_line() {
    assert_eq!(field_text(b"line one\nline two\r\t!"), "line one\\nline two\\r\t!");
    assert_eq!(field_text(b"a\xffb"), "a\u{fffd}b");
    assert_eq!(field_text(&[b'x'; 120]), "x".repeat(120));
    assert_eq!(field_text(&[b'x'; 121]), format!("{}...", "x".repeat(117)));
    assert_eq!(accessible_header_name(""), "unnamed header");
    assert_eq!(accessible_header_name("city"), "city");
}

#[test]
fn letters_of_either_case_are_found() {
    assert!(literal_equals(b"Ada", b"aDA", CaseSensitivity::Insensitive));
    assert!(!literal_equals(b"Ada", b"aDA", CaseSensitivity::Sensitive));
    assert!(literal_contains(b"xxABxx", b"ab", CaseSensitivity::Insensitive));
    assert!(!literal_contains(b"xxABxx", b"ab", CaseSensitivity::Sensitive));
    assert_eq!(
        replace_literal_all_with_case(b"aAaA", b"aa", b"-", CaseSensitivity::Insensitive).unwrap(),
        b"--".to_vec()
    );
    assert_eq!(
        replace_literal_all_with_case(b"banana", b"an", b"<an>", CaseSensitivity::Sensitive).unwrap(),
        b"b<an><an>a".to_vec()
    );
    assert_eq!(replace_literal_all_with_case(b"banana", b"AN", b"x", CaseSensitivity::Sensitive), None);
    assert_eq!(replace_literal_all_with_case(b"banana", b"", b"x", CaseSensitivity::Sensitive), None);
}

#[test]
fn a_field_never_takes_more_room_than_allowed_for() {
    assert_eq!(serialized_field_upper_bound(b"plain"), 12);
    assert_eq!(serialized_field_upper_bound(b"a\"b\""), 10);
    assert_eq!(serialized_field_upper_bound(b""), 2);
}

/// The fields of a tab-separated record.
fn fields_of(record: &str) -> Vec<String> {
    let mut fields = vec![String::new()];
    let mut quoted = false;
    let mut characters = record.chars().peekable();
    while let Some(character) = characters.next() {
        let field = fields.last_mut().unwrap();
        match character {
            '"' if !quoted && field.is_empty() => quoted = true,
            '"' if quoted && characters.peek() == Some(&'"') => {
                characters.next();
                field.push('"');
            }
            '"' if quoted => quoted = false,
            '\t' if !quoted => fields.push(String::new()),
            _ => field.push(character),
        }
    }
    fields
}

#[test]
fn a_copied_row_reads_back_as_its_fields() {
    let cells = ["plain", "", "two\nlines", "a\ttab", "say \"hi\"", "\"", "é", "end\r"];
    let fields: Vec<Vec<u8>> = cells.iter().map(|cell| cell.as_bytes().to_vec()).collect();
    let copied = selection_fields_text(&fields, GridSelection::Row { row: 3 }, 1_000).unwrap();
    assert_eq!(fields_of(&copied), cells);
    for (column, cell) in cells.iter().enumerate() {
        let copied = selection_fields_text(&fields, GridSelection::Cell { row: 3, column }, 1_000).unwrap();
        assert_eq!(copied, *cell);
    }
    let beyond = GridSelection::Cell { row: 3, column: cells.len() };
    assert_eq!(selection_fields_text(&fields, beyond, 1_000).unwrap(), "");
    let size = copied.len();
    assert!(selection_fields_text(&fields, GridSelection::Row { row: 3 }, size).is_ok());
    assert!(selection_fields_text(&fields, GridSelection::Row { row: 3 }, size - 1).is_err());
}
