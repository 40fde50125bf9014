//! One-based row, column and position numbers as a user types them.

use crate::text::{self, decimal, parsed, trimmed};
use vstd::prelude::*;
use vstd::string::*;

verus! {

/// The smaller of the sum and `u64::MAX`.
pub open spec fn capped_sum(one: int, other: int) -> int {
    if one + other <= u64::MAX {
        one + other
    } else {
        u64::MAX as int
    }
}

/// The row of the file that a data row number names, counted from the first data row.
pub fn parse_data_row(value: &str, data_start: u64) -> (result: Result<u64, String>)
    ensures
        match parsed(trimmed(value@), u64::MAX as nat) {
            None => result matches Err(message) && message@ == "Data row must be a positive whole number."@,
            Some(written) if written == 0 => result matches Err(message) && message@ == "Data rows start at 1."@,
            Some(row) => result matches Ok(found) && found == capped_sum(data_start as int, row - 1),
        },
{
    let trimmed_value = text::trim(value);
    match text::parse_number(trimmed_value.as_str(), u64::MAX) {
        None => Err("Data row must be a positive whole number.".to_owned()),
        Some(row) => if row == 0 {
            Err("Data rows start at 1.".to_owned())
        } else {
            Ok(data_start.saturating_add(row - 1))
        },
    }
}

/// The column that a file column number names.
pub fn parse_file_column(value: &str, total_columns: usize) -> (result: Result<usize, String>)
    ensures
        match parsed(trimmed(value@), usize::MAX as nat) {
            None => result matches Err(message) && message@ == "File column must be a positive whole number."@,
            Some(written) if written == 0 => result matches Err(message) && message@ == "File columns start at 1."@,
            Some(column) => if column <= total_columns {
                result matches Ok(found) && found == column - 1
            } else if total_columns == 0 {
                result matches Err(message) && message@ == "This file has no columns."@
            } else {
                result matches Err(message) && message@ == "File column must be between 1 and "@ + decimal(
                    total_columns as nat,
                ) + "."@
            },
        },
{
    let trimmed_value = text::trim(value);
    match text::parse_number(trimmed_value.as_str(), usize::MAX as u64) {
        None => Err("File column must be a positive whole number.".to_owned()),
        Some(column) => {
            let column: usize = column as usize;
            if column == 0 {
                Err("File columns start at 1.".to_owned())
            } else if column > total_columns {
                if total_columns == 0 {
                    Err("This file has no columns.".to_owned())
                } else {
                    Err(
                        "File column must be between 1 and ".to_owned().concat(
                            text::count(total_columns).as_str(),
                        ).concat("."),
                    )
                }
            } else {
                Ok(column - 1)
            }
        },
    }
}

/// Why a typed place cannot be used for a move of so many columns.
pub open spec fn move_position_error(value: Seq<char>, total_columns: usize, selected_columns: nat) -> Option<Seq<char>> {
    if selected_columns == 0 {
        Some("Select at least one numbered column first."@)
    } else if selected_columns > total_columns {
        Some("A selected column is outside this file."@)
    } else {
        let maximum = (total_columns - selected_columns + 1) as nat;
        match parsed(trimmed(value), usize::MAX as nat) {
            None => Some("Destination position must be a positive whole number."@),
            Some(position) => if position == 0 {
                Some("Destination positions start at 1."@)
            } else if position > maximum {
                Some("Destination position must be between 1 and "@ + decimal(maximum) + "."@)
            } else {
                None
            },
        }
    }
}

/// The place among the columns that stay, before which moved columns are put.
pub fn parse_move_position(value: &str, total_columns: usize, selected_columns: usize) -> (result: Result<usize, String>)
    ensures
        match result {
            Ok(found) => move_position_error(value@, total_columns, selected_columns as nat) is None && parsed(
                trimmed(value@),
                usize::MAX as nat,
            ) == Some((found + 1) as nat),
            Err(message) => move_position_error(value@, total_columns, selected_columns as nat) == Some(message@),
        },
{
    if selected_columns == 0 {
        return Err("Select at least one numbered column first.".to_owned());
    }
    if selected_columns > total_columns {
        return Err("A selected column is outside this file.".to_owned());
    }
    let trimmed_value = text::trim(value);
    let position: usize = match text::parse_number(trimmed_value.as_str(), usize::MAX as u64) {
        None => {
            return Err("Destination position must be a positive whole number.".to_owned());
        },
        Some(position) => position as usize,
    };
    if position == 0 {
        return Err("Destination positions start at 1.".to_owned());
    }
    let maximum: usize = total_columns - selected_columns + 1;
    if position > maximum {
        return Err(
            "Destination position must be between 1 and ".to_owned().concat(text::count(maximum).as_str()).concat("."),
        );
    }
    Ok(position - 1)
}

/// A number that is written without white space around it is read as it stands.
pub proof fn lemma_number_is_trimmed(value: nat)
    ensures
        trimmed(decimal(value)) == decimal(value),
{
    text::lemma_decimal(value);
    let written = decimal(value);
    assert(text::is_digit(written[0]));
    assert(text::is_digit(written[written.len() - 1]));
    assert(written.last() == written[written.len() - 1]);
}

/// Row, column and position numbers are read back as what they were written for: one more than
/// the place that they name.
pub proof fn lemma_one_based(place: nat, limit: nat)
    requires
        place + 1 <= limit,
    ensures
        parsed(trimmed(decimal(place + 1)), limit) == Some(place + 1),
{
    lemma_number_is_trimmed(place + 1);
    text::lemma_decimal_parses(place + 1, limit);
}

} // verus!
