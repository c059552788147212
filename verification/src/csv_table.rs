//! The CSV transition-table loader.
//!
//! A CSV source hands over its header and its data rows as plain strings.
//! The header must be exactly `lhs_state,input,rhs_state,replacement,
//! direction`.  Loading is all or nothing: the first malformed or invalid
//! data row aborts the whole load with a descriptive error and zero
//! transitions, in contrast to the interactive loader's per-entry recovery.

use vstd::prelude::*;
use crate::table::{
    EntryError, RawEntry, RawEntryModel, Transition, TransitionModel, check_entry,
    transitions_model, validate_entry,
};

verus! {

/// Why one CSV data row was rejected.
#[derive(Clone, Copy, Debug, PartialEq, Eq, Structural)]
pub enum RowCause {
    /// The row does not have exactly five fields.
    WrongFieldCount,
    /// The row's fields fail entry validation.
    Invalid(EntryError),
}

/// Why a CSV table load was aborted.
#[derive(Clone, Copy, Debug, PartialEq, Eq, Structural)]
pub enum CsvError {
    /// The header row is not exactly
    /// `lhs_state,input,rhs_state,replacement,direction`.
    InvalidHeader,
    /// The data row at `index` is malformed or invalid; nothing is loaded.
    BadRow { index: usize, cause: RowCause },
}

/// The only header a CSV transition table may carry.
pub open spec fn header_spec() -> Seq<Seq<char>> {
    seq!["lhs_state"@, "input"@, "rhs_state"@, "replacement"@, "direction"@]
}

/// Whether a header matches the required one exactly.
pub open spec fn header_ok(header: Seq<Seq<char>>) -> bool {
    header == header_spec()
}

/// The raw entry a five-field data row spells.
pub open spec fn entry_of_row(row: Seq<Seq<char>>) -> RawEntryModel {
    RawEntryModel {
        lhs_state: row[0],
        lhs_symbol: row[1],
        rhs_state: row[2],
        rhs_symbol: row[3],
        direction: row[4],
    }
}

/// The validation rule for one data row: five fields, then entry validation
/// against the track width.
pub open spec fn row_check(row: Seq<Seq<char>>, tracks: nat) -> Result<TransitionModel, RowCause> {
    if row.len() != 5 {
        Err(RowCause::WrongFieldCount)
    } else {
        match check_entry(entry_of_row(row), tracks) {
            Ok(t) => Ok(t),
            Err(e) => Err(RowCause::Invalid(e)),
        }
    }
}

/// Whether `header` is exactly the required CSV header.
pub fn csv_header_valid(header: &Vec<String>) -> (r: bool)
    ensures
        r == header_ok(header.deep_view()),
{
    if header.len() != 5 {
        proof {
            assert(header.deep_view().len() != header_spec().len());
        }
        return false;
    }
    let names = ["lhs_state", "input", "rhs_state", "replacement", "direction"];
    let mut i: usize = 0;
    while i < 5
        invariant
            i <= 5,
            header@.len() == 5,
            names@.len() == 5,
            names@ =~= seq!["lhs_state", "input", "rhs_state", "replacement", "direction"],
            forall|j: int| 0 <= j < i ==> header.deep_view()[j] == header_spec()[j],
        decreases 5 - i,
    {
        let expected: String = names[i].to_owned();
        if !(header[i] == expected) {
            proof {
                assert(header.deep_view()[i as int] == header@[i as int]@);
                assert(header.deep_view()[i as int] != header_spec()[i as int]);
            }
            return false;
        }
        proof {
            assert(header.deep_view()[i as int] == header@[i as int]@);
        }
        i = i + 1;
    }
    proof {
        assert(header.deep_view() =~= header_spec());
    }
    true
}

/// Builds a transition table from a CSV header and its data rows, all or
/// nothing: a wrong header, or a first malformed or invalid data row,
/// aborts the load with zero transitions.
pub fn build_transition_table_csv(
    header: &Vec<String>,
    rows: &Vec<Vec<String>>,
    tracks: usize,
) -> (r: Result<Vec<Transition>, CsvError>)
    ensures
        match r {
            Ok(ts) => {
                &&& header_ok(header.deep_view())
                &&& transitions_model(ts@).len() == rows@.len()
                &&& forall|j: int|
                    0 <= j < rows@.len() ==> row_check(
                        #[trigger] rows.deep_view()[j],
                        tracks as nat,
                    ) == Ok::<TransitionModel, RowCause>(transitions_model(ts@)[j])
            },
            Err(e) => match e {
                CsvError::InvalidHeader => !header_ok(header.deep_view()),
                CsvError::BadRow { index, cause } => {
                    &&& header_ok(header.deep_view())
                    &&& index < rows@.len()
                    &&& row_check(rows.deep_view()[index as int], tracks as nat) == Err::<
                        TransitionModel,
                        RowCause,
                    >(cause)
                    &&& forall|j: int|
                        0 <= j < index ==> row_check(#[trigger] rows.deep_view()[j], tracks as nat)
                            is Ok
                },
            },
        },
{
    if !csv_header_valid(header) {
        return Err(CsvError::InvalidHeader);
    }
    let mut table: Vec<Transition> = Vec::new();
    let mut i: usize = 0;
    while i < rows.len()
        invariant
            i <= rows@.len(),
            header_ok(header.deep_view()),
            transitions_model(table@).len() == i,
            forall|j: int|
                0 <= j < i ==> row_check(#[trigger] rows.deep_view()[j], tracks as nat) == Ok::<
                    TransitionModel,
                    RowCause,
                >(transitions_model(table@)[j]),
        decreases rows.len() - i,
    {
        let ghost row_model = rows.deep_view()[i as int];
        proof {
            assert(row_model == rows@[i as int].deep_view());
        }
        let row = &rows[i];
        if row.len() != 5 {
            return Err(CsvError::BadRow { index: i, cause: RowCause::WrongFieldCount });
        }
        let entry = RawEntry {
            lhs_state: row[0].clone(),
            lhs_symbol: row[1].clone(),
            rhs_state: row[2].clone(),
            rhs_symbol: row[3].clone(),
            direction: row[4].clone(),
        };
        proof {
            assert(row_model[0] == row@[0]@);
            assert(row_model[1] == row@[1]@);
            assert(row_model[2] == row@[2]@);
            assert(row_model[3] == row@[3]@);
            assert(row_model[4] == row@[4]@);
            assert(entry@ == entry_of_row(row_model));
        }
        match validate_entry(&entry, tracks) {
            Ok(t) => {
                let ghost before = transitions_model(table@);
                table.push(t);
                proof {
                    assert(transitions_model(table@) =~= before.push(t@));
                }
            }
            Err(e) => {
                return Err(CsvError::BadRow { index: i, cause: RowCause::Invalid(e) });
            }
        }
        i = i + 1;
    }
    Ok(table)
}

} // verus!
