//! The flat boards API: what a board request carries and how its failures
//! are answered.

use vstd::prelude::*;

use crate::text::{chars_of, concat3, find_seq, vec_find};

verus! {

/// Body of `POST /api/boards`.
#[derive(Debug, Clone, PartialEq, Eq)]
pub struct CreateBoardRequest {
    pub name: String,
}

/// Status of a refused board deletion: 404 when the store's message says
/// the board was not found, 400 otherwise.
pub open spec fn delete_board_status_of(message: Seq<char>) -> u16 {
    if find_seq(message, "not found"@) is Some {
        404
    } else {
        400
    }
}

/// HTTP status answering a failed `DELETE /api/boards/:bid`.
pub fn delete_board_error_status(message: &str) -> (s: u16)
    ensures
        s == delete_board_status_of(message@),
{
    let m = chars_of(message);
    let p = chars_of("not found");
    match vec_find(&m, &p) {
        Some(_) => 404,
        None => 400,
    }
}

/// Message for a board id the project does not have.
pub open spec fn board_not_found_text(board_id: Seq<char>) -> Seq<char> {
    "board '"@ + board_id + "' not found"@
}

/// The 404 message for an unknown board (`board '<id>' not found`).
pub fn board_not_found_message(board_id: &str) -> (m: String)
    ensures
        m@ == board_not_found_text(board_id@),
{
    concat3("board '", board_id, "' not found")
}

} // verus!
