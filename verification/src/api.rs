//! The web API's request and response types, and the decisions its
//! handlers make once the store and the directory have answered.

use vstd::prelude::*;
use crate::numfmt::{spec_udec, u64_to_string};

verus! {

/// An authorization check: which role ids are accepted, for the player with
/// this steamid.
#[derive(Debug, Clone)]
pub struct CheckSteamid {
    pub roles: Vec<i64>,
    pub steamid: i64,
}

/// A highscore lookup for one player on one track with one car.
#[derive(Debug, Clone)]
pub struct ScoreRequest {
    pub steamid: i64,
    pub track: String,
    pub car: String,
}

/// A highscore submission.
#[derive(Debug, Clone)]
pub struct InsertScoreRequest {
    pub steamid: i64,
    pub track: String,
    pub car: String,
    pub score: i64,
}

/// The body answering a highscore lookup.
#[derive(Debug, Clone)]
pub struct ScoreResponse {
    pub data: i64,
}

/// The body answering every other request: a status word and a message.
#[derive(Debug, Clone)]
pub struct DefaultResponse {
    pub status: String,
    pub message: String,
}

/// A stand-in rejection used while threading state through a filter chain.
#[derive(Debug, Clone)]
pub struct PlaceholderError {}

impl PlaceholderError {
    /// The fixed text this error displays as.
    pub fn message(&self) -> (r: String)
        ensures
            r@ == "Placeholder error"@,
    {
        String::from_str("Placeholder error")
    }
}

/// The greatest score a submission may carry; anything above is rejected.
pub const MAX_CUTUP_SCORE: i64 = 9999999;

/// How a highscore submission ended.
#[derive(Debug, Clone, Copy, PartialEq, Eq, Structural)]
pub enum InsertOutcome {
    /// The submitted score was over the accepted bound; nothing was stored.
    ScoreTooHigh,
    /// The store took the submission.
    Stored,
    /// The store failed.
    StoreFailed,
}

/// The kind of rejection a failed request ended in.
#[derive(Debug, Clone)]
pub enum RejectionKind {
    NotFound,
    Discord,
    Database(String),
    MethodNotAllowed,
    BadRequest,
    UnsupportedMediaType,
    Internal,
}

/// Whether the member holds any of the requested roles.  Requested role ids
/// arrive as signed integers and are compared by their unsigned value, as
/// the directory numbers roles.
pub open spec fn spec_any_role_held(requested: Seq<i64>, held: Seq<u64>) -> bool {
    exists|i: int| 0 <= i < requested.len() && held.contains(#[trigger] requested[i] as u64)
}

/// Whether `held` holds `role`.
fn contains_role(held: &Vec<u64>, role: u64) -> (b: bool)
    ensures
        b == held@.contains(role),
{
    let mut i: usize = 0;
    while i < held.len()
        invariant
            i <= held@.len(),
            forall|j: int| 0 <= j < i ==> held@[j] != role,
        decreases held@.len() - i,
    {
        if held[i] == role {
            return true;
        }
        i = i + 1;
    }
    false
}

/// Decides whether any requested role is held.
pub fn any_role_held(requested: &Vec<i64>, held: &Vec<u64>) -> (b: bool)
    ensures
        b == spec_any_role_held(requested@, held@),
{
    let mut i: usize = 0;
    while i < requested.len()
        invariant
            i <= requested@.len(),
            forall|j: int| 0 <= j < i ==> !held@.contains(#[trigger] requested@[j] as u64),
        decreases requested@.len() - i,
    {
        if contains_role(held, requested[i] as u64) {
            return true;
        }
        i = i + 1;
    }
    false
}

/// The body of the authorization answer: authorized only when the member
/// was resolved and holds one of the requested roles.
pub open spec fn spec_check_response(authorized: bool) -> (Seq<char>, Seq<char>) {
    if authorized {
        ("OK"@, "Authorized"@)
    } else {
        ("UNAUTHORIZED"@, "Not authorized"@)
    }
}

/// Answers the authorization check from the member's resolved roles
/// (`None` where the member could not be resolved) and the requested roles.
pub fn check_steamid_response(member_roles: &Option<Vec<u64>>, requested: &Vec<i64>) -> (r:
    DefaultResponse)
    ensures
        ({
            let authorized = match *member_roles {
                Some(held) => spec_any_role_held(requested@, held@),
                None => false,
            };
            r.status@ == spec_check_response(authorized).0 && r.message@ == spec_check_response(
                authorized,
            ).1
        }),
{
    let authorized = match member_roles {
        Some(held) => any_role_held(requested, held),
        None => false,
    };
    if authorized {
        DefaultResponse {
            status: String::from_str("OK"),
            message: String::from_str("Authorized"),
        }
    } else {
        DefaultResponse {
            status: String::from_str("UNAUTHORIZED"),
            message: String::from_str("Not authorized"),
        }
    }
}

/// Answers a highscore lookup: the stored best, or zero where the store had
/// no row to give.
pub fn fetch_score_response(score: Option<i64>) -> (r: ScoreResponse)
    ensures
        r.data == (match score {
            Some(s) => s,
            None => 0,
        }),
{
    match score {
        Some(s) => ScoreResponse { data: s },
        None => ScoreResponse { data: 0 },
    }
}

/// Whether a submitted score is within the accepted bound.
pub fn score_acceptable(score: i64) -> (b: bool)
    ensures
        b == (score <= MAX_CUTUP_SCORE),
{
    score <= MAX_CUTUP_SCORE
}

/// The words answering a highscore submission.
pub open spec fn spec_insert_response(outcome: InsertOutcome) -> (Seq<char>, Seq<char>) {
    match outcome {
        InsertOutcome::ScoreTooHigh => ("ERROR"@, "Score too high"@),
        InsertOutcome::Stored => ("OK"@, "Inserted"@),
        InsertOutcome::StoreFailed => ("ERROR"@, "Failed to insert"@),
    }
}

/// Answers a highscore submission.
pub fn insert_score_response(outcome: InsertOutcome) -> (r: DefaultResponse)
    ensures
        r.status@ == spec_insert_response(outcome).0,
        r.message@ == spec_insert_response(outcome).1,
{
    match outcome {
        InsertOutcome::ScoreTooHigh => DefaultResponse {
            status: String::from_str("ERROR"),
            message: String::from_str("Score too high"),
        },
        InsertOutcome::Stored => DefaultResponse {
            status: String::from_str("OK"),
            message: String::from_str("Inserted"),
        },
        InsertOutcome::StoreFailed => DefaultResponse {
            status: String::from_str("ERROR"),
            message: String::from_str("Failed to insert"),
        },
    }
}

/// Answers a driver-stats update: whether the store took it.
pub fn driver_stats_response(stored: bool) -> (r: DefaultResponse)
    ensures
        r.status@ == (if stored {
            "OK"@
        } else {
            "ERROR"@
        }),
        r.message@ == (if stored {
            "Driver stats updated"@
        } else {
            "Failed to update driver stats"@
        }),
{
    if stored {
        DefaultResponse {
            status: String::from_str("OK"),
            message: String::from_str("Driver stats updated"),
        }
    } else {
        DefaultResponse {
            status: String::from_str("ERROR"),
            message: String::from_str("Failed to update driver stats"),
        }
    }
}

/// Answers the liveness probe.
pub fn heartbeat_response() -> (r: DefaultResponse)
    ensures
        r.status@ == "OK"@,
        r.message@ == "Alive"@,
{
    DefaultResponse { status: String::from_str("OK"), message: String::from_str("Alive") }
}

/// Builds the body carrying an HTTP status code and a message; the status
/// word is the code in decimal.
pub fn construct_response(code: u16, message: String) -> (r: DefaultResponse)
    ensures
        r.status@ == spec_udec(code as nat),
        r.message@ == message@,
{
    DefaultResponse { status: u64_to_string(code as u64), message }
}

/// The HTTP status code a rejection answers with.
pub open spec fn spec_rejection_code(kind: RejectionKind) -> int {
    match kind {
        RejectionKind::NotFound => 404,
        RejectionKind::Discord => 500,
        RejectionKind::Database(_) => 417,
        RejectionKind::MethodNotAllowed => 405,
        RejectionKind::BadRequest => 400,
        RejectionKind::UnsupportedMediaType => 415,
        RejectionKind::Internal => 500,
    }
}

/// The message a rejection answers with; a database failure carries the
/// store's own words.
pub open spec fn spec_rejection_message(kind: RejectionKind) -> Seq<char> {
    match kind {
        RejectionKind::NotFound => "Not Found"@,
        RejectionKind::Discord => "Discord error encountered"@,
        RejectionKind::Database(cause) => cause@,
        RejectionKind::MethodNotAllowed => "Method not allowed"@,
        RejectionKind::BadRequest => "Bad request"@,
        RejectionKind::UnsupportedMediaType => "Unsupported media type"@,
        RejectionKind::Internal => "Internal Server Error"@,
    }
}

/// Answers a rejected request: the response body (status word = code in
/// decimal) and the HTTP status code to send it with.
pub fn rejection_response(kind: RejectionKind) -> (r: (DefaultResponse, u16))
    ensures
        r.1 as int == spec_rejection_code(kind),
        r.0.status@ == spec_udec(spec_rejection_code(kind) as nat),
        r.0.message@ == spec_rejection_message(kind),
{
    match kind {
        RejectionKind::NotFound => (construct_response(404, String::from_str("Not Found")), 404),
        RejectionKind::Discord => (
            construct_response(500, String::from_str("Discord error encountered")),
            500,
        ),
        RejectionKind::Database(cause) => {
            let ghost c = cause@;
            let r = construct_response(417, cause);
            proof {
                assert(r.message@ == c);
            }
            (r, 417)
        },
        RejectionKind::MethodNotAllowed => (
            construct_response(405, String::from_str("Method not allowed")),
            405,
        ),
        RejectionKind::BadRequest => (construct_response(400, String::from_str("Bad request")), 400),
        RejectionKind::UnsupportedMediaType => (
            construct_response(415, String::from_str("Unsupported media type")),
            415,
        ),
        RejectionKind::Internal => (
            construct_response(500, String::from_str("Internal Server Error")),
            500,
        ),
    }
}

} // verus!
