//! The replies the chat commands give once the store has answered.

use vstd::prelude::*;
use crate::numfmt::{spec_idec, i64_to_string};

verus! {

/// The reply to linking a steamid: whether one was already linked decides
/// the wording.
pub open spec fn spec_link_reply(existing: int, steamid: int) -> Seq<char> {
    if existing == 0 {
        "Linked steamid: "@ + spec_idec(steamid)
    } else {
        "Replacing existing steamid with: "@ + spec_idec(steamid)
    }
}

/// Words the reply to a link command.  `existing` is the discord id already
/// linked to the steamid, zero where there was none (or the lookup failed).
pub fn link_reply(existing: i64, steamid: i64) -> (r: String)
    ensures
        r@ == spec_link_reply(existing as int, steamid as int),
{
    let mut r = if existing == 0 {
        String::from_str("Linked steamid: ")
    } else {
        String::from_str("Replacing existing steamid with: ")
    };
    let ds = i64_to_string(steamid);
    r.append(ds.as_str());
    r
}

/// The reply to a steamid lookup: only an administrator may look at another
/// user's link; an unlinked user (steamid zero) is said so.
pub open spec fn spec_steamid_reply(
    requested_other: bool,
    is_admin: bool,
    user_name: Seq<char>,
    steamid: int,
) -> Seq<char> {
    if requested_other && !is_admin {
        "You don't have permission to view other users steamids."@
    } else if steamid == 0 {
        "No steamid linked to discord user: "@ + user_name
    } else {
        "Steamid "@ + spec_idec(steamid) + " linked to discord user "@ + user_name
    }
}

/// Words the reply to a steamid command.  `requested_other` says whether
/// the caller asked about another user, `is_admin` whether the caller may;
/// `steamid` is the linked id, zero where none was found.
pub fn steamid_reply(requested_other: bool, is_admin: bool, user_name: &String, steamid: i64) -> (r:
    String)
    ensures
        r@ == spec_steamid_reply(requested_other, is_admin, user_name@, steamid as int),
{
    if requested_other && !is_admin {
        String::from_str("You don't have permission to view other users steamids.")
    } else if steamid == 0 {
        let mut r = String::from_str("No steamid linked to discord user: ");
        r.append(user_name.as_str());
        r
    } else {
        let mut r = String::from_str("Steamid ");
        let ds = i64_to_string(steamid);
        r.append(ds.as_str());
        r.append(" linked to discord user ");
        r.append(user_name.as_str());
        r
    }
}

/// The reply to a score command: no link, no best row, or the best score
/// with its track, car and placing.  The placing is one more than the count
/// of strictly better scores, zero where that count was not to be had.
pub open spec fn spec_score_reply(
    steamid: int,
    best: Option<(i64, String, String)>,
    placing_count: Option<i64>,
) -> Seq<char> {
    if steamid == 0 {
        "There's no steamid linked to this discord user."@
    } else {
        match best {
            None => "No highscore found for steamid: "@ + spec_idec(steamid),
            Some(row) => {
                let placing = match placing_count {
                    Some(c) => c as int + 1,
                    None => 0,
                };
                "Your highscore is "@ + spec_idec(row.0 as int) + " on "@ + row.2@ + " with "@
                    + row.1@ + ". You are currently in "@ + spec_idec(placing)
                    + " place."@
            },
        }
    }
}

/// Words the reply to a score command from the three store answers: the
/// linked steamid (zero where none), the best (score, car, track) row, and
/// the count of strictly better scores.
pub fn score_reply(steamid: i64, best: &Option<(i64, String, String)>, placing_count: &Option<
    i64,
>) -> (r: String)
    requires
        (placing_count matches Some(c) ==> c < i64::MAX),
    ensures
        r@ == spec_score_reply(steamid as int, *best, *placing_count),
{
    if steamid == 0 {
        return String::from_str("There's no steamid linked to this discord user.");
    }
    match best {
        None => {
            let mut r = String::from_str("No highscore found for steamid: ");
            let ds = i64_to_string(steamid);
            r.append(ds.as_str());
            r
        },
        Some(row) => {
            let placing: i64 = match placing_count {
                Some(c) => *c + 1,
                None => 0,
            };
            let mut r = String::from_str("Your highscore is ");
            let score_s = i64_to_string(row.0);
            r.append(score_s.as_str());
            r.append(" on ");
            r.append(row.2.as_str());
            r.append(" with ");
            r.append(row.1.as_str());
            r.append(". You are currently in ");
            let placing_s = i64_to_string(placing);
            r.append(placing_s.as_str());
            r.append(" place.");
            r
        },
    }
}

} // verus!
