//! Votes on posts and comments: pressing a vote button sends the score to
//! record, and pressing the button of the vote already given withdraws it.
use vstd::prelude::*;

verus! {

/// The score an up-vote button sends: withdraws an up-vote already given,
/// gives one otherwise.
pub fn up_vote_score(my_vote: Option<i16>) -> (r: i16)
    ensures
        r == if my_vote == Some(1i16) {
            0i16
        } else {
            1i16
        },
{
    match my_vote {
        Some(v) => if v == 1 {
            0
        } else {
            1
        },
        None => 1,
    }
}

/// The score a down-vote button sends: withdraws a down-vote already given,
/// gives one otherwise.
pub fn down_vote_score(my_vote: Option<i16>) -> (r: i16)
    ensures
        r == if my_vote == Some(-1i16) {
            0i16
        } else {
            -1i16
        },
{
    match my_vote {
        Some(v) => if v == -1 {
            0
        } else {
            -1
        },
        None => -1,
    }
}

/// What a save button sends: the opposite of the saved flag.
pub fn save_toggle(saved: bool) -> (r: bool)
    ensures
        r == !saved,
{
    !saved
}

} // verus!
