//! The words of the break reminder.

use crate::decimal::{decimal, push_decimal};
use rand::Rng;
use vstd::prelude::*;
use vstd::string::StringExecFns;

verus! {

/// The number of slogans to choose from.
pub const SLOGAN_COUNT: usize = 6;

/// What follows the number of seconds in the slogan with the given
/// number.
pub open spec fn slogan_tail(choice: int) -> Seq<char> {
    if choice == 0 {
        " seconds NON-STOOOOOOOOOOOOP! YOU MUST BE TIRED! STAND UP AND TAKE A BREAK!!!!!!!"@
    } else if choice == 1 {
        " seconds OF UNSTOPPABLE GRIND! YOUR LEGS ARE CRYING FOR A BREAK! STAND UP AND SHAKE IT OFF!!!"@
    } else if choice == 2 {
        " seconds STRAIGHT LIKE A NINJA! YOUR BACK IS REBELLING! POWER UP WITH A QUICK STAND-UP BREAK!!!"@
    } else if choice == 3 {
        " seconds WITHOUT PAUSE! ALERT: MUSCLES ON STRIKE! RISE AND RELEASE WITH A STRETCH!!!"@
    } else if choice == 4 {
        " seconds NONSTOP MODE ENGAGED! WARNING: BRAIN FOG IMMINENT! HIT THE PAUSE AND STAND TALL!!!"@
    } else {
        " seconds AND COUNTING! MISSION: TAKE A BREAK! DEPLOY YOUR LEGS FOR A STAND-UP MISSION!!!"@
    }
}

/// The slogan with the given number for `seconds` of work without a
/// break.
pub open spec fn slogan(seconds: u64, choice: int) -> Seq<char> {
    decimal(seconds as nat) + slogan_tail(choice)
}

/// The slogan with the number `choice` for `seconds` of work without a
/// break, if there is a slogan with that number.
pub fn reminder_slogan(seconds: u64, choice: usize) -> (text: Option<String>)
    ensures
        match text {
            Some(s) => choice < SLOGAN_COUNT && s@ == slogan(seconds, choice as int),
            None => choice >= SLOGAN_COUNT,
        },
{
    if choice >= SLOGAN_COUNT {
        return None;
    }
    let mut text = String::new();
    push_decimal(&mut text, seconds as u128);
    assert(text@ =~= decimal(seconds as nat));
    if choice == 0 {
        text.append(
            " seconds NON-STOOOOOOOOOOOOP! YOU MUST BE TIRED! STAND UP AND TAKE A BREAK!!!!!!!",
        );
    } else if choice == 1 {
        text.append(
            " seconds OF UNSTOPPABLE GRIND! YOUR LEGS ARE CRYING FOR A BREAK! STAND UP AND SHAKE IT OFF!!!",
        );
    } else if choice == 2 {
        text.append(
            " seconds STRAIGHT LIKE A NINJA! YOUR BACK IS REBELLING! POWER UP WITH A QUICK STAND-UP BREAK!!!",
        );
    } else if choice == 3 {
        text.append(
            " seconds WITHOUT PAUSE! ALERT: MUSCLES ON STRIKE! RISE AND RELEASE WITH A STRETCH!!!",
        );
    } else if choice == 4 {
        text.append(
            " seconds NONSTOP MODE ENGAGED! WARNING: BRAIN FOG IMMINENT! HIT THE PAUSE AND STAND TALL!!!",
        );
    } else {
        text.append(
            " seconds AND COUNTING! MISSION: TAKE A BREAK! DEPLOY YOUR LEGS FOR A STAND-UP MISSION!!!",
        );
    }
    Some(text)
}

/// `rand::Rng::random_range` on the generator of the current thread, for
/// the range from zero up to `bound`. Which number comes is left to
/// chance; it lies in the range. An empty range is not asked for, since
/// rand panics on it.
#[verifier::external_body]
pub(crate) fn random_below(bound: usize) -> (choice: usize)
    requires
        bound > 0,
    ensures
        choice < bound,
{
    rand::rng().random_range(0..bound)
}

/// The words of the reminder after `seconds` of work without a break: one
/// of the slogans, chosen at random.
pub fn pop_up(seconds: u64) -> (text: String)
    ensures
        exists|choice: int| 0 <= choice < SLOGAN_COUNT && text@ == #[trigger] slogan(seconds, choice),
{
    let choice = random_below(SLOGAN_COUNT);
    match reminder_slogan(seconds, choice) {
        Some(text) => {
            assert(text@ == slogan(seconds, choice as int));
            text
        },
        None => String::new(),
    }
}

} // verus!
