//! Two answers that depend on a roll of the dice: one that may be missing,
//! and one that may be an error.

use crate::random::{draw_below, entropy_rng};
use vstd::prelude::*;
use vstd::string::StringExecFns;

verus! {

/// Rolls are drawn from 0 up to, but not including, this number.
pub const ROLL_BOUND: u32 = 42;

/// A roll above this number is a lucky one.
pub const LUCKY_ABOVE: u32 = 10;

/// A roll: a number below [`ROLL_BOUND`], drawn at random.
pub fn get_random_num() -> (r: u32)
    ensures
        r < ROLL_BOUND,
{
    let mut rng = entropy_rng();
    let drawn = draw_below(&mut rng, ROLL_BOUND as usize);
    drawn as u32
}

/// The message that goes with a roll: one for a lucky roll, none otherwise.
pub fn lucky_message(roll: u32) -> (r: Option<String>)
    ensures
        roll > LUCKY_ABOVE <==> r is Some,
        r matches Some(message) ==> message@ == "I'm feeling lucky!"@,
{
    if roll > LUCKY_ABOVE {
        Some(String::from_str("I'm feeling lucky!"))
    } else {
        None
    }
}

/// What the toddler makes of a roll: laughter for a lucky roll, tears otherwise.
pub fn toddler_reply(roll: u32) -> (r: Result<&'static str, &'static str>)
    ensures
        roll > LUCKY_ABOVE <==> r is Ok,
        r matches Ok(laugh) ==> laugh@ == "Hahahaha!"@,
        r matches Err(cry) ==> cry@ == "Waaaaahhh!"@,
{
    if roll > LUCKY_ABOVE {
        Ok("Hahahaha!")
    } else {
        Err("Waaaaahhh!")
    }
}

/// Rolls once and gives the message that goes with the roll, if any.
pub fn feeling_lucky() -> (r: Option<String>)
    ensures
        r matches Some(message) ==> message@ == "I'm feeling lucky!"@,
{
    lucky_message(get_random_num())
}

/// Rolls once and gives the toddler's reply to the roll.
pub fn poke_toddler() -> (r: Result<&'static str, &'static str>)
    ensures
        r matches Ok(laugh) ==> laugh@ == "Hahahaha!"@,
        r matches Err(cry) ==> cry@ == "Waaaaahhh!"@,
{
    toddler_reply(get_random_num())
}

} // verus!
