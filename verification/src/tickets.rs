//! A ticket counter shared by several agents: each sale takes one ticket
//! off the pile, calls and breaks last a random while.

use crate::random::{draw_below, entropy_rng};
use vstd::prelude::*;

verus! {

/// Calls and breaks last less than this many milliseconds.
pub const MAX_PAUSE_MS: u64 = 10;

/// Sells one ticket if any is left. The result is the number of tickets
/// left after the sale, or `None` where the pile was empty already (and
/// stays so).
pub fn sell_ticket(remaining: &mut usize) -> (r: Option<usize>)
    ensures
        *old(remaining) == 0 ==> r is None && *final(remaining) == 0,
        *old(remaining) > 0 ==> r == Some((*old(remaining) - 1) as usize) && *final(remaining)
            == *old(remaining) - 1,
{
    if *remaining == 0 {
        None
    } else {
        *remaining -= 1;
        Some(*remaining)
    }
}

/// How long the next call or break lasts, in milliseconds: a random time
/// below [`MAX_PAUSE_MS`].
pub fn pause_ms() -> (r: u64)
    ensures
        r < MAX_PAUSE_MS,
{
    let mut rng = entropy_rng();
    draw_below(&mut rng, MAX_PAUSE_MS as usize) as u64
}

/// Whether a draw of 0 or 1 sends the agent on a break: 1 does.
pub fn break_on(draw: usize) -> (r: bool)
    ensures
        r == (draw == 1),
{
    draw == 1
}

/// Whether the agent takes a break after a sale: the toss of a coin.
pub fn should_take_break() -> bool {
    let mut rng = entropy_rng();
    break_on(draw_below(&mut rng, 2))
}

/// Selling until the pile is empty sells every ticket exactly once: after
/// `sold` sales from a pile of `tickets`, `tickets - sold` are left.
pub proof fn lemma_every_ticket_is_sold_once(tickets: nat, sold: nat)
    requires
        sold <= tickets,
    ensures
        left_after(tickets, sold) == tickets - sold,
    decreases sold,
{
    if sold > 0 {
        lemma_every_ticket_is_sold_once(tickets, (sold - 1) as nat);
    }
}

/// Tickets left on a pile of `tickets` after `sales` attempts to sell one.
pub open spec fn left_after(tickets: nat, sales: nat) -> nat
    decreases sales,
{
    if sales == 0 {
        tickets
    } else {
        let before = left_after(tickets, (sales - 1) as nat);
        if before == 0 {
            0
        } else {
            (before - 1) as nat
        }
    }
}

} // verus!
