//! What the control and inspection panels show: the frame counters in
//! words, and the tile under the cursor. What they ask for are the commands
//! of [`crate::ecs::SimClock`].

use crate::ecs::SimTime;
use crate::scalar::{deterministic, Scalar, ScalarSpec};
use num_format::{Locale, ToFormattedString};
use vstd::prelude::*;

verus! {

/// The decimal digit for `d`.
pub open spec fn digit(d: nat) -> char {
    if d == 0 {
        '0'
    } else if d == 1 {
        '1'
    } else if d == 2 {
        '2'
    } else if d == 3 {
        '3'
    } else if d == 4 {
        '4'
    } else if d == 5 {
        '5'
    } else if d == 6 {
        '6'
    } else if d == 7 {
        '7'
    } else if d == 8 {
        '8'
    } else {
        '9'
    }
}

/// `n` in decimal digits, without leading zeros.
pub open spec fn digits(n: nat) -> Seq<char>
    decreases n,
{
    if n < 10 {
        seq![digit(n)]
    } else {
        digits(n / 10).push(digit(n % 10))
    }
}

/// `n` in decimal digits, in groups of three from the right that are
/// separated by commas.
pub open spec fn grouped(n: nat) -> Seq<char>
    decreases n,
{
    if n < 1000 {
        digits(n)
    } else {
        grouped(n / 1000) + seq![',', digit(n / 100 % 10), digit(n / 10 % 10), digit(n % 10)]
    }
}

/// Calls `ToFormattedString::to_formatted_string` of `num_format` with the
/// locale `en`, which writes a number in decimal digits and separates groups
/// of three digits by commas.
#[verifier::external_body]
fn formatted_count(n: u32) -> (text: String)
    ensures
        text@ == grouped(n as nat),
{
    n.to_formatted_string(&Locale::en)
}

/// The line that shows the world frame count.
pub fn world_frame_label(sim_time: &SimTime) -> (label: String)
    ensures
        label@ == "World Frame: "@ + grouped(sim_time.world_frame as nat),
{
    String::from_str("World Frame: ").concat(formatted_count(sim_time.world_frame).as_str())
}

/// The line that shows the neural tick count.
pub fn neural_frame_label(sim_time: &SimTime) -> (label: String)
    ensures
        label@ == "Neural Frame: "@ + grouped(sim_time.neural_frame as nat),
{
    String::from_str("Neural Frame: ").concat(formatted_count(sim_time.neural_frame).as_str())
}

/// The position of the tile that holds the point `(x, y)`, if the point lies
/// in a world of the given size.
pub open spec fn tile_pos_at<T: Scalar>(world_size: (usize, usize), x: T, y: T) -> Option<
    (usize, usize),
> {
    if x.not_below(T::ratio(0, 1)) && y.not_below(T::ratio(0, 1)) && x.below(
        T::count(world_size.0),
    ) && y.below(T::count(world_size.1)) && x.whole() < world_size.0 && y.whole()
        < world_size.1 {
        Some((x.whole(), y.whole()))
    } else {
        None
    }
}

/// The position of the tile that holds the point `(x, y)`, or `None` if the
/// point lies outside a world of the given size. A position that is given
/// lies in the world.
pub fn tile_pos_of<T: Scalar>(world_size: (usize, usize), x: T, y: T) -> (r: Option<
    (usize, usize),
>)
    ensures
        r matches Some(pos) ==> pos.0 < world_size.0 && pos.1 < world_size.1,
        deterministic::<T>() ==> r == tile_pos_at(world_size, x, y),
{
    let none = T::from_ratio(0, 1);
    if x.ge(none) && y.ge(none) && x.lt(T::from_count(world_size.0)) && y.lt(
        T::from_count(world_size.1),
    ) {
        let pos = (x.floor_to_count(), y.floor_to_count());
        if pos.0 < world_size.0 && pos.1 < world_size.1 {
            Some(pos)
        } else {
            None
        }
    } else {
        None
    }
}

} // verus!
