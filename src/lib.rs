//! Small verified exercises centred on an exclusively owned linked stack.
use vstd::prelude::*;

pub mod calculator;
pub mod doubly_linked_list;
pub mod fizz_buzz;
pub mod guessing_game;
pub mod life;
pub mod singly_linked_list;
pub mod text;
pub mod traffic_light;
pub mod university;

verus! {

} // verus!
