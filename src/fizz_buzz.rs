//! What FizzBuzz says for each number: "Fizz" for multiples of 3, "Buzz" for
//! multiples of 5, "FizzBuzz" for multiples of both, else the number.
use vstd::prelude::*;

verus! {

/// What FizzBuzz says for one number.
#[derive(Debug, Clone, Copy, PartialEq, Eq, Structural)]
pub enum FizzBuzzItem {
    Fizz,
    Buzz,
    FizzBuzz,
    Number(u32),
}

/// What FizzBuzz says for `i`.
pub open spec fn spec_fizz_buzz(i: u32) -> FizzBuzzItem {
    if i % 3 == 0 && i % 5 == 0 {
        FizzBuzzItem::FizzBuzz
    } else if i % 3 == 0 {
        FizzBuzzItem::Fizz
    } else if i % 5 == 0 {
        FizzBuzzItem::Buzz
    } else {
        FizzBuzzItem::Number(i)
    }
}

/// What FizzBuzz says for `i`.
pub fn fizz_buzz_item(i: u32) -> (r: FizzBuzzItem)
    ensures
        r == spec_fizz_buzz(i),
{
    if i % 3 == 0 && i % 5 == 0 {
        FizzBuzzItem::FizzBuzz
    } else if i % 3 == 0 {
        FizzBuzzItem::Fizz
    } else if i % 5 == 0 {
        FizzBuzzItem::Buzz
    } else {
        FizzBuzzItem::Number(i)
    }
}

/// What FizzBuzz says for each number from 1 to `max_num`, in order.
pub fn fizz_buzz_items(max_num: u32) -> (r: Vec<FizzBuzzItem>)
    ensures
        r@.len() == max_num,
        forall|k: int| 0 <= k < max_num ==> #[trigger] r@[k] == spec_fizz_buzz((k + 1) as u32),
{
    let mut r: Vec<FizzBuzzItem> = Vec::new();
    let mut i: u32 = 0;
    while i < max_num
        invariant
            i <= max_num,
            r@.len() == i,
            forall|k: int| 0 <= k < i ==> #[trigger] r@[k] == spec_fizz_buzz((k + 1) as u32),
        decreases max_num - i,
    {
        i = i + 1;
        r.push(fizz_buzz_item(i));
    }
    r
}

} // verus!
