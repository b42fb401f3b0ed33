use rust_exercises::fizz_buzz::{fizz_buzz_item, fizz_buzz_items, FizzBuzzItem};

#[test]
fn fizz_buzz_words() {
    assert_eq!(fizz_buzz_item(1), FizzBuzzItem::Number(1));
    assert_eq!(fizz_buzz_item(9), FizzBuzzItem::Fizz);
    assert_eq!(fizz_buzz_item(10), FizzBuzzItem::Buzz);
    assert_eq!(fizz_buzz_item(30), FizzBuzzItem::FizzBuzz);
}

#[test]
fn fizz_buzz_up_to_fifteen() {
    let items = fizz_buzz_items(15);
    assert_eq!(items.len(), 15);
    assert_eq!(items[2], FizzBuzzItem::Fizz);
    assert_eq!(items[4], FizzBuzzItem::Buzz);
    assert_eq!(items[13], FizzBuzzItem::Number(14));
    assert_eq!(items[14], FizzBuzzItem::FizzBuzz);
    assert!(fizz_buzz_items(0).is_empty());
}
