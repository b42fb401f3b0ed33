use rust_exercises::doubly_linked_list::LinkedStack;

#[test]
fn back_linked_stack_starts_empty() {
    let mut stack = LinkedStack::new();
    assert_eq!(stack.pop(), None);
}

#[test]
fn back_linked_stack_is_last_in_first_out() {
    let mut stack = LinkedStack::new();
    stack.push(1);
    stack.push(2);
    stack.push(3);
    assert_eq!(stack.pop(), Some(3));
    assert_eq!(stack.pop(), Some(2));
    stack.push(4);
    assert_eq!(stack.pop(), Some(4));
    assert_eq!(stack.pop(), Some(1));
    assert_eq!(stack.pop(), None);
}

#[test]
fn dropping_a_deep_back_linked_stack_does_not_overflow() {
    let mut stack = LinkedStack::new();
    for i in 0..1_000_000 {
        stack.push(i);
    }
    assert_eq!(stack.pop(), Some(999_999));
    drop(stack);
}
