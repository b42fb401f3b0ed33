use rust_exercises::singly_linked_list::LinkedStack;

#[test]
fn test_new_stack() {
    let mut stack = LinkedStack::new();
    assert_eq!(stack.pop(), None);
}

#[test]
fn test_linked_stack() {
    let mut stack = LinkedStack::new();
    stack.push(1);
    stack.push(2);
    stack.push(3);

    assert_eq!(stack.pop(), Some(3));
    assert_eq!(stack.pop(), Some(2));

    stack.push(4);

    assert_eq!(stack.pop(), Some(4));
    assert_eq!(stack.pop(), Some(1));
    assert_eq!(stack.pop(), None);
}

#[test]
fn test_big_stack() {
    let mut stack = LinkedStack::new();
    for i in 0..1_000_000 {
        stack.push(i);
    }

    for i in (0..1_000_000).rev() {
        assert_eq!(stack.pop(), Some(i));
    }

    assert_eq!(stack.pop(), None);
}

#[test]
fn pops_in_reverse_order_of_pushes() {
    let values = [7, -3, 0, i32::MAX, i32::MIN, 7];
    let mut stack = LinkedStack::new();
    for v in values {
        stack.push(v);
    }
    for v in values.iter().rev() {
        assert_eq!(stack.pop(), Some(*v));
    }
    assert_eq!(stack.pop(), None);
}

#[test]
fn popping_empty_stack_twice_leaves_it_usable() {
    let mut stack = LinkedStack::new();
    assert_eq!(stack.pop(), None);
    assert_eq!(stack.pop(), None);
    stack.push(5);
    assert_eq!(stack.pop(), Some(5));
    assert_eq!(stack.pop(), None);
}

#[test]
fn dropping_a_deep_stack_does_not_overflow() {
    let mut stack = LinkedStack::new();
    for i in 0..1_000_000 {
        stack.push(i);
    }
    assert_eq!(stack.pop(), Some(999_999));
    drop(stack);
}

#[test]
fn clear_empties_the_stack() {
    let mut stack = LinkedStack::new();
    for i in 0..10 {
        stack.push(i);
    }
    stack.clear();
    assert_eq!(stack.pop(), None);
    stack.push(42);
    assert_eq!(stack.pop(), Some(42));
}
