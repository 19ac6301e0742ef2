use afd::errors::ForthError;
use afd::stack::ForthStack;
use afd::stack::STACK_SIZE;

#[test]
fn pop_returns_pushed_values_in_reverse_order() {
    let mut s = ForthStack::new();
    for v in [10, 20, 30, 40] {
        assert_eq!(s.push(v), Ok(()));
    }
    assert_eq!(s.pop(), Ok(40));
    assert_eq!(s.pop(), Ok(30));
    assert_eq!(s.pop(), Ok(20));
    assert_eq!(s.pop(), Ok(10));
    assert_eq!(s.size(), 0);
}

#[test]
fn push_beyond_capacity_fails_and_preserves_stack() {
    let mut s = ForthStack::new();
    for v in 0..STACK_SIZE as i32 {
        assert_eq!(s.push(v), Ok(()));
    }
    assert_eq!(s.size(), STACK_SIZE);
    assert_eq!(s.push(999), Err(ForthError::StackOverflow));
    assert_eq!(s.size(), STACK_SIZE);
    assert_eq!(s.peek(), Ok(STACK_SIZE as i32 - 1));
}

#[test]
fn pop_on_empty_fails_without_mutation() {
    let mut s = ForthStack::new();
    assert_eq!(s.pop(), Err(ForthError::StackUnderflow));
    assert_eq!(s.size(), 0);
    assert_eq!(s.push(7), Ok(()));
    assert_eq!(s.pop(), Ok(7));
    assert_eq!(s.pop(), Err(ForthError::StackUnderflow));
}

#[test]
fn peek_on_empty_fails_and_does_not_consume() {
    let mut s = ForthStack::new();
    assert_eq!(s.peek(), Err(ForthError::StackEmpty));
    assert_eq!(s.push(5), Ok(()));
    assert_eq!(s.peek(), Ok(5));
    assert_eq!(s.peek(), Ok(5));
    assert_eq!(s.size(), 1);
}
