use ds_rs::stack::array::Stack as ArrayStack;
use ds_rs::stack::linked_list::Stack as ListStack;

#[test]
fn test_push_and_pop() {
    let mut stack = ArrayStack::<i32, 3>::new();
    stack.push(1);
    stack.push(2);
    stack.push(3);
    assert_eq!(stack.pop(), 3);
    assert_eq!(stack.pop(), 2);
    assert_eq!(stack.pop(), 1);
}

#[test]
fn test_peek() {
    let mut stack = ArrayStack::<i32, 3>::new();
    stack.push(42);
    stack.push(2);
    assert_eq!(*stack.peek(), 2);
    stack.push(5);
    assert_eq!(*stack.peek(), 5);
    *stack.peek_mut() = 6;
    assert_eq!(*stack.peek(), 6);
}

#[test]
fn test_push_and_pop_ll() {
    let mut stack = ListStack::<i32>::new();
    stack.push(1);
    stack.push(2);
    stack.push(3);
    assert_eq!(stack.pop().unwrap(), 3);
    assert_eq!(stack.pop().unwrap(), 2);
    assert_eq!(stack.pop().unwrap(), 1);
}

#[test]
#[should_panic]
fn test_pop_empty_ll() {
    let mut stack = ListStack::<i32>::new();
    assert!(stack.is_empty());
    stack.pop().unwrap();
}

#[test]
fn test_peek_ll() {
    let mut stack = ListStack::<i32>::new();
    stack.push(42);
    stack.push(2);
    assert_eq!(*stack.peek().unwrap(), 2);
    stack.push(5);
    assert_eq!(*stack.peek().unwrap(), 5);
    *stack.peek_mut().unwrap() = 6;
    assert_eq!(*stack.peek().unwrap(), 6);
}

#[test]
fn array_stack_is_full_and_is_empty() {
    let mut stack = ArrayStack::<u8, 2>::new();
    assert!(stack.is_empty());
    assert!(!stack.is_full());
    stack.push(1);
    assert!(!stack.is_empty());
    assert!(!stack.is_full());
    stack.push(2);
    assert!(stack.is_full());
    assert_eq!(stack.pop(), 2);
    assert!(!stack.is_full());
    let empty = ArrayStack::<u8, 0>::new();
    assert!(empty.is_empty());
    assert!(empty.is_full());
}

#[test]
fn array_stack_cursors_go_from_the_top_down() {
    let mut stack = ArrayStack::<i32, 4>::new();
    stack.push(1);
    stack.push(2);
    stack.push(3);
    let mut iter = stack.iter();
    assert_eq!(iter.next(), Some(&3));
    assert_eq!(iter.next(), Some(&2));
    assert_eq!(iter.next(), Some(&1));
    assert_eq!(iter.next(), None);
    let mut it = stack.iter_mut();
    while let Some(x) = it.next() {
        *x *= 10;
    }
    let mut iter = stack.into_iter();
    assert_eq!(iter.next(), Some(&30));
    assert_eq!(iter.next(), Some(&20));
    assert_eq!(iter.next(), Some(&10));
    assert_eq!(iter.next(), None);
    assert_eq!(stack.pop(), 30);
}

#[test]
fn list_stack_clear_and_cursors() {
    let mut stack = ListStack::<i32>::new();
    assert_eq!(stack.pop(), None);
    assert_eq!(stack.peek(), None);
    assert!(stack.peek_mut().is_none());
    stack.push(1);
    stack.push(2);
    stack.push(3);
    let mut it = stack.iter_mut();
    while let Some(x) = it.next() {
        *x += 1;
    }
    let mut iter = stack.iter();
    assert_eq!(iter.next(), Some(&4));
    assert_eq!(iter.next(), Some(&3));
    assert_eq!(iter.next(), Some(&2));
    assert_eq!(iter.next(), None);
    stack.clear();
    assert!(stack.is_empty());
    assert_eq!(stack.pop(), None);
}
