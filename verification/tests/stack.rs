use m6coll::m6stack::{join_rev, Stack};

#[derive(Debug, Default)]
struct Foo {
    bar: usize,
}

fn stack_of<T>(items: Vec<T>) -> Stack<T> {
    let mut stack = Stack::new();
    for item in items {
        stack.push(item);
    }
    stack
}

fn text_of(stack: &Stack<i32>) -> String {
    let mut texts = Vec::new();
    let mut it = stack.queue_iter();
    while let Some(item) = it.next() {
        texts.push(format!("{}", item));
    }
    join_rev(&texts)
}

#[test]
fn test_stack_struct() {
    let mut stack = Stack::new();
    stack.extend(vec![1, 2, 3]);

    assert_eq!(stack.to_vec(), vec![3, 2, 1]);
    assert_eq!(stack_of(vec![1, 2, 3]).to_vec(), vec![3, 2, 1]);

    stack.extend_stack(stack_of(vec![4, 5]));
    assert_eq!(stack.to_vec(), vec![5, 4, 3, 2, 1]);

    println!("{}", text_of(&stack));
    assert_eq!(text_of(&stack), "5 4 3 2 1");

    let mut it = stack.stack_iter();
    let mut seen = Vec::new();
    while let Some(e) = it.next() {
        println!("{}", e);
        seen.push(*e);
    }
    assert_eq!(seen, vec![1, 2, 3, 4, 5]);
}

#[test]
fn test_stack_peek_mut() {
    let mut stack0 = stack_of(vec![Foo::default()]);

    assert_eq!(stack0.peek().unwrap().bar, 0);

    if let Some(foo_mut) = stack0.peek_mut() {
        foo_mut.bar += 1;
    }

    assert_eq!(stack0.peek().unwrap().bar, 1);
}

#[test]
fn stack_push_pop_is_last_in_first_out() {
    let mut stack = Stack::new();
    assert!(stack.is_empty());
    assert_eq!(stack.pop(), None);
    assert!(stack.peek().is_none());
    assert!(stack.peek_mut().is_none());
    stack.push('a');
    stack.push('b');
    assert_eq!(stack.len(), 2);
    assert_eq!(stack.peek(), Some(&'b'));
    assert_eq!(stack.pop(), Some('b'));
    assert_eq!(stack.pop(), Some('a'));
    assert_eq!(stack.pop(), None);
    assert!(stack.is_empty());
}

#[test]
fn stack_from_vec_puts_first_item_on_top() {
    let stack = Stack::from_vec(vec![1, 2, 3]);
    assert_eq!(stack.peek(), Some(&1));
    assert_eq!(stack.to_vec(), vec![1, 2, 3]);
    let mut it = stack.into_iter();
    assert_eq!(it.next(), Some(1));
    assert_eq!(it.next(), Some(2));
    assert_eq!(it.next(), Some(3));
    assert_eq!(it.next(), None);
}

#[test]
fn stack_clone_keeps_order() {
    let stack = stack_of(vec![1, 2, 3]);
    let copy = stack.clone();
    assert_eq!(copy.to_vec(), vec![3, 2, 1]);
    assert_eq!(stack.to_vec(), vec![3, 2, 1]);
}

#[test]
fn join_rev_joins_from_the_top() {
    assert_eq!(join_rev(&vec![]), "");
    assert_eq!(join_rev(&vec!["a".to_string()]), "a");
    assert_eq!(join_rev(&vec!["a".to_string(), "bc".to_string(), "d".to_string()]), "d bc a");
}

#[test]
fn stack_from_a_vec_by_the_trait() {
    let stack = Stack::from(vec![1, 2, 3]);
    assert_eq!(stack.to_vec(), vec![1, 2, 3]);
}
