use stack_heap::queue::Queue;
use stack_heap::stack::myStack;

#[test]
fn test_queue() {
    let mut s = myStack::<i32>::new();
    assert_eq!(s.pop(), Err("Stack is empty"));
    s.push(1);
    s.push(2);
    s.push(3);
    assert_eq!(s.pop(), Ok(3));
    assert_eq!(s.pop(), Ok(2));
    s.push(4);
    s.push(5);
    assert_eq!(s.is_empty(), false);
    assert_eq!(s.pop(), Ok(5));
    assert_eq!(s.pop(), Ok(4));
    assert_eq!(s.pop(), Ok(1));
    assert_eq!(s.pop(), Err("Stack is empty"));
    assert_eq!(s.is_empty(), true);
}

#[test]
fn fresh_stack_is_empty_and_pop_fails() {
    let mut s = myStack::<u8>::new();
    assert!(s.is_empty());
    assert_eq!(s.pop(), Err("Stack is empty"));
    assert_eq!(s.pop(), Err("Stack is empty"));
    assert!(s.is_empty());
}

#[test]
fn pops_reverse_the_pushes() {
    let vals: Vec<i64> = vec![7, -3, 7, 0, 12, 5, 5, 9];
    let mut s = myStack::<i64>::new();
    for v in vals.iter() {
        s.push(*v);
    }
    let mut out: Vec<i64> = Vec::new();
    for _ in 0..vals.len() {
        out.push(s.pop().unwrap());
    }
    let mut reversed = vals.clone();
    reversed.reverse();
    assert_eq!(out, reversed);
    assert!(s.is_empty());
}

#[test]
fn stack_is_empty_only_after_the_last_pop() {
    let mut s = myStack::<char>::new();
    s.push('a');
    s.push('b');
    s.push('c');
    assert!(!s.is_empty());
    assert_eq!(s.pop(), Ok('c'));
    assert!(!s.is_empty());
    assert_eq!(s.pop(), Ok('b'));
    assert!(!s.is_empty());
    assert_eq!(s.pop(), Ok('a'));
    assert!(s.is_empty());
}

#[test]
fn stack_of_owned_values() {
    let mut s = myStack::<String>::new();
    s.push(String::from("one"));
    s.push(String::from("two"));
    assert_eq!(s.pop(), Ok(String::from("two")));
    s.push(String::from("three"));
    assert_eq!(s.pop(), Ok(String::from("three")));
    assert_eq!(s.pop(), Ok(String::from("one")));
    assert_eq!(s.pop(), Err("Stack is empty"));
}

#[test]
fn queue_is_first_in_first_out() {
    let mut q = Queue::<i32>::new();
    assert!(q.is_empty());
    assert_eq!(q.size(), 0);
    q.enqueue(10);
    q.enqueue(20);
    q.enqueue(30);
    assert_eq!(q.size(), 3);
    assert!(!q.is_empty());
    assert_eq!(q.peek(), Ok(&10));
    assert_eq!(q.size(), 3);
    assert_eq!(q.dequeue(), Ok(10));
    assert_eq!(q.peek(), Ok(&20));
    assert_eq!(q.dequeue(), Ok(20));
    q.enqueue(40);
    assert_eq!(q.dequeue(), Ok(30));
    assert_eq!(q.dequeue(), Ok(40));
    assert!(q.is_empty());
}

#[test]
fn empty_queue_gives_the_error() {
    let mut q = Queue::<i32>::new();
    assert_eq!(q.dequeue(), Err("Queue is empty"));
    assert_eq!(q.peek(), Err("Queue is empty"));
    assert_eq!(q.size(), 0);
    q.enqueue(1);
    assert_eq!(q.dequeue(), Ok(1));
    assert_eq!(q.dequeue(), Err("Queue is empty"));
}

#[test]
fn default_queue_is_empty() {
    let q: Queue<u32> = Queue::default();
    assert!(q.is_empty());
    assert_eq!(q.size(), 0);
}
