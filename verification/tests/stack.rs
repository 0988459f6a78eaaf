use swisskit_dsa::stack::Stack;

struct Item;
impl Item {
    fn foobar(&self) -> &'static str {
        "I'm an item."
    }
}

fn make_stack() -> Stack<Item> {
    Stack::of(128usize)
}

fn fill_stack(stack: &mut Stack<Item>, items: Vec<Item>) {
    for item in items {
        stack.push(item);
    }
}

#[test]
fn should_make_filled_stack() {
    let mut stack = make_stack();

    fill_stack(&mut stack, vec![Item, Item, Item, Item]);
    assert!(stack.size() > 0);

    let Some(item) = stack.pop() else { panic!() };

    assert!(item.foobar() == "I'm an item.");
}

#[test]
fn stack_pops_in_reverse_order_of_pushes() {
    let mut stack: Stack<u32> = Stack::of(8);
    assert!(stack.push(1));
    assert!(stack.push(2));
    assert!(stack.push(3));
    assert_eq!(stack.size(), 3);
    assert_eq!(stack.peek().copied(), Some(3));
    assert_eq!(stack.pop(), Some(3));
    assert_eq!(stack.pop(), Some(2));
    assert_eq!(stack.pop(), Some(1));
    assert_eq!(stack.pop(), None);
    assert!(stack.is_empty());
}

#[test]
fn stack_turns_pushes_away_at_capacity() {
    let mut stack: Stack<u32> = Stack::of(2);
    assert!(stack.push(10));
    assert!(stack.push(20));
    assert!(!stack.push(30));
    assert_eq!(stack.size(), 2);
    assert_eq!(stack.peek().copied(), Some(20));
}

#[test]
fn stack_with_no_room_rejects_every_push() {
    let mut stack: Stack<u32> = Stack::of(0);
    assert!(!stack.push(1));
    assert!(stack.is_empty());
    assert_eq!(stack.pop(), None);
    assert_eq!(stack.peek(), None);
}

#[test]
fn default_stack_starts_empty() {
    let mut stack: Stack<u32> = Stack::default();
    assert!(stack.is_empty());
    assert_eq!(stack.size(), 0);
    assert!(stack.push(5));
    assert_eq!(stack.pop(), Some(5));
}
