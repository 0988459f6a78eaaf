use swisskit_dsa::queue::Queue;

struct Item;
impl Item {
    fn foobar(&self) -> &'static str {
        "I'm an item."
    }
}

fn make_queue() -> Queue<Item> {
    Queue::new()
}

fn fill_queue(queue: &mut Queue<Item>, insts: Vec<Item>) {
    for inst in insts {
        queue.enqueue(inst);
    }
}

#[test]
fn should_make_filled_queue() {
    let mut queue = make_queue();

    fill_queue(&mut queue, vec![Item, Item, Item, Item]);
    assert!(queue.size() > 0);

    let Some(item) = queue.dequeue() else { panic!() };

    assert!(item.foobar() == "I'm an item.");
}

#[test]
fn queue_hands_items_back_in_arrival_order() {
    let mut queue: Queue<u32> = Queue::new();
    assert!(queue.is_empty());
    queue.enqueue(1);
    queue.enqueue(2);
    queue.enqueue(3);
    assert_eq!(queue.size(), 3);
    assert_eq!(queue.peek().copied(), Some(1));
    assert_eq!(queue.dequeue(), Some(1));
    assert_eq!(queue.dequeue(), Some(2));
    assert_eq!(queue.dequeue(), Some(3));
    assert_eq!(queue.dequeue(), None);
    assert!(queue.is_empty());
}

#[test]
fn empty_queue_has_nothing_to_give() {
    let mut queue: Queue<u32> = Queue::new();
    assert_eq!(queue.dequeue(), None);
    assert_eq!(queue.peek(), None);
    assert_eq!(queue.size(), 0);
}

#[test]
fn default_queue_starts_empty() {
    let mut queue: Queue<u32> = Queue::default();
    assert!(queue.is_empty());
    queue.enqueue(9);
    assert_eq!(queue.dequeue(), Some(9));
}
