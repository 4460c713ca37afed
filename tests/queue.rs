use fsy::queue::{Queue, MAX_CAPACITY};

#[test]
fn test_new() {
    let test_values = [
        (0, 1),
        (1, 1),
        (10, 10),
        (MAX_CAPACITY, MAX_CAPACITY),
        (MAX_CAPACITY + 1, MAX_CAPACITY),
    ];

    for spec in test_values {
        let queue: Queue<i32> = Queue::new(spec.0);
        assert_eq!(queue.head, 0);
        assert_eq!(queue.tail, 0);
        assert_eq!(queue.capacity, spec.1);
    }
}

#[test]
fn test_is_empty() {
    let mut queue: Queue<i32> = Queue::new(5);
    assert_eq!(queue.head, 0);

    assert!(queue.is_empty());
    queue.push(1);
    assert!(!queue.is_empty());
    let _ = queue.pop();
    assert!(queue.is_empty());

    queue.head = 3;
    queue.tail = 3;
    assert!(queue.is_empty());
}

#[test]
fn test_push() {
    let mut queue: Queue<i32> = Queue::new(5);
    assert_eq!(queue.head, 0);

    let test_values = [
        (1, 0, 0),
        (10, 0, 1),
        (15, 0, 2),
        (20, 0, 3),
        (25, 0, 4),
        (30, 1, 0),
        (35, 2, 1),
        (40, 3, 2),
        (45, 4, 3),
        (50, 0, 4),
        (55, 1, 0),
    ];

    for spec in test_values {
        queue.push(spec.0);

        let curr = queue.get_curr_position();
        assert_eq!(queue.buffer[curr], Some(spec.0));
        assert_eq!(queue.head, spec.1);
        assert_eq!(queue.tail, spec.2);
    }
}

#[test]
fn test_pop_no_wrap() {
    let mut queue: Queue<i32> = Queue::new(5);
    assert_eq!(queue.head, 0);

    let values = [1, 10, 15, 20];
    for val in values {
        queue.push(val);
    }
    assert_eq!(queue.head, 0);
    assert_eq!(queue.tail, values.len() - 1);

    let test_values = [
        (Some(values[0]), 1, 3),
        (Some(values[1]), 2, 3),
        (Some(values[2]), 3, 3),
        (Some(values[3]), 3, 3),
        (None, 3, 3),
    ];
    for spec in test_values {
        let prev = queue.get_first_position();

        let res = queue.pop();
        assert_eq!(queue.buffer[prev], None);
        assert_eq!(res, spec.0);
        assert_eq!(queue.head, spec.1);
        assert_eq!(queue.tail, spec.2);
    }
}

#[test]
fn test_pop_wrap() {
    let mut queue: Queue<i32> = Queue::new(5);
    assert_eq!(queue.head, 0);

    let values = [1, 10, 15, 20, 25, 30];
    for val in values {
        queue.push(val);
    }
    assert_eq!(queue.head, 1);
    assert_eq!(queue.tail, 0);

    let test_values = [
        (Some(values[1]), 2, 0),
        (Some(values[2]), 3, 0),
        (Some(values[3]), 4, 0),
        (Some(values[4]), 0, 0),
        (Some(values[5]), 0, 0),
        (None, 0, 0),
    ];
    for spec in test_values {
        let prev = queue.get_first_position();

        let res = queue.pop();
        assert_eq!(queue.buffer[prev], None);
        assert_eq!(res, spec.0);
        assert_eq!(queue.head, spec.1);
        assert_eq!(queue.tail, spec.2);
    }
}

#[test]
fn test_peek() {
    let mut queue: Queue<i32> = Queue::new(5);
    assert_eq!(queue.head, 0);

    let values = [1, 10, 15, 20, 25, 30];
    for val in values {
        queue.push(val);
    }
    assert_eq!(queue.head, 1);
    assert_eq!(queue.tail, 0);

    let res = *queue.peek().unwrap();
    assert_eq!(res, values[1]);

    let res = *queue.peek().unwrap();
    assert_eq!(res, values[1]);
}

#[test]
fn test_clear() {
    let mut queue: Queue<i32> = Queue::new(5);
    assert_eq!(queue.head, 0);

    let values = [1, 10, 15];
    for val in values {
        queue.push(val);
    }
    assert_eq!(queue.head, 0);
    assert_eq!(queue.tail, 2);

    queue.clear();
    assert_eq!(queue.head, 0);
    assert_eq!(queue.tail, 0);

    queue.clear();
    assert_eq!(queue.head, 0);
    assert_eq!(queue.tail, 0);
}

#[test]
fn test_integration() {
    let mut queue: Queue<i32> = Queue::new(5);
    assert_eq!(queue.head, 0);

    queue.push(1);
    assert_eq!(queue.head, 0);
    assert_eq!(queue.tail, 0);

    let res = queue.pop().unwrap();
    assert_eq!(res, 1);
    assert_eq!(queue.head, 0);
    assert_eq!(queue.tail, 0);

    queue.push(10);
    queue.push(20);
    queue.push(30);
    assert_eq!(queue.head, 0);
    assert_eq!(queue.tail, 2);

    let res = queue.pop().unwrap();
    assert_eq!(res, 10);
    assert_eq!(queue.head, 1);
    assert_eq!(queue.tail, 2);

    let res = *queue.peek().unwrap();
    assert_eq!(res, 20);
    assert_eq!(queue.head, 1);
    assert_eq!(queue.tail, 2);

    queue.push(40);
    assert_eq!(queue.head, 1);
    assert_eq!(queue.tail, 3);

    queue.clear();
    assert_eq!(queue.head, 0);
    assert_eq!(queue.tail, 0);
}

fn drain(queue: &mut Queue<i32>) -> Vec<i32> {
    let mut out = vec![];
    while let Some(x) = queue.pop() {
        out.push(x);
    }
    out
}

#[test]
fn eviction_under_saturation() {
    let mut queue: Queue<i32> = Queue::new(3);
    for x in 1..=5 {
        queue.push(x);
    }
    assert_eq!(queue.pop(), Some(3));
    assert_eq!(queue.pop(), Some(4));
    assert_eq!(queue.pop(), Some(5));
    assert_eq!(queue.pop(), None);
}

#[test]
fn capacity_keeps_last_items_in_order() {
    let mut queue: Queue<i32> = Queue::new(4);
    queue.push(100);
    queue.push_multiple((1..=10).collect());
    assert_eq!(drain(&mut queue), vec![7, 8, 9, 10]);
    assert!(queue.is_empty());
}

#[test]
fn fifo_with_interleaved_pops() {
    let mut queue: Queue<i32> = Queue::new(3);
    queue.push(1);
    queue.push(2);
    assert_eq!(queue.pop(), Some(1));
    queue.push_multiple(vec![3, 4, 5]);
    assert_eq!(drain(&mut queue), vec![3, 4, 5]);
}

#[test]
fn capacity_one_holds_newest() {
    let mut queue: Queue<i32> = Queue::new(1);
    queue.push(1);
    queue.push(2);
    assert_eq!(queue.peek(), Some(&2));
    assert_eq!(drain(&mut queue), vec![2]);
    assert_eq!(queue.peek(), None);
}
