use linked_lists::deque::List;

#[test]
fn deque_basics() {
    let mut list = List::new();

    list.push_front(1);
    assert_eq!(list.pop_front(), Some(1));
}

#[test]
fn deque_into_iter() {
    let mut list = List::new();
    list.push_front(1);
    list.push_front(2);
    list.push_front(3);

    let mut iter = list.into_iter();
    assert_eq!(iter.next(), Some(3));
    assert_eq!(iter.next_back(), Some(1));
    assert_eq!(iter.next(), Some(2));
    assert_eq!(iter.next_back(), None);
    assert_eq!(iter.next(), None);
}

#[test]
fn deque_push_back_fifo_lifo() {
    let values = [4, 8, 15, 16, 23, 42];

    let mut list = List::new();
    for &v in values.iter() {
        list.push_back(v);
    }
    for &v in values.iter() {
        assert_eq!(list.pop_front(), Some(v));
    }
    assert_eq!(list.pop_front(), None);

    let mut list = List::new();
    for &v in values.iter() {
        list.push_back(v);
    }
    for &v in values.iter().rev() {
        assert_eq!(list.pop_back(), Some(v));
    }
    assert_eq!(list.pop_back(), None);
}

#[test]
fn deque_two_ended_consumption() {
    let mut list = List::new();
    list.push_front(1);
    list.push_front(2);
    list.push_front(3);

    assert_eq!(list.pop_front(), Some(3));
    assert_eq!(list.pop_back(), Some(1));
    assert_eq!(list.pop_front(), Some(2));
    assert_eq!(list.pop_front(), None);
}

#[test]
fn deque_empty_after_drain_behaves_as_new() {
    let mut list = List::new();
    list.push_back(1);
    list.push_front(0);
    assert_eq!(list.pop_back(), Some(1));
    assert_eq!(list.pop_back(), Some(0));
    assert_eq!(list.peek_front(), None);
    assert_eq!(list.peek_back(), None);
    assert_eq!(list.pop_front(), None);
    assert_eq!(list.pop_back(), None);

    list.push_back(7);
    assert_eq!(list.peek_front(), Some(&7));
    assert_eq!(list.peek_back(), Some(&7));
    list.push_front(6);
    assert_eq!(list.peek_front(), Some(&6));
    assert_eq!(list.peek_back(), Some(&7));
    assert_eq!(list.pop_front(), Some(6));
    assert_eq!(list.pop_front(), Some(7));
    assert_eq!(list.pop_front(), None);

    list.push_front(9);
    assert_eq!(list.pop_back(), Some(9));
    assert_eq!(list.peek_front(), None);
}

#[test]
fn deque_drop_long_chain() {
    let mut list = List::new();
    for i in 0..100_000u32 {
        list.push_back(i);
    }
    assert_eq!(list.peek_front(), Some(&0));
    assert_eq!(list.peek_back(), Some(&99_999));
    drop(list);

    let mut list = List::new();
    for i in 0..100_000u32 {
        list.push_front(Box::new(i));
    }
    drop(list);
}

#[test]
fn deque_round_trip() {
    let values = [1, 2, 3, 4, 5];

    // pushed at the front, drained from the front: reversed
    let mut list = List::new();
    for &v in values.iter() {
        list.push_front(v);
    }
    let mut out = Vec::new();
    while let Some(v) = list.pop_front() {
        out.push(v);
    }
    assert_eq!(out, vec![5, 4, 3, 2, 1]);

    // pushed at the front, drained from the back: in order
    for &v in values.iter() {
        list.push_front(v);
    }
    let mut out = Vec::new();
    while let Some(v) = list.pop_back() {
        out.push(v);
    }
    assert_eq!(out, vec![1, 2, 3, 4, 5]);

    // pushed at the back, drained from the back: reversed
    for &v in values.iter() {
        list.push_back(v);
    }
    let mut out = Vec::new();
    while let Some(v) = list.pop_back() {
        out.push(v);
    }
    assert_eq!(out, vec![5, 4, 3, 2, 1]);
}

#[test]
fn deque_slots_are_reused() {
    let mut list = List::new();
    for round in 0..1000u32 {
        list.push_back(round);
        list.push_front(round + 1);
        assert_eq!(list.pop_back(), Some(round));
        assert_eq!(list.peek_front(), Some(&(round + 1)));
        assert_eq!(list.peek_back(), Some(&(round + 1)));
        assert_eq!(list.pop_back(), Some(round + 1));
        assert_eq!(list.peek_back(), None);
    }
}

#[test]
fn deque_interleaved_ends() {
    let mut list = List::new();
    list.push_back(2);
    list.push_front(1);
    list.push_back(3);
    list.push_front(0);
    assert_eq!(list.peek_front(), Some(&0));
    assert_eq!(list.peek_back(), Some(&3));

    let mut iter = list.into_iter();
    assert_eq!(iter.next_back(), Some(3));
    assert_eq!(iter.next(), Some(0));
    assert_eq!(iter.next_back(), Some(2));
    assert_eq!(iter.next_back(), Some(1));
    assert_eq!(iter.next(), None);
    assert_eq!(iter.next_back(), None);
}
