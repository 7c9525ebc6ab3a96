use shared_lists::doubly::List;
use shared_lists::doubly::Node;

#[test]
fn node_new_is_unlinked() {
    let node: Node<i32> = Node::new(7);
    assert_eq!(node.elem(), Some(&7));
    assert_eq!(node.next_index(), None);
    assert_eq!(node.prev_index(), None);
}

#[test]
fn empty_list() {
    let mut list: List<i32> = List::new();
    assert_eq!(list.front(), None);
    assert_eq!(list.back(), None);
    assert_eq!(list.pop_front(), None);
    assert_eq!(list.pop_back(), None);
}

#[test]
fn push_front_then_pop_front() {
    let mut list = List::new();
    list.push_front(1);
    list.push_front(2);
    list.push_front(3);
    assert_eq!(list.front(), Some(&3));
    assert_eq!(list.back(), Some(&1));
    assert_eq!(list.pop_front(), Some(3));
    assert_eq!(list.pop_front(), Some(2));
    assert_eq!(list.pop_front(), Some(1));
    assert_eq!(list.pop_front(), None);
    assert_eq!(list.pop_front(), None);
}

#[test]
fn push_front_then_pop_back() {
    let mut list = List::new();
    list.push_front(1);
    list.push_front(2);
    list.push_front(3);
    assert_eq!(list.pop_back(), Some(1));
    assert_eq!(list.pop_back(), Some(2));
    assert_eq!(list.pop_back(), Some(3));
    assert_eq!(list.pop_back(), None);
}

#[test]
fn push_back_then_pop_front() {
    let mut list = List::new();
    list.push_back(1);
    list.push_back(2);
    list.push_back(3);
    assert_eq!(list.front(), Some(&1));
    assert_eq!(list.back(), Some(&3));
    assert_eq!(list.pop_front(), Some(1));
    assert_eq!(list.pop_front(), Some(2));
    assert_eq!(list.pop_front(), Some(3));
    assert_eq!(list.pop_front(), None);
}

#[test]
fn single_node() {
    let mut list = List::new();
    list.push_front(42);
    assert_eq!(list.front(), Some(&42));
    assert_eq!(list.back(), Some(&42));
    assert_eq!(list.pop_back(), Some(42));
    assert_eq!(list.front(), None);
    assert_eq!(list.back(), None);

    let mut list = List::new();
    list.push_back(7);
    assert_eq!(list.front(), Some(&7));
    assert_eq!(list.back(), Some(&7));
    assert_eq!(list.pop_front(), Some(7));
    assert_eq!(list.pop_back(), None);
}

#[test]
fn mixed_ends() {
    let mut list = List::new();
    list.push_back(2);
    list.push_front(1);
    list.push_back(3);
    list.push_front(0);
    assert_eq!(list.front(), Some(&0));
    assert_eq!(list.back(), Some(&3));
    assert_eq!(list.pop_front(), Some(0));
    assert_eq!(list.pop_back(), Some(3));
    assert_eq!(list.pop_front(), Some(1));
    assert_eq!(list.pop_back(), Some(2));
    assert_eq!(list.pop_front(), None);
    assert_eq!(list.pop_back(), None);
}

#[test]
fn front_mut_and_back_mut() {
    let mut list = List::new();
    assert_eq!(list.front_mut(), None);
    assert_eq!(list.back_mut(), None);
    list.push_back(1);
    list.push_back(2);
    list.push_back(3);
    if let Some(e) = list.front_mut() {
        *e = 10;
    }
    if let Some(e) = list.back_mut() {
        *e = 30;
    }
    assert_eq!(list.pop_front(), Some(10));
    assert_eq!(list.pop_back(), Some(30));
    assert_eq!(list.pop_front(), Some(2));
    assert_eq!(list.pop_front(), None);
}

#[test]
fn many_push_pop_cycles() {
    let mut list = List::new();
    for i in 0..1000 {
        list.push_front(i);
        list.push_back(i + 1000);
        assert_eq!(list.pop_back(), Some(i + 1000));
    }
    for i in (0..1000).rev() {
        assert_eq!(list.pop_front(), Some(i));
    }
    assert_eq!(list.pop_front(), None);
}

#[test]
fn refill_after_emptying() {
    let mut list = List::new();
    list.push_front(1);
    assert_eq!(list.pop_back(), Some(1));
    list.push_back(2);
    list.push_front(3);
    assert_eq!(list.pop_front(), Some(3));
    assert_eq!(list.pop_front(), Some(2));
    assert_eq!(list.pop_front(), None);
}
