use shared_lists::persistent::List;

#[test]
fn xxx() {
    let mut s1 = String::from("hello");
    let s2 = &mut s1;
    s2.push_str("abc");
    let s3 = &s2[..];
    let line = format!("{}, {}\n", s2, s3);
    assert_eq!(line, "helloabc, helloabc\n");
}

#[test]
fn basics() {
    let list = List::new();
    assert_eq!(list.head(), None);

    let list = list.append(1).append(2).append(3);
    assert_eq!(list.head(), Some(&3));

    let list = list.tail();
    assert_eq!(list.head(), Some(&2));

    let list = list.tail();
    assert_eq!(list.head(), Some(&1));

    let list = list.tail();
    assert_eq!(list.head(), None);

    let list = list.tail();
    assert_eq!(list.head(), None);
}

#[test]
fn iter() {
    let list = List::new().append(1).append(2).append(3);
    let mut iter = list.iter();
    assert_eq!(iter.next(), Some(&3));
    assert_eq!(iter.next(), Some(&2));
    assert_eq!(iter.next(), Some(&1));
    assert_eq!(iter.next(), None);
    assert_eq!(iter.next(), None);
}

#[test]
fn structural_sharing() {
    let a = List::new().append(1).append(2);
    let b = a.append(3);
    let c = a.append(4);

    assert_eq!(b.head(), Some(&3));
    assert_eq!(c.head(), Some(&4));
    assert_eq!(b.tail().head(), a.head());
    assert_eq!(c.tail().head(), a.head());
    assert_eq!(b.tail().head(), c.tail().head());

    drop(b);

    let mut ci = c.iter();
    assert_eq!(ci.next(), Some(&4));
    assert_eq!(ci.next(), Some(&2));
    assert_eq!(ci.next(), Some(&1));
    assert_eq!(ci.next(), None);

    let mut ai = a.iter();
    assert_eq!(ai.next(), Some(&2));
    assert_eq!(ai.next(), Some(&1));
    assert_eq!(ai.next(), None);
}

#[test]
fn append_order() {
    let elems = vec![10, 20, 30, 40, 50];
    let mut list = List::new();
    for &e in &elems {
        list = list.append(e);
        assert_eq!(list.head(), Some(&e));
    }

    let mut seen = Vec::new();
    let mut iter = list.iter();
    while let Some(&e) = iter.next() {
        seen.push(e);
    }
    let mut expected = elems.clone();
    expected.reverse();
    assert_eq!(seen, expected);
}

#[test]
fn restartable_iteration() {
    let list = List::new().append(1).append(2);
    let mut first = list.iter();
    assert_eq!(first.next(), Some(&2));
    let mut second = list.iter();
    assert_eq!(second.next(), Some(&2));
    assert_eq!(second.next(), Some(&1));
    assert_eq!(first.next(), Some(&1));
    assert_eq!(first.next(), None);
    assert_eq!(second.next(), None);
}

#[test]
fn long_teardown() {
    let mut list = List::new();
    for i in 0..100_000u64 {
        list = list.append(i);
    }
    assert_eq!(list.head(), Some(&99_999));
    drop(list);
}

#[test]
fn long_shared_teardown() {
    let mut list = List::new();
    for i in 0..100_000u64 {
        list = list.append(i);
    }
    let longer = list.append(100_000);
    drop(longer);
    assert_eq!(list.head(), Some(&99_999));
    assert_eq!(list.tail().head(), Some(&99_998));
}
