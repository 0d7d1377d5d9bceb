use remail_smtp::NonEmptyVec;

#[test]
fn new_holds_one_element() {
    let v = NonEmptyVec::new(7u32);
    assert_eq!(v.len(), 1);
    assert!(!v.is_empty());
    assert_eq!(v.head, 7);
    assert_eq!(v[0], 7);
    assert_eq!(v.into_vec(), vec![7]);
}

#[test]
fn with_tail_keeps_the_order() {
    let v = NonEmptyVec::with_tail(1u32, vec![2, 3]);
    assert_eq!(v.len(), 3);
    assert_eq!(v.iter(), vec![&1, &2, &3]);
    assert_eq!(*v.get(0), 1);
    assert_eq!(*v.get(2), 3);
    assert_eq!(v[1], 2);
    assert_eq!(v.into_vec(), vec![1, 2, 3]);
}

#[test]
fn push_appends() {
    let mut v = NonEmptyVec::new("a".to_string());
    v.push("b".to_string());
    v.push("c".to_string());
    assert_eq!(v.len(), 3);
    assert_eq!(v.head, "a");
    assert_eq!(v.clone().into_vec(), vec!["a", "b", "c"]);
    assert_eq!(v, NonEmptyVec::with_tail("a".to_string(), vec!["b".to_string(), "c".to_string()]));
}

#[test]
fn index_mut_replaces() {
    let mut v = NonEmptyVec::with_tail(1u32, vec![2, 3]);
    v[0] = 10;
    v[2] = 30;
    assert_eq!(v.into_vec(), vec![10, 2, 30]);
}

#[test]
fn is_never_empty() {
    let v = NonEmptyVec::with_tail((), vec![]);
    assert!(!v.is_empty());
    assert_eq!(v.len(), 1);
}

#[test]
fn first_is_the_head() {
    let mut v = NonEmptyVec::new(5u32);
    assert_eq!(*v.first(), 5);
    v.push(6);
    assert_eq!(*v.first(), 5);
    v[0] = 9;
    assert_eq!(*v.first(), 9);
}
