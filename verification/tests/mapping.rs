use ros_monitor::entity::Entity;
use ros_monitor::mapping::Mapping;

fn s(text: &str) -> String {
    text.to_string()
}

#[test]
fn new_mapping_is_empty() {
    let m: Mapping<String, String> = Mapping::new();
    assert_eq!(m.len(), 0);
    assert!(m.is_empty());
    assert!(!m.contains_key(&s("a")));
    assert_eq!(m.get(&s("a")), None);
}

#[test]
fn insert_overwrites_in_place() {
    let mut m: Mapping<String, String> = Mapping::new();
    assert_eq!(m.insert(s("a"), s("1")), None);
    assert_eq!(m.insert(s("b"), s("2")), None);
    assert_eq!(m.insert(s("a"), s("3")), Some(s("1")));
    assert_eq!(m.len(), 2);
    assert!(!m.is_empty());
    assert_eq!(m.get(&s("a")), Some(&s("3")));
    assert_eq!(m.get(&s("b")), Some(&s("2")));
    assert_eq!(m.key_at(0), &s("a"));
    assert_eq!(m.value_at(0), &s("3"));
    assert_eq!(m.key_at(1), &s("b"));
    assert_eq!(m.value_at(1), &s("2"));
}

#[test]
fn remove_takes_the_entry_out() {
    let mut m: Mapping<String, String> = Mapping::new();
    m.insert(s("a"), s("1"));
    m.insert(s("b"), s("2"));
    m.insert(s("c"), s("3"));
    assert_eq!(m.remove(&s("b")), Some(s("2")));
    assert_eq!(m.remove(&s("b")), None);
    assert_eq!(m.len(), 2);
    assert!(m.contains_key(&s("a")));
    assert!(!m.contains_key(&s("b")));
    assert!(m.contains_key(&s("c")));
}

#[test]
fn mappings_are_equal_whatever_the_order() {
    let mut a: Mapping<String, String> = Mapping::new();
    a.insert(s("x"), s("1"));
    a.insert(s("y"), s("2"));
    let mut b: Mapping<String, String> = Mapping::new();
    b.insert(s("y"), s("2"));
    b.insert(s("x"), s("1"));
    assert!(a.same(&b));
    assert!(a == b);
    assert!(a.same(&a.duplicate()));
    assert!(a == a.clone());

    b.insert(s("x"), s("other"));
    assert!(!a.same(&b));
    assert!(a != b);

    let mut c: Mapping<String, String> = Mapping::new();
    c.insert(s("x"), s("1"));
    assert!(!a.same(&c));
    assert!(!c.same(&a));
    c.insert(s("z"), s("2"));
    assert!(!a.same(&c));
}

#[test]
fn from_pairs_keeps_the_later_value() {
    let m = Mapping::from_pairs(vec![(s("a"), s("1")), (s("b"), s("2")), (s("a"), s("3"))]);
    assert_eq!(m.len(), 2);
    assert_eq!(m.get(&s("a")), Some(&s("3")));
    assert_eq!(m.get(&s("b")), Some(&s("2")));
}

#[test]
fn pair_keys_are_compared_in_both_parts() {
    let mut m: Mapping<(String, String), String> = Mapping::new();
    m.insert((s("n"), s("/a")), s("1"));
    m.insert((s("n"), s("/b")), s("2"));
    assert_eq!(m.len(), 2);
    assert_eq!(m.get(&(s("n"), s("/b"))), Some(&s("2")));
    assert_eq!(m.get(&(s("m"), s("/b"))), None);
}
