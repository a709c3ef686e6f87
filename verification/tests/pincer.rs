use pincers::pincer::{shift_backward, shift_forward, Pincer, SeatPincerMap};
use pincers::register::{NumericT, RegisterAddress, RegisterSummary};

fn addr(s: &str) -> RegisterAddress {
    s.parse().unwrap()
}

fn plain() -> String {
    "text/plain".to_string()
}

fn clipping(s: &str) -> Vec<(String, Vec<u8>)> {
    vec![(plain(), s.as_bytes().to_vec())]
}

/// The text in a register, or nothing
fn held(p: &Pincer, a: &str) -> Option<String> {
    p.paste_from(Some(addr(a)), &plain())
        .ok()
        .map(|d| String::from_utf8(d.clone()).unwrap())
}

fn numerics(p: &Pincer) -> Vec<String> {
    (0..10).map(|i| held(p, &i.to_string()).unwrap_or_default()).collect()
}

#[test]
fn a_new_pincer_is_empty() {
    let p = Pincer::new();
    assert_eq!(p.get(), None);
    assert_eq!(p.get_active(), addr("0"));
    for a in RegisterAddress::iter() {
        assert!(p.register(Some(a)).is_empty());
    }
    assert!(p.list().unwrap().is_empty());
    assert!(Pincer::default().register(None).is_empty());
}

#[test]
fn circle_arithmetic() {
    let n = |x: u8| NumericT::new(x).unwrap();
    assert_eq!(shift_forward(n(9), n(1)), n(0));
    assert_eq!(shift_forward(n(7), n(8)), n(5));
    assert_eq!(shift_backward(n(0), n(1)), n(9));
    assert_eq!(shift_backward(n(5), n(8)), n(7));
    for x in 0..10 {
        for y in 0..10 {
            assert_eq!(shift_backward(shift_forward(n(x), n(y)), n(y)), n(x));
        }
    }
}

#[test]
fn numeric_registers_are_first_in_first_out() {
    let mut p = Pincer::new();
    for i in 0..25 {
        assert_eq!(p.yank_one((plain(), format!("{i}").into_bytes())), Ok(format!("{i}").len()));
    }
    let expected: Vec<String> = (15..25).rev().map(|i| i.to_string()).collect();
    assert_eq!(numerics(&p), expected);
}

#[test]
fn a_full_circle_restores_every_register() {
    let mut p = Pincer::new();
    for i in 0..10 {
        p.yank_one((plain(), format!("{i}").into_bytes())).unwrap();
    }
    let before = numerics(&p);
    // Each yank puts back into "0 what the step on the circle brought round from "9
    for _ in 0..10 {
        let last = held(&p, "9").unwrap();
        p.yank_one((plain(), last.into_bytes())).unwrap();
    }
    assert_eq!(numerics(&p), before);
}

#[test]
fn a_few_yanks_push_up() {
    let mut p = Pincer::new();
    p.yank(clipping("one").into_iter()).unwrap();
    p.yank(clipping("two").into_iter()).unwrap();
    assert_eq!(held(&p, "0"), Some("two".to_string()));
    assert_eq!(held(&p, "1"), Some("one".to_string()));
    assert_eq!(held(&p, "2"), None);
}

#[test]
fn a_yank_into_a_higher_numeric_register_shifts_too() {
    let mut p = Pincer::new();
    for i in 0..10 {
        p.yank_one((plain(), format!("{i}").into_bytes())).unwrap();
    }
    p.yank_one_into(Some(addr("3")), (plain(), b"new".to_vec())).unwrap();
    assert_eq!(numerics(&p), ["0", "9", "8", "new", "6", "5", "4", "3", "2", "1"]);
}

#[test]
fn a_yank_into_a_named_register_changes_no_other() {
    let mut p = Pincer::new();
    p.yank_one((plain(), b"zero".to_vec())).unwrap();
    p.yank_one_into(Some(addr("a")), (plain(), b"a".to_vec())).unwrap();
    p.yank_one_into(Some(addr("b")), (plain(), b"b".to_vec())).unwrap();
    p.yank_one_into(Some(addr("a")), (plain(), b"aa".to_vec())).unwrap();
    assert_eq!(held(&p, "a"), Some("aa".to_string()));
    assert_eq!(held(&p, "b"), Some("b".to_string()));
    assert_eq!(held(&p, "0"), Some("zero".to_string()));
    assert_eq!(held(&p, "1"), None);
}

#[test]
fn a_yank_replaces_what_was_there() {
    let mut p = Pincer::new();
    p.yank_into(
        Some(addr("q")),
        vec![("a".to_string(), vec![1]), ("b".to_string(), vec![2, 3])].into_iter(),
    )
    .unwrap();
    let n = p
        .yank_into(
            Some(addr("q")),
            vec![("a".to_string(), vec![4]), ("a".to_string(), vec![5, 6])].into_iter(),
        )
        .unwrap();
    assert_eq!(n, 3);
    assert_eq!(p.paste_from(Some(addr("q")), &"a".to_string()), Ok(&vec![5, 6]));
    assert!(p.paste_from(Some(addr("q")), &"b".to_string()).is_err());
}

#[test]
fn a_missing_mime_type_is_reported() {
    let mut p = Pincer::new();
    assert_eq!(
        p.paste_from(None, &plain()),
        Err("Register Numeric(Bounded(0)) does not contain MIME type text/plain".to_string())
    );
    p.set(addr("z"));
    assert_eq!(
        p.paste(&plain()),
        Err("Register Named(Bounded(25)) does not contain MIME type text/plain".to_string())
    );
}

#[test]
fn the_pointer_chooses_the_register() {
    let mut p = Pincer::new();
    p.yank_one((plain(), b"zero".to_vec())).unwrap();
    p.set(addr("a"));
    assert_eq!(p.get(), Some(addr("a")));
    assert_eq!(p.get_active(), addr("a"));
    p.yank_one((plain(), b"a".to_vec())).unwrap();
    assert_eq!(p.paste(&plain()), Ok(&b"a".to_vec()));
    assert_eq!(held(&p, "0"), Some("zero".to_string()));
    p.unset();
    assert_eq!(p.get(), None);
    assert_eq!(p.paste(&plain()), Ok(&b"zero".to_vec()));
}

#[test]
fn a_copy_goes_in_the_first_register() {
    let mut p = Pincer::new();
    assert_eq!(p.clip(clipping("one").into_iter()), Ok(3));
    assert_eq!(p.clip(clipping("two").into_iter()), Ok(3));
    assert_eq!(held(&p, "0"), Some("two".to_string()));
    assert_eq!(held(&p, "1"), Some("one".to_string()));
}

#[test]
fn a_copy_also_goes_in_the_active_register() {
    let mut p = Pincer::new();
    p.clip(clipping("one").into_iter()).unwrap();
    p.set(addr("a"));
    p.clip(clipping("two").into_iter()).unwrap();
    assert_eq!(held(&p, "a"), Some("two".to_string()));
    assert_eq!(held(&p, "b"), None);
    assert_eq!(held(&p, "0"), Some("two".to_string()));
    assert_eq!(held(&p, "1"), Some("one".to_string()));
    assert_eq!(p.paste(&plain()), Ok(&b"two".to_vec()));
}

#[test]
fn a_copy_with_a_numeric_pointer() {
    let mut p = Pincer::new();
    for i in 0..10 {
        p.clip(clipping(&i.to_string()).into_iter()).unwrap();
    }
    p.set(addr("2"));
    p.clip(clipping("new").into_iter()).unwrap();
    assert_eq!(numerics(&p), ["new", "9", "new", "7", "6", "5", "4", "3", "2", "1"]);
}

#[test]
fn yanks_and_copies_keep_the_pointer() {
    let mut p = Pincer::new();
    p.yank_one((plain(), b"x".to_vec())).unwrap();
    assert_eq!(p.get(), None);
    p.set(addr("4"));
    p.yank_one((plain(), b"x".to_vec())).unwrap();
    p.clip(clipping("y").into_iter()).unwrap();
    assert_eq!(p.get(), Some(addr("4")));
}

#[test]
fn selecting_then_copying_then_pasting() {
    for a in RegisterAddress::iter() {
        let mut p = Pincer::new();
        p.clip(clipping("old").into_iter()).unwrap();
        p.set(a);
        p.clip(clipping("new").into_iter()).unwrap();
        assert_eq!(p.paste(&plain()), Ok(&b"new".to_vec()));
        assert_eq!(p.paste_from(Some(a), &plain()), Ok(&b"new".to_vec()));
        assert_eq!(held(&p, "0"), Some("new".to_string()));
    }
}

#[test]
fn listing_shows_what_each_register_holds() {
    let mut p = Pincer::new();
    p.yank_one((plain(), b"one".to_vec())).unwrap();
    p.yank_one(("image/png".to_string(), vec![0; 9])).unwrap();
    p.yank_one_into(Some(addr("c")), (plain(), b"see".to_vec())).unwrap();
    let list: Vec<(String, String, usize)> = p
        .list()
        .unwrap()
        .into_iter()
        .map(|(a, s)| match s {
            RegisterSummary::Text(t, n) => (a.to_string(), t, n),
            RegisterSummary::Blob(m, n) => (a.to_string(), m, n),
        })
        .collect();
    assert_eq!(
        list,
        vec![
            ("\"0".to_string(), "image/png".to_string(), 9),
            ("\"1".to_string(), "one".to_string(), 3),
            ("\"c".to_string(), "see".to_string(), 3),
        ]
    );
}

#[test]
fn seats_have_one_pincer_each() {
    let mut m = SeatPincerMap::new();
    assert!(m.insert("seat0".to_string(), Pincer::new()).is_none());
    let mut p = Pincer::new();
    p.set(addr("x"));
    assert!(m.insert("seat0".to_string(), p).is_some());
    assert_eq!(m.len(), 1);
    assert_eq!(m.get(&"seat0".to_string()).unwrap().get(), Some(addr("x")));
    assert!(m.get(&"seat1".to_string()).is_none());
    assert!(m.remove(&"seat1".to_string()).is_none());
    assert!(m.remove(&"seat0".to_string()).is_some());
    assert_eq!(m.len(), 0);
}
