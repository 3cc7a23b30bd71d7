use yazi_config::condition::{Condition, FactTable, Facts, Tri};
use yazi_config::error::ErrorKind;
use yazi_config::fs::Cha;

fn term(name: &str) -> Condition {
    Condition::Term(name.to_string())
}

fn not(a: Condition) -> Condition {
    Condition::Not(Box::new(a))
}

fn and(a: Condition, b: Condition) -> Condition {
    Condition::And(Box::new(a), Box::new(b))
}

fn or(a: Condition, b: Condition) -> Condition {
    Condition::Or(Box::new(a), Box::new(b))
}

fn eval(text: &str, cha: &Cha) -> Tri {
    Condition::from_str(text).unwrap().eval(cha)
}

#[test]
fn parses_a_single_name() {
    assert_eq!(Condition::from_str("hidden"), Ok(term("hidden")));
    assert_eq!(Condition::from_str("  hidden\t\n"), Ok(term("hidden")));
}

#[test]
fn and_binds_tighter_than_or() {
    assert_eq!(Condition::from_str("a | b & c"), Ok(or(term("a"), and(term("b"), term("c")))));
    assert_eq!(Condition::from_str("a & b | c"), Ok(or(and(term("a"), term("b")), term("c"))));
}

#[test]
fn not_binds_tighter_than_and() {
    assert_eq!(Condition::from_str("!a & b"), Ok(and(not(term("a")), term("b"))));
    assert_eq!(Condition::from_str("!!a"), Ok(not(not(term("a")))));
}

#[test]
fn parentheses_group() {
    assert_eq!(Condition::from_str("(a | b) & c"), Ok(and(or(term("a"), term("b")), term("c"))));
    assert_eq!(Condition::from_str("!(a & b)"), Ok(not(and(term("a"), term("b")))));
    assert_eq!(Condition::from_str("((a))"), Ok(term("a")));
}

#[test]
fn chains_group_to_the_right() {
    assert_eq!(Condition::from_str("a & b & c"), Ok(and(term("a"), and(term("b"), term("c")))));
    assert_eq!(Condition::from_str("a | b | c"), Ok(or(term("a"), or(term("b"), term("c")))));
}

#[test]
fn white_space_is_optional() {
    assert_eq!(Condition::from_str("a&b|!c"), Ok(or(and(term("a"), term("b")), not(term("c")))));
    assert_eq!(Condition::from_str(" a &\tb "), Ok(and(term("a"), term("b"))));
}

#[test]
fn names_are_runs_of_other_characters() {
    assert_eq!(Condition::from_str("is-exec_2 & é"), Ok(and(term("is-exec_2"), term("é"))));
}

#[test]
fn malformed_conditions_are_rejected() {
    for text in ["", "   ", "a b", "a &", "& a", "a | | b", "(a", "a)", "()", "!", "a !", "a ! b", "(a & )"] {
        let e = Condition::from_str(text).err().unwrap();
        assert_eq!(e.kind, ErrorKind::Condition);
        assert_eq!(e.value, text);
    }
}

#[test]
fn condition_error_message() {
    let e = Condition::from_str("a &").err().unwrap();
    assert_eq!(e.message(), "Invalid condition: a &");
}

#[test]
fn tri_connectives() {
    assert_eq!(Tri::True.not(), Tri::False);
    assert_eq!(Tri::False.not(), Tri::True);
    assert_eq!(Tri::Unknown.not(), Tri::Unknown);
    let t = Tri::True;
    let f = Tri::False;
    let u = Tri::Unknown;
    let and_table = [(t, t, t), (t, f, f), (t, u, u), (f, t, f), (f, f, f), (f, u, f), (u, t, u), (u, f, f), (u, u, u)];
    for (a, b, expected) in and_table {
        assert_eq!(a.and(b), expected);
    }
    let or_table = [(t, t, t), (t, f, t), (t, u, t), (f, t, t), (f, f, f), (f, u, u), (u, t, t), (u, f, u), (u, u, u)];
    for (a, b, expected) in or_table {
        assert_eq!(a.or(b), expected);
    }
}

#[test]
fn tri_from_fact() {
    assert_eq!(Tri::from_fact(Some(true)), Tri::True);
    assert_eq!(Tri::from_fact(Some(false)), Tri::False);
    assert_eq!(Tri::from_fact(None), Tri::Unknown);
    assert!(Tri::True.is_true());
    assert!(!Tri::False.is_true());
    assert!(!Tri::Unknown.is_true());
}

#[test]
fn known_names_evaluate_to_their_flags() {
    let cha = Cha { is_exec: true, is_link: true, ..Cha::default() };
    assert_eq!(eval("exec", &cha), Tri::True);
    assert_eq!(eval("hidden", &cha), Tri::False);
    assert_eq!(eval("exec & link", &cha), Tri::True);
    assert_eq!(eval("exec & hidden", &cha), Tri::False);
    assert_eq!(eval("hidden | link", &cha), Tri::True);
    assert_eq!(eval("hidden | dir", &cha), Tri::False);
    assert_eq!(eval("!hidden", &cha), Tri::True);
    assert_eq!(eval("!(exec & link)", &cha), Tri::False);
}

#[test]
fn unknown_name_with_false_under_and_is_false() {
    let cha = Cha::default();
    assert_eq!(eval("bogus & hidden", &cha), Tri::False);
    assert_eq!(eval("hidden & bogus", &cha), Tri::False);
}

#[test]
fn unknown_name_with_true_under_or_is_true() {
    let cha = Cha { is_exec: true, ..Cha::default() };
    assert_eq!(eval("bogus | exec", &cha), Tri::True);
    assert_eq!(eval("exec | bogus", &cha), Tri::True);
}

#[test]
fn unknown_name_is_unknown_where_nothing_decides() {
    let cha = Cha { is_exec: true, ..Cha::default() };
    assert_eq!(eval("bogus", &cha), Tri::Unknown);
    assert_eq!(eval("!bogus", &cha), Tri::Unknown);
    assert_eq!(eval("bogus & exec", &cha), Tri::Unknown);
    assert_eq!(eval("bogus | hidden", &cha), Tri::Unknown);
    assert_eq!(eval("bogus | !bogus", &cha), Tri::Unknown);
    assert_eq!(eval("Exec", &cha), Tri::Unknown);
}

#[test]
fn cha_knows_eleven_names() {
    let names = ["dir", "hidden", "link", "orphan", "dummy", "block", "char", "fifo", "sock", "exec", "sticky"];
    let none = Cha::default();
    for name in names {
        assert_eq!(none.fact(name), Some(false));
    }
    assert_eq!(Cha { is_dir: true, ..none }.fact("dir"), Some(true));
    assert_eq!(Cha { is_hidden: true, ..none }.fact("hidden"), Some(true));
    assert_eq!(Cha { is_link: true, ..none }.fact("link"), Some(true));
    assert_eq!(Cha { is_orphan: true, ..none }.fact("orphan"), Some(true));
    assert_eq!(Cha { is_dummy: true, ..none }.fact("dummy"), Some(true));
    assert_eq!(Cha { is_block: true, ..none }.fact("block"), Some(true));
    assert_eq!(Cha { is_char: true, ..none }.fact("char"), Some(true));
    assert_eq!(Cha { is_fifo: true, ..none }.fact("fifo"), Some(true));
    assert_eq!(Cha { is_sock: true, ..none }.fact("sock"), Some(true));
    assert_eq!(Cha { is_exec: true, ..none }.fact("exec"), Some(true));
    assert_eq!(Cha { is_sticky: true, ..none }.fact("sticky"), Some(true));
    assert_eq!(Cha { is_exec: true, ..none }.fact("sticky"), Some(false));
    for name in ["", "file", "DIR", "exec ", "executable"] {
        assert_eq!(none.fact(name), None);
    }
}

#[test]
fn fact_table_knows_what_was_set() {
    let mut table = FactTable::new();
    assert_eq!(table.fact("remote"), None);
    table.set("remote", true);
    table.set("stale", false);
    assert_eq!(table.fact("remote"), Some(true));
    assert_eq!(table.fact("stale"), Some(false));
    assert_eq!(table.fact("Remote"), None);
    table.set("remote", false);
    assert_eq!(table.fact("remote"), Some(false));
}

#[test]
fn conditions_can_be_asked_of_a_fact_table() {
    let mut table = FactTable::new();
    table.set("remote", true);
    table.set("stale", false);
    let value = |text: &str| Condition::from_str(text).unwrap().eval(&table);
    assert_eq!(value("remote & !stale"), Tri::True);
    assert_eq!(value("hidden | stale"), Tri::Unknown);
    assert_eq!(value("hidden & stale"), Tri::False);
    assert_eq!(value("hidden | remote"), Tri::True);
    assert_eq!(value("!hidden"), Tri::Unknown);
}

#[test]
fn terms_written_in_full_are_read_back() {
    assert_eq!(Condition::from_str("(a & b) | (!c)"), Ok(or(and(term("a"), term("b")), not(term("c")))));
    assert_eq!(Condition::from_str("(a | b) & (c | d)"), Ok(and(or(term("a"), term("b")), or(term("c"), term("d")))));
    assert_eq!(Condition::from_str("!(!(a))"), Ok(not(not(term("a")))));
    assert_eq!(Condition::from_str("(a & b) & c"), Ok(and(and(term("a"), term("b")), term("c"))));
}
