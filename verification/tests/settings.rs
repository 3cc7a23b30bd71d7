use yazi_config::error::{ErrorKind, ParseError};
use yazi_config::fs::Cha;
use yazi_config::is::Is;
use yazi_config::preview::PreviewWrap;
use yazi_config::tasks::{Tasks, TasksField};

fn tasks(micro: u8, macro_: u8, retry: u8) -> Tasks {
    Tasks {
        micro_workers: micro,
        macro_workers: macro_,
        bizarre_retry: retry,
        image_alloc: 536870912,
        image_bound: [0, 0],
        suppress_preload: false,
    }
}

#[test]
fn wrap_reads_yes_and_no() {
    assert_eq!(PreviewWrap::from_str("no"), Ok(PreviewWrap::No));
    assert_eq!(PreviewWrap::from_str("yes"), Ok(PreviewWrap::Yes));
    assert_eq!(PreviewWrap::try_from("yes".to_string()), Ok(PreviewWrap::Yes));
    assert_eq!("no".parse::<PreviewWrap>(), Ok(PreviewWrap::No));
}

#[test]
fn wrap_rejects_everything_else() {
    for text in ["", "Yes", "NO", "true", "yes ", "y"] {
        let e = PreviewWrap::from_str(text).err().unwrap();
        assert_eq!(e, ParseError { kind: ErrorKind::Wrap, value: text.to_string() });
        assert_eq!(PreviewWrap::try_from(text.to_string()), Err(e));
    }
    let e = PreviewWrap::from_str("maybe").err().unwrap();
    assert_eq!(e.message(), "Invalid `wrap` value: maybe");
}

#[test]
fn is_reads_every_file_type() {
    let all = [
        ("hidden", Is::Hidden),
        ("link", Is::Link),
        ("orphan", Is::Orphan),
        ("dummy", Is::Dummy),
        ("block", Is::Block),
        ("char", Is::Char),
        ("fifo", Is::Fifo),
        ("sock", Is::Sock),
        ("exec", Is::Exec),
        ("sticky", Is::Sticky),
    ];
    for (name, is) in all {
        assert_eq!(Is::from_str(name), Ok(is));
        assert_eq!(Is::try_from(name.to_string()), Ok(is));
        assert_eq!(name.parse::<Is>(), Ok(is));
    }
}

#[test]
fn is_rejects_everything_else() {
    for text in ["", "none", "any", "dir", "Hidden", "exec "] {
        let e = Is::from_str(text).err().unwrap();
        assert_eq!(e, ParseError { kind: ErrorKind::FileType, value: text.to_string() });
    }
    let e = Is::from_str("folder").err().unwrap();
    assert_eq!(e.message(), "invalid filetype: folder");
}

#[test]
fn is_defaults_to_any() {
    assert_eq!(Is::default(), Is::Any);
    assert!(Is::Any.check(&Cha::default()));
    assert!(Is::Any.check(&Cha { is_exec: true, ..Cha::default() }));
}

#[test]
fn is_checks_its_own_flag() {
    let none = Cha::default();
    let cases = [
        (Is::Hidden, Cha { is_hidden: true, ..none }),
        (Is::Link, Cha { is_link: true, ..none }),
        (Is::Orphan, Cha { is_orphan: true, ..none }),
        (Is::Dummy, Cha { is_dummy: true, ..none }),
        (Is::Block, Cha { is_block: true, ..none }),
        (Is::Char, Cha { is_char: true, ..none }),
        (Is::Fifo, Cha { is_fifo: true, ..none }),
        (Is::Sock, Cha { is_sock: true, ..none }),
        (Is::Exec, Cha { is_exec: true, ..none }),
        (Is::Sticky, Cha { is_sticky: true, ..none }),
    ];
    for (i, (is, cha)) in cases.iter().enumerate() {
        assert!(!is.check(&none));
        for (j, (other, _)) in cases.iter().enumerate() {
            assert_eq!(other.check(cha), i == j);
        }
    }
}

#[test]
fn tasks_in_range_are_valid() {
    assert_eq!(tasks(1, 1, 1).validate(), Ok(()));
    assert_eq!(tasks(10, 25, 5).validate(), Ok(()));
    assert_eq!(tasks(255, 255, 255).validate(), Ok(()));
}

#[test]
fn tasks_out_of_range_are_named() {
    assert_eq!(tasks(0, 1, 1).validate(), Err(vec![TasksField::MicroWorkers]));
    assert_eq!(tasks(1, 0, 1).validate(), Err(vec![TasksField::MacroWorkers]));
    assert_eq!(tasks(1, 1, 0).validate(), Err(vec![TasksField::BizarreRetry]));
    assert_eq!(
        tasks(0, 3, 0).validate(),
        Err(vec![TasksField::MicroWorkers, TasksField::BizarreRetry])
    );
    assert_eq!(
        tasks(0, 0, 0).validate(),
        Err(vec![TasksField::MicroWorkers, TasksField::MacroWorkers, TasksField::BizarreRetry])
    );
}

#[test]
fn tasks_fields_have_names_and_a_message() {
    assert_eq!(TasksField::MicroWorkers.name(), "micro_workers");
    assert_eq!(TasksField::MacroWorkers.name(), "macro_workers");
    assert_eq!(TasksField::BizarreRetry.name(), "bizarre_retry");
    assert_eq!(TasksField::BizarreRetry.message(), "Cannot be less than 1");
}
