use yazi_config::error::ErrorKind;
use yazi_config::fs::{Cha, File};
use yazi_config::icons::Icons;
use yazi_config::rules::{Category, RawIcons, RawRule};
use yazi_config::preset::Preset;
use yazi_config::theme::Color;

fn rule(name: &str, text: &str) -> RawRule {
    RawRule { name: name.to_string(), text: text.to_string(), fg: None }
}

fn colored(name: &str, text: &str, fg: &str) -> RawRule {
    RawRule { name: name.to_string(), text: text.to_string(), fg: Some(Color(fg.to_string())) }
}

fn plain_file(url: &str) -> File {
    File::new(url, Cha::default())
}

fn dir(url: &str) -> File {
    File::new(url, Cha { is_dir: true, ..Cha::default() })
}

fn text_of(icons: &Icons, file: &File) -> Option<String> {
    icons.matches(file).map(|icon| icon.text.clone())
}

#[test]
fn mix_concatenates_in_order() {
    let all = Preset::mix(vec![1, 2], vec![3], vec![4, 5, 6]);
    assert_eq!(all, vec![1, 2, 3, 4, 5, 6]);
}

#[test]
fn mix_of_empty_lists_is_empty() {
    let all: Vec<u8> = Preset::mix(vec![], vec![], vec![]);
    assert!(all.is_empty());
    assert_eq!(Preset::mix(vec![], vec![7], vec![]), vec![7]);
    assert_eq!(Preset::mix(vec![8], vec![], vec![9]), vec![8, 9]);
}

#[test]
fn mix_keeps_duplicates() {
    assert_eq!(Preset::mix(vec!["a"], vec!["a"], vec!["a"]), vec!["a", "a", "a"]);
}

#[test]
fn base_dir_rule_is_not_shadowed_by_appended_rule() {
    let raw = RawIcons {
        dirs: vec![rule("src", "📁")],
        append_dirs: vec![rule("src", "📦")],
        ..RawIcons::default()
    };
    let icons = Icons::build(raw).unwrap();
    assert_eq!(text_of(&icons, &dir("src")), Some("📁".to_string()));
}

#[test]
fn glob_precedes_extension() {
    let raw = RawIcons {
        globs: vec![rule("*.tmp", "🗑")],
        exts: vec![rule("tmp", "📄")],
        ..RawIcons::default()
    };
    let icons = Icons::build(raw).unwrap();
    assert_eq!(text_of(&icons, &plain_file("a/b.tmp")), Some("🗑".to_string()));
}

#[test]
fn first_true_condition_wins() {
    let raw = RawIcons {
        conds: vec![rule("exec", "⚙"), rule("hidden", "👻")],
        ..RawIcons::default()
    };
    let icons = Icons::build(raw).unwrap();
    let file = File::new("bin/run", Cha { is_exec: true, is_hidden: true, ..Cha::default() });
    assert_eq!(text_of(&icons, &file), Some("⚙".to_string()));
    let hidden = File::new("bin/run", Cha { is_hidden: true, ..Cha::default() });
    assert_eq!(text_of(&icons, &hidden), Some("👻".to_string()));
}

#[test]
fn no_match_gives_none() {
    let raw = RawIcons {
        globs: vec![rule("*.tmp", "🗑")],
        dirs: vec![rule("src", "📁")],
        files: vec![rule("Makefile", "M")],
        exts: vec![rule("rs", "R")],
        conds: vec![rule("exec", "⚙")],
        ..RawIcons::default()
    };
    let icons = Icons::build(raw).unwrap();
    assert_eq!(text_of(&icons, &plain_file("a/b.txt")), None);
    assert_eq!(text_of(&icons, &dir("a/docs")), None);
}

#[test]
fn empty_store_gives_none() {
    let icons = Icons::build(RawIcons::default()).unwrap();
    assert!(icons.matches(&plain_file("a/b.tmp")).is_none());
    assert!(icons.matches(&dir("src")).is_none());
}

#[test]
fn prepended_rule_shadows_base_and_appended() {
    let raw = RawIcons {
        prepend_files: vec![rule("Makefile", "P")],
        files: vec![rule("Makefile", "B"), rule("LICENSE", "L")],
        append_files: vec![rule("Makefile", "A"), rule("LICENSE", "X"), rule("README", "R")],
        ..RawIcons::default()
    };
    let icons = Icons::build(raw).unwrap();
    assert_eq!(text_of(&icons, &plain_file("x/Makefile")), Some("P".to_string()));
    assert_eq!(text_of(&icons, &plain_file("x/LICENSE")), Some("L".to_string()));
    assert_eq!(text_of(&icons, &plain_file("x/README")), Some("R".to_string()));
}

#[test]
fn first_of_two_rules_in_one_list_wins() {
    let raw = RawIcons {
        exts: vec![rule("rs", "1"), rule("rs", "2")],
        ..RawIcons::default()
    };
    let icons = Icons::build(raw).unwrap();
    assert_eq!(text_of(&icons, &plain_file("main.rs")), Some("1".to_string()));
}

#[test]
fn glob_wins_over_name_extension_and_condition() {
    let raw = RawIcons {
        globs: vec![rule("*.rs", "G")],
        files: vec![rule("main.rs", "N")],
        exts: vec![rule("rs", "E")],
        conds: vec![rule("!dir", "C")],
        ..RawIcons::default()
    };
    let icons = Icons::build(raw).unwrap();
    assert_eq!(text_of(&icons, &plain_file("src/main.rs")), Some("G".to_string()));
}

#[test]
fn name_wins_over_extension() {
    let raw = RawIcons {
        files: vec![rule("main.rs", "N")],
        exts: vec![rule("rs", "E")],
        conds: vec![rule("!dir", "C")],
        ..RawIcons::default()
    };
    let icons = Icons::build(raw).unwrap();
    assert_eq!(text_of(&icons, &plain_file("src/main.rs")), Some("N".to_string()));
    assert_eq!(text_of(&icons, &plain_file("src/lib.rs")), Some("E".to_string()));
}

#[test]
fn extension_wins_over_condition() {
    let raw = RawIcons {
        exts: vec![rule("rs", "E")],
        conds: vec![rule("!dir", "C")],
        ..RawIcons::default()
    };
    let icons = Icons::build(raw).unwrap();
    assert_eq!(text_of(&icons, &plain_file("src/lib.rs")), Some("E".to_string()));
    assert_eq!(text_of(&icons, &plain_file("src/lib.py")), Some("C".to_string()));
}

#[test]
fn globs_are_tried_in_merge_order() {
    let raw = RawIcons {
        prepend_globs: vec![rule("*.tar.gz", "P")],
        globs: vec![rule("*.gz", "B")],
        append_globs: vec![rule("*", "A")],
        ..RawIcons::default()
    };
    let icons = Icons::build(raw).unwrap();
    assert_eq!(text_of(&icons, &plain_file("a/x.tar.gz")), Some("P".to_string()));
    assert_eq!(text_of(&icons, &plain_file("a/x.gz")), Some("B".to_string()));
    assert_eq!(text_of(&icons, &plain_file("a/x")), Some("A".to_string()));
}

#[test]
fn conditions_are_tried_in_merge_order() {
    let raw = RawIcons {
        prepend_conds: vec![rule("link", "P")],
        conds: vec![rule("exec", "B")],
        append_conds: vec![rule("exec | link", "A")],
        ..RawIcons::default()
    };
    let icons = Icons::build(raw).unwrap();
    let both = File::new("f", Cha { is_exec: true, is_link: true, ..Cha::default() });
    assert_eq!(text_of(&icons, &both), Some("P".to_string()));
    let exec = File::new("f", Cha { is_exec: true, ..Cha::default() });
    assert_eq!(text_of(&icons, &exec), Some("B".to_string()));
}

#[test]
fn exact_key_is_preferred_to_lower_case_key() {
    let raw = RawIcons {
        files: vec![rule("readme", "lower"), rule("README", "upper")],
        ..RawIcons::default()
    };
    let icons = Icons::build(raw).unwrap();
    assert_eq!(text_of(&icons, &plain_file("README")), Some("upper".to_string()));
    assert_eq!(text_of(&icons, &plain_file("readme")), Some("lower".to_string()));
}

#[test]
fn lower_case_key_is_the_fallback() {
    let raw = RawIcons {
        dirs: vec![rule("downloads", "D")],
        files: vec![rule("readme", "F")],
        exts: vec![rule("tmp", "E")],
        ..RawIcons::default()
    };
    let icons = Icons::build(raw).unwrap();
    assert_eq!(text_of(&icons, &plain_file("ReadMe")), Some("F".to_string()));
    assert_eq!(text_of(&icons, &dir("home/Downloads")), Some("D".to_string()));
    assert_eq!(text_of(&icons, &plain_file("a/B.TMP")), Some("E".to_string()));
}

#[test]
fn upper_case_key_is_not_found_by_lower_case_name() {
    let raw = RawIcons { files: vec![rule("README", "F")], ..RawIcons::default() };
    let icons = Icons::build(raw).unwrap();
    assert_eq!(text_of(&icons, &plain_file("readme")), None);
}

#[test]
fn directories_use_dir_rules_only() {
    let raw = RawIcons {
        dirs: vec![rule("src", "D")],
        files: vec![rule("src", "F"), rule("build", "B")],
        exts: vec![rule("d", "E")],
        ..RawIcons::default()
    };
    let icons = Icons::build(raw).unwrap();
    assert_eq!(text_of(&icons, &dir("src")), Some("D".to_string()));
    assert_eq!(text_of(&icons, &plain_file("src")), Some("F".to_string()));
    assert_eq!(text_of(&icons, &dir("build")), None);
    assert_eq!(text_of(&icons, &dir("conf.d")), None);
    assert_eq!(text_of(&icons, &plain_file("conf.d")), Some("E".to_string()));
}

#[test]
fn resolving_twice_gives_the_same_icon() {
    let raw = RawIcons {
        globs: vec![rule("*.tmp", "G")],
        exts: vec![rule("rs", "E")],
        conds: vec![rule("hidden", "C")],
        ..RawIcons::default()
    };
    let icons = Icons::build(raw).unwrap();
    for url in ["a/b.tmp", "a/b.rs", "a/b"] {
        let file = File::new(url, Cha { is_hidden: true, ..Cha::default() });
        let first = icons.matches(&file);
        let second = icons.matches(&file);
        assert_eq!(first, second);
        assert!(first.is_some());
    }
}

#[test]
fn unknown_predicate_does_not_match_and_does_not_stop_the_search() {
    let raw = RawIcons {
        conds: vec![rule("bogus", "1"), rule("!bogus", "2"), rule("bogus | !bogus", "3"), rule("exec", "4")],
        ..RawIcons::default()
    };
    let icons = Icons::build(raw).unwrap();
    let exec = File::new("f", Cha { is_exec: true, ..Cha::default() });
    assert_eq!(text_of(&icons, &exec), Some("4".to_string()));
    assert_eq!(text_of(&icons, &plain_file("f")), None);
}

#[test]
fn unknown_predicate_beside_a_deciding_one() {
    let raw = RawIcons {
        conds: vec![rule("hidden & bogus", "and"), rule("exec | bogus", "or")],
        ..RawIcons::default()
    };
    let icons = Icons::build(raw).unwrap();
    let exec = File::new("f", Cha { is_exec: true, ..Cha::default() });
    assert_eq!(text_of(&icons, &exec), Some("or".to_string()));
}

#[test]
fn dir_predicate_follows_the_directory_flag() {
    let raw = RawIcons { conds: vec![rule("dir", "D"), rule("!dir", "F")], ..RawIcons::default() };
    let icons = Icons::build(raw).unwrap();
    assert_eq!(text_of(&icons, &dir("x")), Some("D".to_string()));
    assert_eq!(text_of(&icons, &plain_file("x")), Some("F".to_string()));
}

#[test]
fn icon_keeps_text_and_colour() {
    let raw = RawIcons {
        exts: vec![colored("rs", "", "#dea584"), rule("py", "")],
        ..RawIcons::default()
    };
    let icons = Icons::build(raw).unwrap();
    let rs = icons.matches(&plain_file("main.rs")).unwrap();
    assert_eq!(rs.text, "");
    assert_eq!(rs.style.fg, Some(Color("#dea584".to_string())));
    let py = icons.matches(&plain_file("main.py")).unwrap();
    assert_eq!(py.text, "");
    assert_eq!(py.style.fg, None);
}

#[test]
fn invalid_glob_is_reported_with_its_place() {
    let raw = RawIcons {
        prepend_globs: vec![rule("*.a", "1")],
        globs: vec![rule("*.b", "2"), rule("*.[ch]", "3"), rule("", "4")],
        ..RawIcons::default()
    };
    let e = Icons::build(raw).err().unwrap();
    assert_eq!(e.category, Category::Globs);
    assert_eq!(e.index, 2);
    assert_eq!(e.error.kind, ErrorKind::Pattern);
    assert_eq!(e.error.value, "*.[ch]");
    assert_eq!(e.error.message(), "Invalid pattern: *.[ch]");
}

#[test]
fn invalid_condition_is_reported_with_its_place() {
    let raw = RawIcons {
        conds: vec![rule("exec", "1")],
        append_conds: vec![rule("exec &", "2"), rule("(", "3")],
        ..RawIcons::default()
    };
    let e = Icons::build(raw).err().unwrap();
    assert_eq!(e.category, Category::Conds);
    assert_eq!(e.index, 1);
    assert_eq!(e.error.kind, ErrorKind::Condition);
    assert_eq!(e.error.value, "exec &");
    assert_eq!(e.error.message(), "Invalid condition: exec &");
}

#[test]
fn invalid_glob_is_reported_before_invalid_condition() {
    let raw = RawIcons {
        globs: vec![rule("{a,b}", "1")],
        conds: vec![rule("&", "2")],
        ..RawIcons::default()
    };
    let e = Icons::build(raw).err().unwrap();
    assert_eq!(e.category, Category::Globs);
    assert_eq!(e.index, 0);
}

#[test]
fn keyed_rules_are_never_rejected() {
    let raw = RawIcons {
        dirs: vec![rule("", "1"), rule("a[b", "2")],
        files: vec![rule("&", "3")],
        exts: vec![rule("{", "4")],
        ..RawIcons::default()
    };
    let icons = Icons::build(raw).unwrap();
    assert_eq!(text_of(&icons, &dir("x/a[b")), Some("2".to_string()));
    assert_eq!(text_of(&icons, &plain_file("&")), Some("3".to_string()));
    assert_eq!(text_of(&icons, &plain_file("x.{")), Some("4".to_string()));
}

#[test]
fn raw_rule_icon_copies_the_rule() {
    let icon = colored("k", "T", "red").icon();
    assert_eq!(icon.text, "T");
    assert_eq!(icon.style.fg, Some(Color("red".to_string())));
}

#[test]
fn names_are_looked_up_by_the_name_and_globs_by_the_path() {
    let raw = RawIcons {
        globs: vec![rule("*.iso", "G")],
        files: vec![rule("Disk image", "N")],
        ..RawIcons::default()
    };
    let icons = Icons::build(raw).unwrap();
    let shown = File { name: "Disk image".to_string(), url: "mnt/disk.img".to_string(), cha: Cha::default() };
    assert_eq!(text_of(&icons, &shown), Some("N".to_string()));
    let iso = File { name: "Disk image".to_string(), url: "mnt/disk.iso".to_string(), cha: Cha::default() };
    assert_eq!(text_of(&icons, &iso), Some("G".to_string()));
}
