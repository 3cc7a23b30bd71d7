//! How a rule store answers: the order of the categories, and the order
//! within each.
//!
//! For a file the categories are asked in a fixed order (globs, then names,
//! then extensions, then conditions) and the first answer is the icon.

use vstd::prelude::*;
use crate::condition::{Expr, Tri};
use crate::fs::{extension, Cha, FileView};
use crate::pattern::PatternView;
use crate::rules::{conds_of, first_wins, globs_of, RawIcons};
use crate::text::ascii_lowercase;
use crate::theme::IconView;

verus! {

/// The icon that `map` has for `key`: the one under `key` as written, else
/// the one under `key` in ASCII lower case.
pub open spec fn lookup(map: Map<Seq<char>, IconView>, key: Seq<char>) -> Option<IconView> {
    if map.contains_key(key) {
        Some(map[key])
    } else if map.contains_key(ascii_lowercase(key)) {
        Some(map[ascii_lowercase(key)])
    } else {
        None
    }
}

/// The icon of the first of `globs`, from position `from` on, that accepts
/// the path.
pub open spec fn first_glob(
    globs: Seq<(PatternView, IconView)>,
    from: int,
    path: Seq<char>,
    is_dir: bool,
) -> Option<IconView>
    decreases globs.len() - from,
{
    if from < 0 || from >= globs.len() {
        None
    } else if globs[from].0.accepts(path, is_dir) {
        Some(globs[from].1)
    } else {
        first_glob(globs, from + 1, path, is_dir)
    }
}

/// The icon of the first of `conds`, from position `from` on, that is true
/// of `cha`.
pub open spec fn first_cond(conds: Seq<(Expr, IconView)>, from: int, cha: Cha) -> Option<IconView>
    decreases conds.len() - from,
{
    if from < 0 || from >= conds.len() {
        None
    } else if conds[from].0.eval(&cha) == Tri::True {
        Some(conds[from].1)
    } else {
        first_cond(conds, from + 1, cha)
    }
}

/// The mathematical model of a rule store.
pub struct IconsView {
    pub globs: Seq<(PatternView, IconView)>,
    pub dirs: Map<Seq<char>, IconView>,
    pub files: Map<Seq<char>, IconView>,
    pub exts: Map<Seq<char>, IconView>,
    pub conds: Seq<(Expr, IconView)>,
}

impl IconsView {
    /// What the glob rules say of `file`.
    pub open spec fn by_glob(self, file: FileView) -> Option<IconView> {
        first_glob(self.globs, 0, file.url, file.cha.is_dir)
    }

    /// What the rules by extension say of `file`.
    pub open spec fn by_ext(self, file: FileView) -> Option<IconView> {
        match extension(file.url) {
            Some(ext) => lookup(self.exts, ext),
            None => None,
        }
    }

    /// What the rules by name say of `file`: for a directory the rules by
    /// directory name; for any other file the rules by file name and, where
    /// they have nothing, the rules by extension.
    pub open spec fn by_name(self, file: FileView) -> Option<IconView> {
        if file.cha.is_dir {
            lookup(self.dirs, file.name)
        } else {
            match lookup(self.files, file.name) {
                Some(icon) => Some(icon),
                None => self.by_ext(file),
            }
        }
    }

    /// What the conditional rules say of `file`.
    pub open spec fn by_cond(self, file: FileView) -> Option<IconView> {
        first_cond(self.conds, 0, file.cha)
    }

    /// The icon of `file`: the first answer among globs, names and
    /// conditions, in this order.
    pub open spec fn resolve(self, file: FileView) -> Option<IconView> {
        match self.by_glob(file) {
            Some(icon) => Some(icon),
            None => match self.by_name(file) {
                Some(icon) => Some(icon),
                None => self.by_cond(file),
            },
        }
    }

    /// Whether `answer` is what the store says of `file`.
    pub open spec fn is_answer(self, file: FileView, answer: Option<IconView>) -> bool {
        answer == self.resolve(file)
    }

    /// Whether the store is the one that `raw` describes.
    pub open spec fn built_from(self, raw: RawIcons) -> bool {
        &&& globs_of(self.globs, raw.glob_rules())
        &&& self.dirs == first_wins(raw.dir_rules())
        &&& self.files == first_wins(raw.file_rules())
        &&& self.exts == first_wins(raw.ext_rules())
        &&& conds_of(self.conds, raw.cond_rules())
    }
}

/// A key that the map holds as written gets the icon under that very key:
/// the lower-case form is asked only after the key as written has missed.
pub proof fn lemma_exact_key_first(map: Map<Seq<char>, IconView>, key: Seq<char>)
    ensures
        map.contains_key(key) ==> lookup(map, key) == Some(map[key]),
        !map.contains_key(key) && map.contains_key(ascii_lowercase(key)) ==> lookup(map, key)
            == Some(map[ascii_lowercase(key)]),
        !map.contains_key(key) && !map.contains_key(ascii_lowercase(key)) ==> lookup(map, key)
            is None,
{
}

/// Among the glob rules the first that accepts the path gives the icon.
pub proof fn lemma_first_glob(
    globs: Seq<(PatternView, IconView)>,
    from: int,
    path: Seq<char>,
    is_dir: bool,
    i: int,
)
    requires
        0 <= from <= i < globs.len(),
        globs[i].0.accepts(path, is_dir),
        forall|j: int| from <= j < i ==> !(#[trigger] globs[j]).0.accepts(path, is_dir),
    ensures
        first_glob(globs, from, path, is_dir) == Some(globs[i].1),
    decreases i - from,
{
    if from < i {
        lemma_first_glob(globs, from + 1, path, is_dir, i);
    }
}

/// Where no glob rule accepts the path, the glob rules give no icon.
pub proof fn lemma_no_glob(
    globs: Seq<(PatternView, IconView)>,
    from: int,
    path: Seq<char>,
    is_dir: bool,
)
    requires
        0 <= from,
        forall|j: int| from <= j < globs.len() ==> !(#[trigger] globs[j]).0.accepts(path, is_dir),
    ensures
        first_glob(globs, from, path, is_dir) is None,
    decreases globs.len() - from,
{
    if from < globs.len() {
        lemma_no_glob(globs, from + 1, path, is_dir);
    }
}

/// Among the conditional rules the first that is true of the file gives the
/// icon; one that is false or unknown is passed over.
pub proof fn lemma_first_cond(conds: Seq<(Expr, IconView)>, from: int, cha: Cha, i: int)
    requires
        0 <= from <= i < conds.len(),
        conds[i].0.eval(&cha) == Tri::True,
        forall|j: int| from <= j < i ==> (#[trigger] conds[j]).0.eval(&cha) != Tri::True,
    ensures
        first_cond(conds, from, cha) == Some(conds[i].1),
    decreases i - from,
{
    if from < i {
        lemma_first_cond(conds, from + 1, cha, i);
    }
}

/// Where no conditional rule is true of the file, the conditional rules
/// give no icon.
pub proof fn lemma_no_cond(conds: Seq<(Expr, IconView)>, from: int, cha: Cha)
    requires
        0 <= from,
        forall|j: int| from <= j < conds.len() ==> (#[trigger] conds[j]).0.eval(&cha) != Tri::True,
    ensures
        first_cond(conds, from, cha) is None,
    decreases conds.len() - from,
{
    if from < conds.len() {
        lemma_no_cond(conds, from + 1, cha);
    }
}

/// The order of the categories. A glob rule that accepts the file decides,
/// whatever the other categories hold. Without one, a rule by name decides
/// over the rules by extension and the conditional rules. Without that, for
/// a file that is no directory, a rule by extension decides over the
/// conditional rules.
pub proof fn lemma_priority(store: IconsView, file: FileView)
    ensures
        store.by_glob(file) is Some ==> store.resolve(file) == store.by_glob(file),
        store.by_glob(file) is None && file.cha.is_dir ==> store.resolve(file) == (match lookup(
            store.dirs,
            file.name,
        ) {
            Some(icon) => Some(icon),
            None => store.by_cond(file),
        }),
        store.by_glob(file) is None && !file.cha.is_dir && lookup(store.files, file.name) is Some
            ==> store.resolve(file) == lookup(store.files, file.name),
        store.by_glob(file) is None && !file.cha.is_dir && lookup(store.files, file.name) is None
            && store.by_ext(file) is Some ==> store.resolve(file) == store.by_ext(file),
        store.by_glob(file) is None && !file.cha.is_dir && lookup(store.files, file.name) is None
            && store.by_ext(file) is None ==> store.resolve(file) == store.by_cond(file),
{
}

/// A file has one answer: two results that both meet what `matches`
/// promises for the same store and the same file are the same icon, or are
/// both none.
pub proof fn lemma_one_answer(
    store: IconsView,
    file: FileView,
    first: Option<IconView>,
    second: Option<IconView>,
)
    requires
        store.is_answer(file, first),
        store.is_answer(file, second),
    ensures
        first == second,
{
}

} // verus!
