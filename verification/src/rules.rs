//! Icon rules as a theme writes them: the layered lists of each category,
//! and what the lists of a category come to once they are merged.

use vstd::prelude::*;
use crate::condition::Expr;
use crate::error::ParseError;
use crate::grammar::parse;
use crate::pattern::{parse_pattern, PatternView};
use crate::theme::{Color, Icon, IconView};

verus! {

/// The categories of icon rules.
#[derive(Clone, Copy, Debug, PartialEq, Eq, Structural)]
pub enum Category {
    Globs,
    Dirs,
    Files,
    Exts,
    Conds,
}

/// Why a rule store could not be built: the rule at position `index` of the
/// merged list of `category` could not be read.
#[derive(Debug, PartialEq, Eq)]
pub struct IconsError {
    pub category: Category,
    pub index: usize,
    pub error: ParseError,
}

/// A rule as the theme writes it. `name` is a pattern for glob rules, a
/// condition for conditional rules and the key for the other categories.
#[derive(Debug, PartialEq, Eq)]
pub struct RawRule {
    pub name: String,
    pub text: String,
    pub fg: Option<Color>,
}

/// The mathematical model of a [`RawRule`].
pub struct RawRuleView {
    pub name: Seq<char>,
    pub text: Seq<char>,
    pub fg: Option<Seq<char>>,
}

impl View for RawRule {
    type V = RawRuleView;

    open spec fn view(&self) -> RawRuleView {
        RawRuleView {
            name: self.name@,
            text: self.text@,
            fg: match self.fg {
                Some(c) => Some(c@),
                None => None,
            },
        }
    }
}

impl RawRuleView {
    /// The icon that the rule gives: its text as written, in its colour if it
    /// names one.
    pub open spec fn icon(self) -> IconView {
        IconView { text: self.text, fg: self.fg }
    }
}

impl RawRule {
    /// The icon that the rule gives.
    pub fn icon(&self) -> (icon: Icon)
        ensures
            icon@ == self@.icon(),
    {
        Icon::new(self.text.as_str(), self.fg.as_ref())
    }
}

/// The models of a list of rules.
pub open spec fn rule_views(rules: Seq<RawRule>) -> Seq<RawRuleView> {
    Seq::new(rules.len(), |i: int| rules[i]@)
}

/// The models of lists in a row are the models of the lists, in a row.
pub(crate) proof fn lemma_rule_views_concat(a: Seq<RawRule>, b: Seq<RawRule>, c: Seq<RawRule>)
    ensures
        rule_views(a + b + c) == rule_views(a) + rule_views(b) + rule_views(c),
{
}

/// The rules of a theme, by category. Each category has a base list, a list
/// to put in front of it and a list to put behind it; a list that the theme
/// does not write is empty.
#[derive(Debug, PartialEq, Eq)]
pub struct RawIcons {
    pub globs: Vec<RawRule>,
    pub prepend_globs: Vec<RawRule>,
    pub append_globs: Vec<RawRule>,
    pub dirs: Vec<RawRule>,
    pub prepend_dirs: Vec<RawRule>,
    pub append_dirs: Vec<RawRule>,
    pub files: Vec<RawRule>,
    pub prepend_files: Vec<RawRule>,
    pub append_files: Vec<RawRule>,
    pub exts: Vec<RawRule>,
    pub prepend_exts: Vec<RawRule>,
    pub append_exts: Vec<RawRule>,
    pub conds: Vec<RawRule>,
    pub prepend_conds: Vec<RawRule>,
    pub append_conds: Vec<RawRule>,
}

impl Default for RawIcons {
    /// No rules at all.
    fn default() -> (raw: RawIcons)
        ensures
            raw.glob_rules().len() == 0,
            raw.dir_rules().len() == 0,
            raw.file_rules().len() == 0,
            raw.ext_rules().len() == 0,
            raw.cond_rules().len() == 0,
    {
        RawIcons {
            globs: Vec::new(),
            prepend_globs: Vec::new(),
            append_globs: Vec::new(),
            dirs: Vec::new(),
            prepend_dirs: Vec::new(),
            append_dirs: Vec::new(),
            files: Vec::new(),
            prepend_files: Vec::new(),
            append_files: Vec::new(),
            exts: Vec::new(),
            prepend_exts: Vec::new(),
            append_exts: Vec::new(),
            conds: Vec::new(),
            prepend_conds: Vec::new(),
            append_conds: Vec::new(),
        }
    }
}

impl RawIcons {
    /// The glob rules in the order in which they count.
    pub open spec fn glob_rules(&self) -> Seq<RawRuleView> {
        rule_views(self.prepend_globs@) + rule_views(self.globs@) + rule_views(self.append_globs@)
    }

    /// The rules by directory name in the order in which they count.
    pub open spec fn dir_rules(&self) -> Seq<RawRuleView> {
        rule_views(self.prepend_dirs@) + rule_views(self.dirs@) + rule_views(self.append_dirs@)
    }

    /// The rules by file name in the order in which they count.
    pub open spec fn file_rules(&self) -> Seq<RawRuleView> {
        rule_views(self.prepend_files@) + rule_views(self.files@) + rule_views(self.append_files@)
    }

    /// The rules by extension in the order in which they count.
    pub open spec fn ext_rules(&self) -> Seq<RawRuleView> {
        rule_views(self.prepend_exts@) + rule_views(self.exts@) + rule_views(self.append_exts@)
    }

    /// The conditional rules in the order in which they count.
    pub open spec fn cond_rules(&self) -> Seq<RawRuleView> {
        rule_views(self.prepend_conds@) + rule_views(self.conds@) + rule_views(self.append_conds@)
    }
}

/// The map that a list of keyed rules stands for: each key that occurs,
/// with the icon of the first rule that has it.
pub open spec fn first_wins(rules: Seq<RawRuleView>) -> Map<Seq<char>, IconView>
    decreases rules.len(),
{
    if rules.len() == 0 {
        Map::empty()
    } else {
        let earlier = first_wins(rules.drop_last());
        let rule = rules.last();
        if earlier.contains_key(rule.name) {
            earlier
        } else {
            earlier.insert(rule.name, rule.icon())
        }
    }
}

/// The keys of the map are the names of the rules.
pub proof fn lemma_first_wins_keys(rules: Seq<RawRuleView>, key: Seq<char>)
    ensures
        first_wins(rules).contains_key(key) <==> exists|j: int|
            0 <= j < rules.len() && (#[trigger] rules[j]).name == key,
    decreases rules.len(),
{
    if rules.len() > 0 {
        let front = rules.drop_last();
        lemma_first_wins_keys(front, key);
        if first_wins(rules).contains_key(key) {
            if first_wins(front).contains_key(key) {
                let j = choose|j: int| 0 <= j < front.len() && (#[trigger] front[j]).name == key;
                assert(rules[j].name == key);
            } else {
                assert(rules[rules.len() - 1].name == key);
            }
        }
        if exists|j: int| 0 <= j < rules.len() && (#[trigger] rules[j]).name == key {
            let j = choose|j: int| 0 <= j < rules.len() && (#[trigger] rules[j]).name == key;
            if j < rules.len() - 1 {
                assert(front[j].name == key);
            }
        }
    }
}

/// Under each key stands the icon of the first rule with that key: a rule
/// that no earlier rule shares its name with is the one that the map holds.
pub proof fn lemma_first_wins(rules: Seq<RawRuleView>, i: int)
    requires
        0 <= i < rules.len(),
        forall|j: int| 0 <= j < i ==> (#[trigger] rules[j]).name != rules[i].name,
    ensures
        first_wins(rules).contains_key(rules[i].name),
        first_wins(rules)[rules[i].name] == rules[i].icon(),
    decreases rules.len(),
{
    let front = rules.drop_last();
    if i == rules.len() - 1 {
        lemma_first_wins_keys(front, rules[i].name);
        if first_wins(front).contains_key(rules[i].name) {
            let j = choose|j: int| 0 <= j < front.len() && (#[trigger] front[j]).name == rules[i].name;
            assert(rules[j].name == rules[i].name);
        }
    } else {
        assert(front[i] == rules[i]);
        assert forall|j: int| 0 <= j < i implies (#[trigger] front[j]).name != front[i].name by {
            assert(rules[j].name != rules[i].name);
        }
        lemma_first_wins(front, i);
    }
}

/// Of three layers the one in front shadows the ones behind: a key of the
/// merged list has the icon that the first layer holding it gives it, asked
/// in the order prepended, base, appended; a key of no layer is no key of
/// the merged list.
pub proof fn lemma_layers(
    prepend: Seq<RawRuleView>,
    base: Seq<RawRuleView>,
    append: Seq<RawRuleView>,
    key: Seq<char>,
)
    ensures
        ({
            let all = first_wins(prepend + base + append);
            if first_wins(prepend).contains_key(key) {
                all.contains_key(key) && all[key] == first_wins(prepend)[key]
            } else if first_wins(base).contains_key(key) {
                all.contains_key(key) && all[key] == first_wins(base)[key]
            } else if first_wins(append).contains_key(key) {
                all.contains_key(key) && all[key] == first_wins(append)[key]
            } else {
                !all.contains_key(key)
            }
        }),
{
    lemma_first_wins_concat(prepend + base, append, key);
    lemma_first_wins_concat(prepend, base, key);
}

/// Of two lists in a row the first shadows the second.
pub proof fn lemma_first_wins_concat(a: Seq<RawRuleView>, b: Seq<RawRuleView>, key: Seq<char>)
    ensures
        ({
            let all = first_wins(a + b);
            if first_wins(a).contains_key(key) {
                all.contains_key(key) && all[key] == first_wins(a)[key]
            } else if first_wins(b).contains_key(key) {
                all.contains_key(key) && all[key] == first_wins(b)[key]
            } else {
                !all.contains_key(key)
            }
        }),
    decreases b.len(),
{
    if b.len() == 0 {
        assert(a + b == a);
    } else {
        assert((a + b).drop_last() == a + b.drop_last());
        assert((a + b).last() == b.last());
        lemma_first_wins_concat(a, b.drop_last(), key);
    }
}

/// Whether `i` is the first position of `rules` whose name is no valid
/// pattern.
pub open spec fn first_bad_glob(rules: Seq<RawRuleView>, i: int) -> bool {
    &&& 0 <= i < rules.len()
    &&& parse_pattern(rules[i].name) is None
    &&& forall|j: int| 0 <= j < i ==> parse_pattern(#[trigger] rules[j].name) is Some
}

/// Whether `i` is the first position of `rules` whose name is no
/// well-formed condition.
pub open spec fn first_bad_cond(rules: Seq<RawRuleView>, i: int) -> bool {
    &&& 0 <= i < rules.len()
    &&& parse(rules[i].name) is None
    &&& forall|j: int| 0 <= j < i ==> parse(#[trigger] rules[j].name) is Some
}

/// Whether `globs` are the compiled forms of `rules`, one for one.
pub open spec fn globs_of(globs: Seq<(PatternView, IconView)>, rules: Seq<RawRuleView>) -> bool {
    &&& globs.len() == rules.len()
    &&& forall|i: int|
        0 <= i < rules.len() ==> parse_pattern(rules[i].name) == Some((#[trigger] globs[i]).0)
            && globs[i].1 == rules[i].icon()
}

/// Whether `conds` are the parsed forms of `rules`, one for one.
pub open spec fn conds_of(conds: Seq<(Expr, IconView)>, rules: Seq<RawRuleView>) -> bool {
    &&& conds.len() == rules.len()
    &&& forall|i: int|
        0 <= i < rules.len() ==> parse(rules[i].name) == Some((#[trigger] conds[i]).0)
            && conds[i].1 == rules[i].icon()
}

} // verus!
