//! The icon rules of a theme, built and ready to be asked.
//!
//! Rules come in five categories. Glob rules and conditional rules are tried
//! in the order in which they were written. Rules by directory name, file
//! name and extension are looked up by their key; where a key was written
//! more than once, the first rule for it counts.

use vstd::prelude::*;
use vstd::hash_map::StringHashMap;
use crate::condition::Condition;
use crate::error::ErrorKind;
use crate::fs::File;
use crate::grammar::parse;
use crate::pattern::{file_name, last_component, parse_pattern, Pattern};
use crate::preset::Preset;
use crate::resolve::{first_cond, first_glob, lookup, IconsView};
use crate::rules::{
    conds_of, first_bad_cond, first_bad_glob, first_wins, globs_of, lemma_rule_views_concat,
    rule_views, Category, IconsError, RawIcons, RawRule,
};
use crate::text::chars_of;
use crate::theme::{Icon, IconView};

verus! {

/// The models of the icons of a map.
pub open spec fn icon_map(map: Map<Seq<char>, Icon>) -> Map<Seq<char>, IconView> {
    Map::new(|k: Seq<char>| map.contains_key(k), |k: Seq<char>| map[k]@)
}

/// The rule store of a theme.
pub struct Icons {
    globs: Vec<(Pattern, Icon)>,
    dirs: StringHashMap<Icon>,
    files: StringHashMap<Icon>,
    exts: StringHashMap<Icon>,
    conds: Vec<(Condition, Icon)>,
}

impl View for Icons {
    type V = IconsView;

    closed spec fn view(&self) -> IconsView {
        IconsView {
            globs: Seq::new(self.globs@.len(), |i: int| (self.globs@[i].0@, self.globs@[i].1@)),
            dirs: icon_map(self.dirs@),
            files: icon_map(self.files@),
            exts: icon_map(self.exts@),
            conds: Seq::new(self.conds@.len(), |i: int| (self.conds@[i].0@, self.conds@[i].1@)),
        }
    }
}

/// Compiles glob rules, in order, up to the first that is no valid pattern.
fn compile_globs(rules: &Vec<RawRule>) -> (r: Result<Vec<(Pattern, Icon)>, IconsError>)
    ensures
        match r {
            Ok(globs) => globs_of(
                Seq::new(globs@.len(), |i: int| (globs@[i].0@, globs@[i].1@)),
                rule_views(rules@),
            ),
            Err(e) => {
                &&& e.category == Category::Globs
                &&& first_bad_glob(rule_views(rules@), e.index as int)
                &&& e.error.kind == ErrorKind::Pattern
                &&& e.error.value@ == rules@[e.index as int].name@
            },
        },
{
    let mut globs: Vec<(Pattern, Icon)> = Vec::new();
    let mut i: usize = 0;
    while i < rules.len()
        invariant
            i <= rules.len(),
            globs@.len() == i,
            forall|k: int|
                0 <= k < i ==> parse_pattern(#[trigger] rule_views(rules@)[k].name) == Some(
                    globs@[k].0@,
                ) && globs@[k].1@ == rule_views(rules@)[k].icon(),
        decreases rules.len() - i,
    {
        let rule = &rules[i];
        match Pattern::from_str(rule.name.as_str()) {
            Ok(pattern) => {
                globs.push((pattern, rule.icon()));
            },
            Err(error) => {
                return Err(IconsError { category: Category::Globs, index: i, error });
            },
        }
        i = i + 1;
    }
    Ok(globs)
}

/// Parses conditional rules, in order, up to the first that is no
/// well-formed condition.
fn compile_conds(rules: &Vec<RawRule>) -> (r: Result<Vec<(Condition, Icon)>, IconsError>)
    ensures
        match r {
            Ok(conds) => conds_of(
                Seq::new(conds@.len(), |i: int| (conds@[i].0@, conds@[i].1@)),
                rule_views(rules@),
            ),
            Err(e) => {
                &&& e.category == Category::Conds
                &&& first_bad_cond(rule_views(rules@), e.index as int)
                &&& e.error.kind == ErrorKind::Condition
                &&& e.error.value@ == rules@[e.index as int].name@
            },
        },
{
    let mut conds: Vec<(Condition, Icon)> = Vec::new();
    let mut i: usize = 0;
    while i < rules.len()
        invariant
            i <= rules.len(),
            conds@.len() == i,
            forall|k: int|
                0 <= k < i ==> parse(#[trigger] rule_views(rules@)[k].name) == Some(conds@[k].0@)
                    && conds@[k].1@ == rule_views(rules@)[k].icon(),
        decreases rules.len() - i,
    {
        let rule = &rules[i];
        match Condition::from_str(rule.name.as_str()) {
            Ok(cond) => {
                conds.push((cond, rule.icon()));
            },
            Err(error) => {
                return Err(IconsError { category: Category::Conds, index: i, error });
            },
        }
        i = i + 1;
    }
    Ok(conds)
}

/// The map of keyed rules: each rule in order, put in unless its key is
/// there already.
fn as_map(rules: &Vec<RawRule>) -> (map: StringHashMap<Icon>)
    ensures
        icon_map(map@) == first_wins(rule_views(rules@)),
{
    let mut map: StringHashMap<Icon> = StringHashMap::new();
    let mut i: usize = 0;
    while i < rules.len()
        invariant
            i <= rules.len(),
            icon_map(map@) == first_wins(rule_views(rules@).take(i as int)),
        decreases rules.len() - i,
    {
        let rule = &rules[i];
        assert(rule_views(rules@).take(i + 1).drop_last() == rule_views(rules@).take(i as int));
        if !map.contains_key(rule.name.as_str()) {
            let icon = rule.icon();
            map.insert(rule.name.clone(), icon);
        }
        i = i + 1;
    }
    assert(rule_views(rules@).take(i as int) == rule_views(rules@));
    map
}

/// Looks `key` up as written, then in ASCII lower case.
fn find<'a>(map: &'a StringHashMap<Icon>, key: &str) -> (r: Option<&'a Icon>)
    ensures
        match r {
            Some(icon) => lookup(icon_map(map@), key@) == Some(icon@),
            None => lookup(icon_map(map@), key@) is None,
        },
{
    match map.get(key) {
        Some(icon) => Some(icon),
        None => {
            let folded = key.to_ascii_lowercase();
            map.get(folded.as_str())
        },
    }
}

impl Icons {
    /// Builds the rule store of a theme. Every glob rule and every
    /// conditional rule must be readable: the first that is not, globs
    /// before conditions, is reported and no store is built.
    pub fn build(raw: RawIcons) -> (r: Result<Icons, IconsError>)
        ensures
            match r {
                Ok(icons) => icons@.built_from(raw),
                Err(e) => {
                    ||| {
                        &&& e.category == Category::Globs
                        &&& first_bad_glob(raw.glob_rules(), e.index as int)
                        &&& e.error.kind == ErrorKind::Pattern
                        &&& e.error.value@ == raw.glob_rules()[e.index as int].name
                    }
                    ||| {
                        &&& e.category == Category::Conds
                        &&& forall|j: int|
                            0 <= j < raw.glob_rules().len() ==> parse_pattern(
                                #[trigger] raw.glob_rules()[j].name,
                            ) is Some
                        &&& first_bad_cond(raw.cond_rules(), e.index as int)
                        &&& e.error.kind == ErrorKind::Condition
                        &&& e.error.value@ == raw.cond_rules()[e.index as int].name
                    }
                },
            },
    {
        proof {
            lemma_rule_views_concat(raw.prepend_globs@, raw.globs@, raw.append_globs@);
            lemma_rule_views_concat(raw.prepend_dirs@, raw.dirs@, raw.append_dirs@);
            lemma_rule_views_concat(raw.prepend_files@, raw.files@, raw.append_files@);
            lemma_rule_views_concat(raw.prepend_exts@, raw.exts@, raw.append_exts@);
            lemma_rule_views_concat(raw.prepend_conds@, raw.conds@, raw.append_conds@);
        }
        let glob_rules = Preset::mix(raw.prepend_globs, raw.globs, raw.append_globs);
        let globs = match compile_globs(&glob_rules) {
            Ok(globs) => globs,
            Err(e) => {
                return Err(e);
            },
        };
        let cond_rules = Preset::mix(raw.prepend_conds, raw.conds, raw.append_conds);
        let conds = match compile_conds(&cond_rules) {
            Ok(conds) => conds,
            Err(e) => {
                proof {
                    let ghost compiled = Seq::new(
                        globs@.len(),
                        |i: int| (globs@[i].0@, globs@[i].1@),
                    );
                    assert forall|j: int| 0 <= j < raw.glob_rules().len() implies parse_pattern(
                        #[trigger] raw.glob_rules()[j].name,
                    ) is Some by {
                        assert(parse_pattern(raw.glob_rules()[j].name) == Some(compiled[j].0));
                    }
                }
                return Err(e);
            },
        };
        let dirs = as_map(&Preset::mix(raw.prepend_dirs, raw.dirs, raw.append_dirs));
        let files = as_map(&Preset::mix(raw.prepend_files, raw.files, raw.append_files));
        let exts = as_map(&Preset::mix(raw.prepend_exts, raw.exts, raw.append_exts));
        Ok(Icons { globs, dirs, files, exts, conds })
    }

    /// The icon of `file`, if a rule gives it one. Globs are asked first,
    /// then names (and for files that are no directories, extensions), then
    /// conditions; within globs and conditions the first rule that applies
    /// counts.
    pub fn matches(&self, file: &File) -> (r: Option<&Icon>)
        ensures
            self@.is_answer(
                file@,
                match r {
                    Some(icon) => Some(icon@),
                    None => None,
                },
            ),
    {
        if let Some(icon) = self.match_by_glob(file) {
            return Some(icon);
        }
        if let Some(icon) = self.match_by_name(file) {
            return Some(icon);
        }
        self.match_by_cond(file)
    }

    fn match_by_glob(&self, file: &File) -> (r: Option<&Icon>)
        ensures
            match r {
                Some(icon) => self@.by_glob(file@) == Some(icon@),
                None => self@.by_glob(file@) is None,
            },
    {
        let path = chars_of(file.url.as_str());
        let name = last_component(&path);
        let mut i: usize = 0;
        while i < self.globs.len()
            invariant
                i <= self.globs.len(),
                path@ == file@.url,
                name@ == file_name(path@),
                self@.by_glob(file@) == first_glob(
                    self@.globs,
                    i as int,
                    file@.url,
                    file@.cha.is_dir,
                ),
            decreases self.globs.len() - i,
        {
            if self.globs[i].0.match_chars(&path, &name, file.is_dir()) {
                return Some(&self.globs[i].1);
            }
            i = i + 1;
        }
        None
    }

    fn match_by_name(&self, file: &File) -> (r: Option<&Icon>)
        ensures
            match r {
                Some(icon) => self@.by_name(file@) == Some(icon@),
                None => self@.by_name(file@) is None,
            },
    {
        if file.is_dir() {
            find(&self.dirs, file.name.as_str())
        } else {
            match find(&self.files, file.name.as_str()) {
                Some(icon) => Some(icon),
                None => self.match_by_ext(file),
            }
        }
    }

    fn match_by_ext(&self, file: &File) -> (r: Option<&Icon>)
        ensures
            match r {
                Some(icon) => self@.by_ext(file@) == Some(icon@),
                None => self@.by_ext(file@) is None,
            },
    {
        match file.extension() {
            Some(ext) => find(&self.exts, ext.as_str()),
            None => None,
        }
    }

    fn match_by_cond(&self, file: &File) -> (r: Option<&Icon>)
        ensures
            match r {
                Some(icon) => self@.by_cond(file@) == Some(icon@),
                None => self@.by_cond(file@) is None,
            },
    {
        let mut i: usize = 0;
        while i < self.conds.len()
            invariant
                i <= self.conds.len(),
                self@.by_cond(file@) == first_cond(self@.conds, i as int, file@.cha),
            decreases self.conds.len() - i,
        {
            if self.conds[i].0.eval(&file.cha).is_true() {
                return Some(&self.conds[i].1);
            }
            i = i + 1;
        }
        None
    }
}

} // verus!
