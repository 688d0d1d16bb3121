//! The per-frame override table: a transient mapping from dynamic-property
//! id to a concrete typed value, repopulated and cleared by the frame loop
//! and consulted when a dynamic declaration is resolved.

use vstd::prelude::*;
use crate::strutil::str_eq;
use crate::props::{ParsedCssProperty, CssParsingError};
use crate::dynamic::{CssDeclaration, CssDeclarationModel};

verus! {

/// Mapping from dynamic-property id to its override value for this frame.
/// Later insertions for the same id shadow earlier ones.
#[derive(PartialEq, Eq, Debug)]
pub struct OverrideMap {
    entries: Vec<(String, ParsedCssProperty)>,
}

impl Clone for OverrideMap {
    fn clone(&self) -> (r: Self)
        ensures
            r@ == self@,
    {
        let mut entries: Vec<(String, ParsedCssProperty)> = Vec::new();
        let mut i: usize = 0;
        while i < self.entries.len()
            invariant
                0 <= i <= self.entries@.len(),
                entries@.len() == i,
                forall|k: int| 0 <= k < i ==> entries@[k] == self.entries@[k],
            decreases self.entries@.len() - i,
        {
            let e = &self.entries[i];
            entries.push((e.0.clone(), e.1));
            i = i + 1;
        }
        proof {
            assert(entries@ =~= self.entries@);
        }
        OverrideMap { entries }
    }
}

pub open spec fn assoc_view(s: Seq<(String, ParsedCssProperty)>) -> Map<
    Seq<char>,
    ParsedCssProperty,
>
    decreases s.len(),
{
    if s.len() == 0 {
        Map::empty()
    } else {
        assoc_view(s.drop_last()).insert(s.last().0@, s.last().1)
    }
}

impl View for OverrideMap {
    type V = Map<Seq<char>, ParsedCssProperty>;

    closed spec fn view(&self) -> Map<Seq<char>, ParsedCssProperty> {
        assoc_view(self.entries@)
    }
}

proof fn lemma_assoc_suffix_free(s: Seq<(String, ParsedCssProperty)>, i: int, k: Seq<char>)
    requires
        0 <= i <= s.len(),
        forall|j: int| i <= j < s.len() ==> s[j].0@ != k,
    ensures
        assoc_view(s).contains_key(k) == assoc_view(s.take(i)).contains_key(k),
        assoc_view(s).contains_key(k) ==> assoc_view(s)[k] == assoc_view(s.take(i))[k],
    decreases s.len() - i,
{
    if i == s.len() {
        assert(s.take(i) =~= s);
    } else {
        let t = s.drop_last();
        assert(s.last().0@ != k);
        assert(forall|j: int| i <= j < t.len() ==> t[j] == s[j]);
        lemma_assoc_suffix_free(t, i, k);
        assert(t.take(i) =~= s.take(i));
    }
}

impl OverrideMap {
    /// An empty override table.
    pub fn new() -> (r: Self)
        ensures
            r@ == Map::<Seq<char>, ParsedCssProperty>::empty(),
    {
        OverrideMap { entries: Vec::new() }
    }

    /// Binds `id` to `value`, shadowing any earlier binding.
    pub fn insert(&mut self, id: String, value: ParsedCssProperty)
        ensures
            final(self)@ == old(self)@.insert(id@, value),
    {
        self.entries.push((id, value));
        proof {
            assert(self.entries@.drop_last() =~= old(self).entries@);
        }
    }

    /// Looks up the override for `id`, if one is set.
    pub fn get(&self, id: &str) -> (r: Option<&ParsedCssProperty>)
        ensures
            match r {
                Some(p) => self@.contains_key(id@) && *p == self@[id@],
                None => !self@.contains_key(id@),
            },
    {
        let mut idx: usize = self.entries.len();
        loop
            invariant
                0 <= idx <= self.entries@.len(),
                forall|j: int| idx <= j < self.entries@.len() ==> self.entries@[j].0@ != id@,
            decreases idx,
        {
            if idx == 0 {
                proof {
                    lemma_assoc_suffix_free(self.entries@, 0, id@);
                    assert(self.entries@.take(0) =~= Seq::<(String, ParsedCssProperty)>::empty());
                }
                return None;
            }
            idx = idx - 1;
            let entry = &self.entries[idx];
            if str_eq(entry.0.as_str(), id) {
                proof {
                    lemma_assoc_suffix_free(self.entries@, idx + 1, id@);
                    assert(self.entries@.take(idx + 1).drop_last() =~= self.entries@.take(
                        idx as int,
                    ));
                    assert(self.entries@.take(idx + 1).last() == self.entries@[idx as int]);
                }
                return Some(&entry.1);
            }
        }
    }

    /// Drops every binding.
    pub fn clear(&mut self)
        ensures
            final(self)@ == Map::<Seq<char>, ParsedCssProperty>::empty(),
    {
        self.entries = Vec::new();
    }
}

impl Default for OverrideMap {
    fn default() -> (r: Self)
        ensures
            r@ == Map::<Seq<char>, ParsedCssProperty>::empty(),
    {
        OverrideMap { entries: Vec::new() }
    }
}

/// User-facing handle for the per-frame dynamic overrides.
#[derive(Clone, Debug)]
pub struct FakeCss {
    pub dynamic_css_overrides: OverrideMap,
}

impl Default for FakeCss {
    fn default() -> (r: Self)
        ensures
            r.dynamic_css_overrides@ == Map::<Seq<char>, ParsedCssProperty>::empty(),
    {
        FakeCss { dynamic_css_overrides: OverrideMap::new() }
    }
}

impl FakeCss {
    /// Sets a dynamic CSS override for the duration of one frame.  The value
    /// is parsed through the same typed parser as a declaration's default,
    /// so a stored override always carries a well-formed property.
    pub fn set_dynamic_property(&mut self, id: &str, key: &str, value: &str) -> (r: Result<
        (),
        CssParsingError,
    >)
        ensures
            match crate::props::spec_from_kv(key@, value@) {
                Ok(p) => r is Ok && final(self).dynamic_css_overrides@
                    == old(self).dynamic_css_overrides@.insert(id@, p),
                Err(e) => (match r {
                    Err(e2) => e2@ == e,
                    Ok(_) => false,
                }) && final(self).dynamic_css_overrides == old(self).dynamic_css_overrides,
            },
    {
        match ParsedCssProperty::from_kv(key, value) {
            Ok(p) => {
                self.dynamic_css_overrides.insert(id.to_owned(), p);
                Ok(())
            },
            Err(e) => Err(e),
        }
    }

    /// Clears the overrides; invoked at the end of the frame for a clean slate.
    pub fn clear(&mut self)
        ensures
            final(self).dynamic_css_overrides@ == Map::<Seq<char>, ParsedCssProperty>::empty(),
    {
        self.dynamic_css_overrides.clear();
    }
}

/// The value a declaration takes under the given frame overrides: a dynamic
/// declaration's override when its id has one, else its default; a static
/// declaration always takes its fixed value.
pub open spec fn spec_resolve(
    d: CssDeclarationModel,
    overrides: Map<Seq<char>, ParsedCssProperty>,
) -> ParsedCssProperty {
    match d {
        CssDeclarationModel::Static(p) => p,
        CssDeclarationModel::Dynamic(dp) => if overrides.contains_key(dp.dynamic_id) {
            overrides[dp.dynamic_id]
        } else {
            dp.default
        },
    }
}

/// Resolves one declaration against the current frame's overrides.  An
/// override always shares the default's property kind by construction, so no
/// runtime kind check is needed.
pub fn resolve_declaration(decl: &CssDeclaration, overrides: &OverrideMap) -> (r:
    ParsedCssProperty)
    ensures
        r == spec_resolve(decl@, overrides@),
{
    match decl {
        CssDeclaration::Static(p) => *p,
        CssDeclaration::Dynamic(d) => match overrides.get(d.dynamic_id.as_str()) {
            Some(p) => *p,
            None => d.default,
        },
    }
}

} // verus!
