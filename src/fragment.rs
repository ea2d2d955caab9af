//! The path fragments that a matched route captured.
use vstd::prelude::*;
use crate::engine::{optional_texts_view, regex_captures, regex_matches};
use crate::pattern::optional_view;
use crate::router::Route;

verus! {

/// The first slot at or after `i` that carries the name `n`.
pub open spec fn slot_named_from(names: Seq<Option<Seq<char>>>, n: Seq<char>, i: int) -> Option<int>
    decreases names.len() - i,
{
    if i < 0 || i >= names.len() {
        None
    } else if names[i] == Some(n) {
        Some(i)
    } else {
        slot_named_from(names, n, i + 1)
    }
}

/// The first slot that carries the name `n`.
pub open spec fn slot_named(names: Seq<Option<Seq<char>>>, n: Seq<char>) -> Option<int> {
    slot_named_from(names, n, 0)
}

/// The text a group captured, or `None` when the slot does not exist or
/// took no part in the match.
pub open spec fn group_at(groups: Seq<Option<Seq<char>>>, i: int) -> Option<Seq<char>> {
    if 0 <= i < groups.len() {
        groups[i]
    } else {
        None
    }
}

/// A way to address a fragment: by slot position or by name.
pub ghost enum FragmentKey {
    Index(int),
    Name(Seq<char>),
}

/// Contains all of the fragment information from the route definition: the
/// text each capture slot took from the path, and the names of the slots.
#[derive(Debug)]
pub struct Fragment {
    fragments_index: Vec<Option<String>>,
    names: Vec<Option<String>>,
}

impl Fragment {
    /// The text each slot captured, slot 0 being the whole match.
    pub closed spec fn groups(&self) -> Seq<Option<Seq<char>>> {
        optional_texts_view(self.fragments_index@)
    }

    /// The names of the slots.
    pub closed spec fn names(&self) -> Seq<Option<Seq<char>>> {
        optional_texts_view(self.names@)
    }

    /// The fragment that a key selects.
    pub open spec fn selected(&self, key: FragmentKey) -> Option<Seq<char>> {
        match key {
            FragmentKey::Index(i) => group_at(self.groups(), i),
            FragmentKey::Name(n) => match slot_named(self.names(), n) {
                Some(i) => group_at(self.groups(), i),
                None => None,
            },
        }
    }

    /// Runs the route's expression on the path again to find where each
    /// placeholder landed. `None` when the route does not match the path.
    pub fn new<E>(path: &str, route: &Route<E>) -> (r: Option<Fragment>)
        ensures
            match r {
                Some(f) => {
                    &&& regex_matches(route.source(), path@)
                    &&& regex_captures(route.source(), path@) == Some(f.groups())
                    &&& f.names() == route.slots()
                },
                None => !regex_matches(route.source(), path@),
            },
    {
        let pattern = route.pattern();
        let fragments_index = match pattern.regex().captures(path) {
            Some(groups) => groups,
            None => {
                return None;
            },
        };
        let names = pattern.duplicate_keys();
        Some(Fragment { fragments_index, names })
    }

    /// The text captured by the slot at position `i`; slot 0 is the whole
    /// match and placeholders count from 1.
    pub fn get(&self, i: usize) -> (r: Option<&str>)
        ensures
            optional_view(r) == self.selected(FragmentKey::Index(i as int)),
    {
        if i >= self.fragments_index.len() {
            return None;
        }
        match &self.fragments_index[i] {
            Some(s) => Some(s.as_str()),
            None => None,
        }
    }

    /// The text captured by the placeholder named `n`.
    pub fn name(&self, n: &str) -> (r: Option<&str>)
        ensures
            optional_view(r) == self.selected(FragmentKey::Name(n@)),
    {
        let wanted = String::from_str(n);
        let mut i: usize = 0;
        while i < self.names.len()
            invariant
                i <= self.names.len(),
                wanted@ == n@,
                slot_named(self.names(), n@) == slot_named_from(self.names(), n@, i as int),
            decreases self.names.len() - i,
        {
            let hit = match &self.names[i] {
                Some(s) => *s == wanted,
                None => false,
            };
            assert(hit == (self.names()[i as int] == Some(n@)));
            if hit {
                return self.get(i);
            }
            i = i + 1;
        }
        None
    }

    /// The fragment that `key` selects.
    pub fn select<K: FragmentSelect>(&self, key: K) -> (r: Option<&str>)
        ensures
            optional_view(r) == self.selected(key.key()),
    {
        key.select(self)
    }
}

/// A way of selecting a fragment: a `usize` selects by slot position, a
/// `&str` by placeholder name.
pub trait FragmentSelectSealed {
    /// The key this value stands for.
    spec fn key(&self) -> FragmentKey;

    /// The fragment this value selects.
    fn select(self, fragment: &Fragment) -> (r: Option<&str>)
        ensures
            optional_view(r) == fragment.selected(self.key()),
    ;
}

/// A fragment selector that callers can name in bounds.
pub trait FragmentSelect: FragmentSelectSealed {

}

impl FragmentSelectSealed for usize {
    open spec fn key(&self) -> FragmentKey {
        FragmentKey::Index(*self as int)
    }

    fn select(self, fragment: &Fragment) -> (r: Option<&str>) {
        fragment.get(self)
    }
}

impl FragmentSelect for usize {

}

impl<'v> FragmentSelectSealed for &'v str {
    open spec fn key(&self) -> FragmentKey {
        FragmentKey::Name(self@)
    }

    fn select(self, fragment: &Fragment) -> (r: Option<&str>) {
        fragment.name(self)
    }
}

impl<'v> FragmentSelect for &'v str {

}

} // verus!
