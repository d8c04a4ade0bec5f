//! What every resource has: its names, its annotations and its conditions.
use crate::text::{copy_opt, same};
use vstd::prelude::*;

verus! {

/// The part of a resource's metadata that is read or written here. `annotations` holds one pair
/// for each key.
#[derive(Debug, Clone)]
pub struct ObjectMeta {
    pub name: Option<String>,
    pub generate_name: Option<String>,
    pub annotations: Option<Vec<(String, String)>>,
}

/// One condition of a resource's status.
#[derive(Debug, Clone)]
pub struct Condition {
    pub type_: String,
    pub status: String,
}

/// The value of the first pair whose key is `key`.
pub open spec fn lookup(pairs: Seq<(String, String)>, key: Seq<char>) -> Option<Seq<char>>
    decreases pairs.len(),
{
    if pairs.len() == 0 {
        None
    } else if pairs[0].0@ == key {
        Some(pairs[0].1@)
    } else {
        lookup(pairs.drop_first(), key)
    }
}

/// The status of the first condition of the given kind is `True`.
pub open spec fn holds_true(conditions: Seq<Condition>, kind: Seq<char>) -> bool
    decreases conditions.len(),
{
    if conditions.len() == 0 {
        false
    } else if conditions[0].type_@ == kind {
        conditions[0].status@ == "True"@
    } else {
        holds_true(conditions.drop_first(), kind)
    }
}

/// The conditions of a status, none if there is no list.
pub open spec fn conditions_of(conditions: Option<Vec<Condition>>) -> Seq<Condition> {
    match conditions {
        Some(v) => v@,
        None => Seq::empty(),
    }
}

impl ObjectMeta {
    /// The most useful name: the name, else the prefix of a generated one, else the empty text.
    pub open spec fn any_name(self) -> Seq<char> {
        match self.name {
            Some(n) => n@,
            None => match self.generate_name {
                Some(g) => g@,
                None => Seq::empty(),
            },
        }
    }

    /// The annotation under `key`.
    pub open spec fn annotated(self, key: Seq<char>) -> Option<Seq<char>> {
        match self.annotations {
            Some(a) => lookup(a@, key),
            None => None,
        }
    }

    pub fn name_any(&self) -> (r: String)
        ensures
            r@ == self.any_name(),
    {
        match copy_opt(&self.name) {
            Some(n) => n,
            None => match copy_opt(&self.generate_name) {
                Some(g) => g,
                None => String::new(),
            },
        }
    }

    pub fn annotation(&self, key: &str) -> (r: Option<String>)
        ensures
            r is Some <==> self.annotated(key@) is Some,
            r matches Some(v) ==> self.annotated(key@) == Some(v@),
    {
        match &self.annotations {
            Some(a) => find_pair(a, key),
            None => None,
        }
    }
}

/// The value of the first pair whose key is `key`.
pub fn find_pair(pairs: &Vec<(String, String)>, key: &str) -> (r: Option<String>)
    ensures
        r is Some <==> lookup(pairs@, key@) is Some,
        r matches Some(v) ==> lookup(pairs@, key@) == Some(v@),
{
    let mut i: usize = 0;
    assert(pairs@.skip(0) =~= pairs@);
    while i < pairs.len()
        invariant
            i <= pairs@.len(),
            lookup(pairs@, key@) == lookup(pairs@.skip(i as int), key@),
        decreases pairs@.len() - i,
    {
        let ghost rest = pairs@.skip(i as int);
        assert(rest.drop_first() =~= pairs@.skip(i + 1));
        assert(rest[0] == pairs@[i as int]);
        if same(pairs[i].0.as_str(), key) {
            return Some(pairs[i].1.clone());
        }
        i += 1;
    }
    None
}

/// Whether the first condition of the given kind has the status `True`.
pub fn condition_is_true(conditions: &Option<Vec<Condition>>, kind: &str) -> (r: bool)
    ensures
        r == holds_true(conditions_of(*conditions), kind@),
{
    match conditions {
        None => false,
        Some(v) => {
            let mut i: usize = 0;
            assert(v@.skip(0) =~= v@);
            while i < v.len()
                invariant
                    i <= v@.len(),
                    conditions_of(*conditions) == v@,
                    holds_true(v@, kind@) == holds_true(v@.skip(i as int), kind@),
                decreases v@.len() - i,
            {
                let ghost rest = v@.skip(i as int);
                assert(rest.drop_first() =~= v@.skip(i + 1));
                assert(rest[0] == v@[i as int]);
                if same(v[i].type_.as_str(), kind) {
                    return same(v[i].status.as_str(), "True");
                }
                i += 1;
            }
            false
        },
    }
}

} // verus!
