//! JSON values.
use crate::text::{opt_view, same};
use vstd::prelude::*;

verus! {

/// A JSON value. A number is kept as it is written; an object holds one pair for each key.
#[derive(Debug)]
pub enum Json {
    Null,
    Bool(bool),
    Number(String),
    Str(String),
    Array(Vec<Json>),
    Object(Vec<(String, Json)>),
}

/// The content of a JSON value.
pub enum JsonView {
    Null,
    Bool(bool),
    Number(Seq<char>),
    Str(Seq<char>),
    Array(Seq<JsonView>),
    Object(Seq<(Seq<char>, JsonView)>),
}

impl View for Json {
    type V = JsonView;

    open spec fn view(&self) -> JsonView {
        json_view(*self)
    }
}

pub open spec fn json_view(j: Json) -> JsonView
    decreases j,
{
    match j {
        Json::Null => JsonView::Null,
        Json::Bool(b) => JsonView::Bool(b),
        Json::Number(s) => JsonView::Number(s@),
        Json::Str(s) => JsonView::Str(s@),
        Json::Array(v) => JsonView::Array(
            Seq::new(
                v@.len(),
                |i: int|
                    if 0 <= i < v@.len() {
                        json_view(v@[i])
                    } else {
                        JsonView::Null
                    },
            ),
        ),
        Json::Object(v) => JsonView::Object(
            Seq::new(
                v@.len(),
                |i: int|
                    if 0 <= i < v@.len() {
                        (v@[i].0@, json_view(v@[i].1))
                    } else {
                        (Seq::empty(), JsonView::Null)
                    },
            ),
        ),
    }
}

/// The value of the first pair whose key is `key`.
pub open spec fn pair_value(pairs: Seq<(Seq<char>, JsonView)>, key: Seq<char>) -> Option<JsonView>
    decreases pairs.len(),
{
    if pairs.len() == 0 {
        None
    } else if pairs[0].0 == key {
        Some(pairs[0].1)
    } else {
        pair_value(pairs.drop_first(), key)
    }
}

impl JsonView {
    /// The member of an object; none of anything else.
    pub open spec fn member(self, key: Seq<char>) -> Option<JsonView> {
        match self {
            JsonView::Object(pairs) => pair_value(pairs, key),
            _ => None,
        }
    }

    /// The text, if it is one.
    pub open spec fn text(self) -> Option<Seq<char>> {
        match self {
            JsonView::Str(s) => Some(s),
            _ => None,
        }
    }
}

/// The value found from an object by going from member to member.
pub open spec fn reached(j: JsonView, path: Seq<Seq<char>>) -> Option<JsonView>
    decreases path.len(),
{
    if path.len() == 0 {
        Some(j)
    } else {
        match j.member(path[0]) {
            Some(m) => reached(m, path.drop_first()),
            None => None,
        }
    }
}

/// The text found from an object by going from member to member.
pub open spec fn text_at(j: JsonView, path: Seq<Seq<char>>) -> Option<Seq<char>> {
    match reached(j, path) {
        Some(JsonView::Str(s)) => Some(s),
        _ => None,
    }
}

/// A member is what stands under the key for the first time; there is none exactly if the value is
/// no object or has no such key.
pub proof fn law_member(j: JsonView, key: Seq<char>)
    ensures
        j.member(key) matches Some(v) ==> (j matches JsonView::Object(pairs) && exists|i: int|
            0 <= i < pairs.len() && #[trigger] pairs[i] == (key, v) && forall|k: int|
                0 <= k < i ==> (#[trigger] pairs[k]).0 != key),
        j.member(key) is None ==> (j matches JsonView::Object(pairs) ==> forall|k: int|
            0 <= k < pairs.len() ==> (#[trigger] pairs[k]).0 != key),
{
    if let JsonView::Object(pairs) = j {
        lemma_pair_value(pairs, key);
    }
}

proof fn lemma_pair_value(pairs: Seq<(Seq<char>, JsonView)>, key: Seq<char>)
    ensures
        pair_value(pairs, key) matches Some(v) ==> exists|i: int|
            0 <= i < pairs.len() && #[trigger] pairs[i] == (key, v) && forall|k: int|
                0 <= k < i ==> (#[trigger] pairs[k]).0 != key,
        pair_value(pairs, key) is None ==> forall|k: int|
            0 <= k < pairs.len() ==> (#[trigger] pairs[k]).0 != key,
    decreases pairs.len(),
{
    if pairs.len() > 0 {
        let rest = pairs.drop_first();
        if pairs[0].0 == key {
            assert(pairs[0] == (key, pairs[0].1));
        } else {
            lemma_pair_value(rest, key);
            if let Some(v) = pair_value(pairs, key) {
                let i = choose|i: int|
                    0 <= i < rest.len() && #[trigger] rest[i] == (key, v) && forall|k: int|
                        0 <= k < i ==> (#[trigger] rest[k]).0 != key;
                assert(pairs[i + 1] == (key, v));
                assert forall|k: int| 0 <= k < i + 1 implies (#[trigger] pairs[k]).0 != key by {
                    if k > 0 {
                        assert(pairs[k] == rest[k - 1]);
                    }
                }
            } else {
                assert forall|k: int| 0 <= k < pairs.len() implies (
                #[trigger] pairs[k]).0 != key by {
                    if k > 0 {
                        assert(pairs[k] == rest[k - 1]);
                    }
                }
            }
        }
    }
}

/// The texts under one, two and three keys in a row.
pub proof fn lemma_text_at(j: JsonView, a: Seq<char>, b: Seq<char>, c: Seq<char>)
    ensures
        text_at(j, seq![a]) == text_of(j.member(a)),
        text_at(j, seq![a, b]) == text_of(member_of(j.member(a), b)),
        text_at(j, seq![a, b, c]) == text_of(member_of(member_of(j.member(a), b), c)),
{
    reveal_with_fuel(reached, 4);
    assert(seq![a].drop_first() =~= Seq::<Seq<char>>::empty());
    assert(seq![a, b].drop_first() =~= seq![b]);
    assert(seq![b].drop_first() =~= Seq::<Seq<char>>::empty());
    assert(seq![a, b, c].drop_first() =~= seq![b, c]);
    assert(seq![b, c].drop_first() =~= seq![c]);
    assert(seq![c].drop_first() =~= Seq::<Seq<char>>::empty());
}

/// The member of a member.
pub open spec fn member_of(j: Option<JsonView>, key: Seq<char>) -> Option<JsonView> {
    match j {
        Some(j) => j.member(key),
        None => None,
    }
}

/// The text of a value that may be missing.
pub open spec fn text_of(j: Option<JsonView>) -> Option<Seq<char>> {
    match j {
        Some(j) => j.text(),
        None => None,
    }
}

/// The first of two values that may be missing.
pub open spec fn or_else(a: Option<JsonView>, b: Option<JsonView>) -> Option<JsonView> {
    match a {
        Some(j) => Some(j),
        None => b,
    }
}

/// The value, if it is an object.
pub open spec fn as_object(j: Option<JsonView>) -> Option<JsonView> {
    match j {
        Some(JsonView::Object(_)) => j,
        _ => None,
    }
}

/// The content of a value that may be missing.
pub open spec fn opt_json(j: Option<&Json>) -> Option<JsonView> {
    match j {
        Some(j) => Some(j@),
        None => None,
    }
}

impl Json {
    /// The member of an object; none of anything else.
    pub fn get(&self, key: &str) -> (r: Option<&Json>)
        ensures
            opt_json(r) == self@.member(key@),
    {
        match self {
            Json::Object(pairs) => {
                let ghost all = self@->Object_0;
                let mut i: usize = 0;
                assert(all.skip(0) =~= all);
                while i < pairs.len()
                    invariant
                        i <= pairs@.len(),
                        all.len() == pairs@.len(),
                        self@ == JsonView::Object(all),
                        forall|k: int|
                            0 <= k < all.len() ==> #[trigger] all[k] == (
                                pairs@[k].0@,
                                pairs@[k].1@,
                            ),
                        pair_value(all, key@) == pair_value(all.skip(i as int), key@),
                    decreases pairs@.len() - i,
                {
                    let ghost rest = all.skip(i as int);
                    assert(rest.drop_first() =~= all.skip(i + 1));
                    assert(rest[0] == all[i as int]);
                    if same(pairs[i].0.as_str(), key) {
                        return Some(&pairs[i].1);
                    }
                    i += 1;
                }
                None
            },
            _ => None,
        }
    }

    /// The text, if it is one.
    pub fn as_str(&self) -> (r: Option<&str>)
        ensures
            r is Some <==> self@.text() is Some,
            r matches Some(s) ==> self@.text() == Some(s@),
    {
        match self {
            Json::Str(s) => Some(s.as_str()),
            _ => None,
        }
    }

    /// Whether it is an object.
    pub fn is_object(&self) -> (r: bool)
        ensures
            r == (self@ is Object),
    {
        match self {
            Json::Object(_) => true,
            _ => false,
        }
    }

    /// The items of an array.
    pub fn as_array(&self) -> (r: Option<&Vec<Json>>)
        ensures
            r is Some <==> self@ is Array,
            r matches Some(v) ==> self@ is Array && self@->Array_0.len() == v@.len() && forall|
                i: int,
            |
                0 <= i < v@.len() ==> (#[trigger] v@[i])@ == self@->Array_0[i],
    {
        match self {
            Json::Array(v) => Some(v),
            _ => None,
        }
    }
}

/// The member of a value that may be missing.
pub fn get_in<'a>(j: Option<&'a Json>, key: &str) -> (r: Option<&'a Json>)
    ensures
        opt_json(r) == member_of(opt_json(j), key@),
{
    match j {
        Some(j) => j.get(key),
        None => None,
    }
}

/// The text of a value that may be missing.
pub fn text_in(j: Option<&Json>) -> (r: Option<String>)
    ensures
        opt_view(r) == text_of(opt_json(j)),
{
    match j {
        Some(j) => match j.as_str() {
            Some(s) => Some(s.to_owned()),
            None => None,
        },
        None => None,
    }
}

/// The first of two values that may be missing.
pub fn first_of<'a>(a: Option<&'a Json>, b: Option<&'a Json>) -> (r: Option<&'a Json>)
    ensures
        opt_json(r) == or_else(opt_json(a), opt_json(b)),
{
    match a {
        Some(j) => Some(j),
        None => b,
    }
}

/// The value, if it is an object.
pub fn object_in<'a>(j: Option<&'a Json>) -> (r: Option<&'a Json>)
    ensures
        opt_json(r) == as_object(opt_json(j)),
{
    match j {
        Some(j) => if j.is_object() {
            Some(j)
        } else {
            None
        },
        None => None,
    }
}

/// What a JSON document holds under a key: none if the bytes are no JSON document, else the text of
/// the member of that name, if the document is an object and the member a text.
pub uninterp spec fn document_text(bytes: Seq<u8>, key: Seq<char>) -> Option<Option<Seq<char>>>;

/// The outcome of looking a text up in a document.
pub open spec fn lookup_view(r: Option<Option<String>>) -> Option<Option<Seq<char>>> {
    match r {
        Some(t) => Some(opt_view(t)),
        None => None,
    }
}

/// Calls `serde_json::from_slice`, and on the value `get` and `as_str`. The claim is that the
/// outcome is a function of the bytes and the key alone, here named `document_text`.
#[verifier::external_body]
pub(crate) fn text_in_document(bytes: &[u8], key: &str) -> (r: Option<Option<String>>)
    ensures
        lookup_view(r) == document_text(bytes@, key@),
{
    match serde_json::from_slice::<serde_json::Value>(bytes) {
        Ok(v) => Some(v.get(key).and_then(|m| m.as_str()).map(|s| s.to_string())),
        Err(_) => None,
    }
}

/// The text is the one at the first of the paths that leads to something, where that is a text;
/// there is none if no path leads anywhere.
#[verifier::opaque]
pub open spec fn first_text(
    j: JsonView,
    paths: Seq<Seq<Seq<char>>>,
    out: Option<Seq<char>>,
) -> bool {
    &&& forall|i: int|
        0 <= i < paths.len() && reached(j, #[trigger] paths[i]) is Some && (forall|k: int|
            0 <= k < i ==> reached(j, #[trigger] paths[k]) is None) ==> out == text_at(j, paths[i])
    &&& (forall|i: int| 0 <= i < paths.len() ==> reached(j, #[trigger] paths[i]) is None)
        ==> out is None
}

pub proof fn lemma_first_text_none(j: JsonView)
    ensures
        first_text(j, Seq::empty(), None),
{
    reveal(first_text);
}

/// One more path in front decides if it leads to something.
pub proof fn lemma_first_text_more(
    j: JsonView,
    path: Seq<Seq<char>>,
    paths: Seq<Seq<Seq<char>>>,
    out: Option<Seq<char>>,
)
    requires
        first_text(j, paths, out),
    ensures
        first_text(
            j,
            seq![path] + paths,
            if reached(j, path) is Some {
                text_at(j, path)
            } else {
                out
            },
        ),
{
    reveal(first_text);
    let all = seq![path] + paths;
    let found = if reached(j, path) is Some {
        text_at(j, path)
    } else {
        out
    };
    assert(all[0] == path);
    assert forall|i: int| 0 <= i < paths.len() implies #[trigger] paths[i] == all[i + 1] by {}
    assert forall|i: int|
        0 <= i < all.len() && reached(j, #[trigger] all[i]) is Some && (forall|k: int|
            0 <= k < i ==> reached(j, #[trigger] all[k]) is None) implies found == text_at(
        j,
        all[i],
    ) by {
        if i > 0 {
            assert(reached(j, all[0]) is None);
            assert(paths[i - 1] == all[i]);
            assert forall|k: int| 0 <= k < i - 1 implies reached(j, #[trigger] paths[k]) is None by {
                assert(paths[k] == all[k + 1]);
            }
        }
    }
    if forall|i: int| 0 <= i < all.len() ==> reached(j, #[trigger] all[i]) is None {
        assert(reached(j, all[0]) is None);
        assert forall|i: int| 0 <= i < paths.len() implies reached(j, #[trigger] paths[i])
            is None by {
            assert(paths[i] == all[i + 1]);
        }
    }
}

/// What stands under one and under two keys in a row.
pub proof fn lemma_reached(j: JsonView, a: Seq<char>, b: Seq<char>)
    ensures
        reached(j, seq![a]) == j.member(a),
        reached(j, seq![a, b]) == member_of(j.member(a), b),
        reached(j, seq![a, b]) == member_of(as_object(j.member(a)), b),
{
    reveal_with_fuel(reached, 3);
    assert(seq![a].drop_first() =~= Seq::<Seq<char>>::empty());
    assert(seq![a, b].drop_first() =~= seq![b]);
    assert(seq![b].drop_first() =~= Seq::<Seq<char>>::empty());
}

} // verus!
