//! JSON documents as trees of plain values, read through `serde_json`.

use vstd::prelude::*;

verus! {

/// A JSON value as a mathematical tree.
pub ghost enum JsonView {
    Null,
    Bool(bool),
    Number(Seq<char>),
    Text(Seq<char>),
    List(Seq<JsonView>),
    Object(Seq<(Seq<char>, JsonView)>),
}

/// One `key: value` pair of a JSON object.
#[derive(Debug, Clone)]
pub struct Member {
    pub key: String,
    pub value: Json,
}

/// A JSON value. A number is kept as its decimal text.
#[derive(Debug)]
pub enum Json {
    Null,
    Bool(bool),
    Number(String),
    Text(String),
    List(Vec<Json>),
    Object(Vec<Member>),
}

impl Member {
    /// The pair that this member stands for.
    pub open spec fn pair(self) -> (Seq<char>, JsonView)
        decreases self,
    {
        (self.key@, self.value.tree())
    }
}

impl Json {
    /// The tree that this value stands for.
    pub open spec fn tree(self) -> JsonView
        decreases self,
    {
        match self {
            Json::Null => JsonView::Null,
            Json::Bool(b) => JsonView::Bool(b),
            Json::Number(n) => JsonView::Number(n@),
            Json::Text(s) => JsonView::Text(s@),
            Json::List(items) => JsonView::List(
                Seq::new(
                    items@.len(),
                    |i: int|
                        if 0 <= i < items.len() {
                            items[i].tree()
                        } else {
                            JsonView::Null
                        },
                ),
            ),
            Json::Object(members) => JsonView::Object(
                Seq::new(
                    members@.len(),
                    |i: int|
                        if 0 <= i < members.len() {
                            members[i].pair()
                        } else {
                            (Seq::empty(), JsonView::Null)
                        },
                ),
            ),
        }
    }
}

impl View for Json {
    type V = JsonView;

    open spec fn view(&self) -> JsonView {
        self.tree()
    }
}

/// The `key: value` pairs that a list of members stands for.
pub open spec fn pairs(members: Seq<Member>) -> Seq<(Seq<char>, JsonView)> {
    Seq::new(members.len(), |i: int| members[i].pair())
}

/// The trees that a list of values stands for.
pub open spec fn trees(items: Seq<Json>) -> Seq<JsonView> {
    Seq::new(items.len(), |i: int| items[i]@)
}

/// The first position at or after `start` whose key is `key`.
pub open spec fn position_from(
    members: Seq<(Seq<char>, JsonView)>,
    key: Seq<char>,
    start: int,
) -> Option<int>
    decreases members.len() - start,
{
    if start < 0 || start >= members.len() {
        None
    } else if members[start].0 == key {
        Some(start)
    } else {
        position_from(members, key, start + 1)
    }
}

/// The value under `key` in an object's members: that of the first member
/// with this key.
pub open spec fn lookup(members: Seq<(Seq<char>, JsonView)>, key: Seq<char>) -> Option<JsonView> {
    match position_from(members, key, 0) {
        Some(i) => Some(members[i].1),
        None => None,
    }
}

/// Finds the first member whose key is `key`.
pub fn find_member(members: &Vec<Member>, key: &String) -> (r: Option<usize>)
    ensures
        match r {
            Some(i) => position_from(pairs(members@), key@, 0) == Some(i as int)
                && i < members.len(),
            None => position_from(pairs(members@), key@, 0) is None,
        },
{
    let mut i: usize = 0;
    while i < members.len()
        invariant
            i <= members.len(),
            position_from(pairs(members@), key@, 0) == position_from(
                pairs(members@),
                key@,
                i as int,
            ),
        decreases members.len() - i,
    {
        if members[i].key == *key {
            return Some(i);
        }
        i += 1;
    }
    None
}

/// What `serde_json` holds in a parsed value, as a tree.
pub uninterp spec fn json_content(v: serde_json::Value) -> JsonView;

/// The tree that `serde_json` reads from a text, `None` where it rejects the
/// text.
pub uninterp spec fn json_document(bytes: Seq<u8>) -> Option<JsonView>;

/// `serde_json::Value`, carried through as it is.
#[verifier::external_type_specification]
#[verifier::external_body]
pub struct ExValue(serde_json::Value);

/// `serde_json::Error`, carried through as it is.
#[verifier::external_type_specification]
#[verifier::external_body]
pub struct ExJsonError(serde_json::Error);

/// `serde_json::from_slice`, read as a `serde_json::Value`. Trusted: whether
/// the text is accepted, and the tree that comes out, depend on the bytes
/// alone.
#[verifier::external_body]
pub(crate) fn json_from_slice(payload: &[u8]) -> (r: Result<serde_json::Value, serde_json::Error>)
    ensures
        r matches Ok(v) ==> json_document(payload@) == Some(json_content(v)),
        r is Err ==> json_document(payload@) is None,
{
    serde_json::from_slice::<serde_json::Value>(payload)
}

/// Moves a `serde_json::Value` into a `Json`, variant by variant; a number by
/// `serde_json::Number`'s `to_string`, an object's members in the order in
/// which its map hands them out. Trusted: the result stands for the tree that
/// the value holds.
#[verifier::external_body]
pub(crate) fn json_tree(v: serde_json::Value) -> (r: Json)
    ensures
        r@ == json_content(v),
{
    match v {
        serde_json::Value::Null => Json::Null,
        serde_json::Value::Bool(b) => Json::Bool(b),
        serde_json::Value::Number(n) => Json::Number(n.to_string()),
        serde_json::Value::String(s) => Json::Text(s),
        serde_json::Value::Array(a) => Json::List(a.into_iter().map(json_tree).collect()),
        serde_json::Value::Object(o) => Json::Object(
            o.into_iter().map(|(key, value)| Member { key, value: json_tree(value) }).collect(),
        ),
    }
}

/// The two shapes of a parsed list and of a parsed object, by their parts.
pub proof fn lemma_tree_parts(j: Json)
    ensures
        j matches Json::List(items) ==> j@ == JsonView::List(trees(items@)),
        j matches Json::Object(members) ==> j@ == JsonView::Object(pairs(members@)),
{
    match j {
        Json::List(items) => {
            assert(j@->List_0 =~= trees(items@));
        },
        Json::Object(members) => {
            assert(j@->Object_0 =~= pairs(members@));
        },
        _ => {},
    }
}

impl Json {
    /// A copy of the value.
    #[verifier::loop_isolation(false)]
    pub fn duplicate(&self) -> (r: Json)
        ensures
            r@ == self@,
        decreases self,
    {
        match self {
            Json::Null => Json::Null,
            Json::Bool(b) => Json::Bool(*b),
            Json::Number(n) => Json::Number(n.clone()),
            Json::Text(s) => Json::Text(s.clone()),
            Json::List(items) => {
                let mut copies: Vec<Json> = Vec::new();
                let mut i: usize = 0;
                while i < items.len()
                    invariant
                        i <= items.len(),
                        copies@.len() == i,
                        forall|k: int| 0 <= k < i ==> (#[trigger] copies@[k])@ == items@[k]@,
                    decreases items.len() - i,
                {
                    copies.push(items[i].duplicate());
                    i += 1;
                }
                let r = Json::List(copies);
                proof {
                    lemma_tree_parts(r);
                    lemma_tree_parts(*self);
                    assert(trees(copies@) =~= trees(items@));
                }
                r
            },
            Json::Object(members) => {
                let mut copies: Vec<Member> = Vec::new();
                let mut i: usize = 0;
                while i < members.len()
                    invariant
                        i <= members.len(),
                        copies@.len() == i,
                        forall|k: int|
                            0 <= k < i ==> (#[trigger] copies@[k]).pair() == members@[k].pair(),
                    decreases members.len() - i,
                {
                    copies.push(
                        Member { key: members[i].key.clone(), value: members[i].value.duplicate() },
                    );
                    i += 1;
                }
                let r = Json::Object(copies);
                proof {
                    lemma_tree_parts(r);
                    lemma_tree_parts(*self);
                    assert(pairs(copies@) =~= pairs(members@));
                }
                r
            },
        }
    }
}

impl Clone for Json {
    fn clone(&self) -> (r: Json)
        ensures
            r@ == self@,
    {
        self.duplicate()
    }
}

} // verus!
