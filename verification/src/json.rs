//! JSON values as the library holds them, and the calls into `serde_json` that
//! read and write their text.

use crate::text::same_text;
use vstd::prelude::*;

verus! {

/// A `serde_json` number. The library hands numbers on and never looks inside.
#[verifier::external_type_specification]
#[verifier::external_body]
pub struct ExJsonNumber(serde_json::Number);

/// A `serde_json` value. It lives only between a call into the crate and the
/// conversion to or from [`Json`].
#[verifier::external_type_specification]
#[verifier::external_body]
pub struct ExJsonValue(serde_json::Value);

/// A clone of a `serde_json` number is the same number.
pub assume_specification[ <serde_json::Number as Clone>::clone ](
    number: &serde_json::Number,
) -> (r: serde_json::Number)
    ensures
        r == *number,
;

/// A JSON value. The members of an object stand in the order in which they were put
/// there: by their names where the value was read from a text, and those that were set
/// afterwards behind them.
#[derive(Debug, PartialEq)]
pub enum Json {
    Null,
    Bool(bool),
    Number(serde_json::Number),
    Text(String),
    List(Vec<Json>),
    Object(Vec<(String, Json)>),
}

/// The model of a [`Json`] value.
pub enum JsonTree {
    Null,
    Bool(bool),
    Number(serde_json::Number),
    Text(Seq<char>),
    List(Seq<JsonTree>),
    Object(Seq<(Seq<char>, JsonTree)>),
}

/// The model of a JSON value.
pub open spec fn json_tree(json: Json) -> JsonTree
    decreases json,
{
    match json {
        Json::Null => JsonTree::Null,
        Json::Bool(b) => JsonTree::Bool(b),
        Json::Number(n) => JsonTree::Number(n),
        Json::Text(s) => JsonTree::Text(s@),
        Json::List(items) => JsonTree::List(
            Seq::new(
                items@.len(),
                |i: int|
                    if 0 <= i < items@.len() {
                        json_tree(items@[i])
                    } else {
                        JsonTree::Null
                    },
            ),
        ),
        Json::Object(members) => JsonTree::Object(
            Seq::new(
                members@.len(),
                |i: int|
                    if 0 <= i < members@.len() {
                        (members@[i].0@, json_tree(members@[i].1))
                    } else {
                        (Seq::empty(), JsonTree::Null)
                    },
            ),
        ),
    }
}

impl DeepView for Json {
    type V = JsonTree;

    open spec fn deep_view(&self) -> JsonTree {
        json_tree(*self)
    }
}

/// What the text of a JSON document parses to with `serde_json::from_str`: a value,
/// or the displayed error.
pub uninterp spec fn parse_outcome(text: Seq<char>) -> Result<serde_json::Value, Seq<char>>;

/// What a `serde_json` value holds.
pub uninterp spec fn value_tree(value: serde_json::Value) -> JsonTree;

/// The `serde_json` value made of a tree. Its objects keep the last of several
/// members of one name.
pub uninterp spec fn value_of(tree: JsonTree) -> serde_json::Value;

/// The compact text that `serde_json::to_string` writes for a value.
pub uninterp spec fn value_text(value: serde_json::Value) -> Seq<char>;

/// `serde_json::from_str` into `serde_json::Value`: the outcome depends on the text
/// alone. The error is handed on as the text that it displays.
#[verifier::external_body]
fn value_from_str(text: &str) -> (r: Result<serde_json::Value, String>)
    ensures
        match r {
            Ok(value) => parse_outcome(text@) == Ok::<serde_json::Value, Seq<char>>(value),
            Err(message) => parse_outcome(text@) == Err::<serde_json::Value, Seq<char>>(message@),
        },
{
    match serde_json::from_str::<serde_json::Value>(text) {
        Ok(value) => Ok(value),
        Err(error) => Err(error.to_string()),
    }
}

/// Takes a `serde_json::Value` apart, variant by variant.
#[verifier::external_body]
fn json_from_value(value: serde_json::Value) -> (r: Json)
    ensures
        r.deep_view() == value_tree(value),
{
    match value {
        serde_json::Value::Null => Json::Null,
        serde_json::Value::Bool(b) => Json::Bool(b),
        serde_json::Value::Number(n) => Json::Number(n),
        serde_json::Value::String(s) => Json::Text(s),
        serde_json::Value::Array(items) => Json::List(
            items.into_iter().map(json_from_value).collect(),
        ),
        serde_json::Value::Object(members) => Json::Object(
            members.into_iter().map(|(name, item)| (name, json_from_value(item))).collect(),
        ),
    }
}

/// Puts a `serde_json::Value` together, variant by variant.
#[verifier::external_body]
fn json_to_value(json: &Json) -> (r: serde_json::Value)
    ensures
        r == value_of(json.deep_view()),
{
    match json {
        Json::Null => serde_json::Value::Null,
        Json::Bool(b) => serde_json::Value::Bool(*b),
        Json::Number(n) => serde_json::Value::Number(n.clone()),
        Json::Text(s) => serde_json::Value::String(s.clone()),
        Json::List(items) => serde_json::Value::Array(items.iter().map(json_to_value).collect()),
        Json::Object(members) => serde_json::Value::Object(
            members.iter().map(|(name, item)| (name.clone(), json_to_value(item))).collect(),
        ),
    }
}

/// `serde_json::to_string` of a value, whose text depends on the value alone.
/// Writing a `serde_json::Value` to a string does not fail.
#[verifier::external_body]
fn value_to_text(value: &serde_json::Value) -> (r: String)
    ensures
        r@ == value_text(*value),
{
    serde_json::to_string(value).unwrap_or_default()
}

/// The indented text that `serde_json::to_string_pretty` writes for a value.
pub uninterp spec fn value_pretty_text(value: serde_json::Value) -> Seq<char>;

/// `serde_json::to_string_pretty` of a value, whose text depends on the value alone.
/// Writing a `serde_json::Value` to a string does not fail.
#[verifier::external_body]
fn value_to_pretty_text(value: &serde_json::Value) -> (r: String)
    ensures
        r@ == value_pretty_text(*value),
{
    serde_json::to_string_pretty(value).unwrap_or_default()
}

/// The tree that a JSON text parses to, if it parses.
pub open spec fn parsed_tree(text: Seq<char>) -> Option<JsonTree> {
    match parse_outcome(text) {
        Ok(value) => Some(value_tree(value)),
        Err(_) => None,
    }
}

/// The compact text of a tree.
pub open spec fn tree_text(tree: JsonTree) -> Seq<char> {
    value_text(value_of(tree))
}

/// The indented text of a tree.
pub open spec fn tree_pretty_text(tree: JsonTree) -> Seq<char> {
    value_pretty_text(value_of(tree))
}

/// Parses a JSON text. The error is the text that the parser displays.
pub fn parse_json(text: &str) -> (r: Result<Json, String>)
    ensures
        match r {
            Ok(json) => parsed_tree(text@) == Some(json.deep_view()),
            Err(message) => parse_outcome(text@) == Err::<serde_json::Value, Seq<char>>(message@),
        },
{
    match value_from_str(text) {
        Ok(value) => Ok(json_from_value(value)),
        Err(message) => Err(message),
    }
}

/// The member of that name, where the tree is an object that has one.
pub open spec fn member(tree: JsonTree, name: Seq<char>) -> Option<JsonTree> {
    match tree {
        JsonTree::Object(members) => if exists|i: int|
            0 <= i < members.len() && #[trigger] members[i].0 == name {
            Some(members[choose|i: int| first_member(members, name, i)].1)
        } else {
            None
        },
        _ => None,
    }
}

/// `i` is the position of the first member of that name.
pub open spec fn first_member(
    members: Seq<(Seq<char>, JsonTree)>,
    name: Seq<char>,
    i: int,
) -> bool {
    &&& 0 <= i < members.len()
    &&& members[i].0 == name
    &&& forall|j: int| 0 <= j < i ==> #[trigger] members[j].0 != name
}

/// A tree that can get a member: an object, or nothing, which becomes one.
pub open spec fn takes_member(tree: JsonTree) -> bool {
    tree is Object || tree is Null
}

/// The members with that one, in place of the first of its name, or behind all others.
pub open spec fn members_with(
    members: Seq<(Seq<char>, JsonTree)>,
    name: Seq<char>,
    value: JsonTree,
) -> Seq<(Seq<char>, JsonTree)> {
    if exists|i: int| 0 <= i < members.len() && #[trigger] members[i].0 == name {
        members.update(choose|i: int| first_member(members, name, i), (name, value))
    } else {
        members.push((name, value))
    }
}

/// The tree with that member.
pub open spec fn with_member(tree: JsonTree, name: Seq<char>, value: JsonTree) -> JsonTree {
    match tree {
        JsonTree::Object(members) => JsonTree::Object(members_with(members, name, value)),
        _ => JsonTree::Object(seq![(name, value)]),
    }
}

#[verifier::spinoff_prover]
proof fn lemma_first_member(members: Seq<(Seq<char>, JsonTree)>, name: Seq<char>, i: int)
    requires
        first_member(members, name, i),
    ensures
        member(JsonTree::Object(members), name) == Some(members[i].1),
        forall|k: int| first_member(members, name, k) ==> k == i,
{
    assert forall|k: int| first_member(members, name, k) implies k == i by {
        if k < i {
            assert(members[k].0 == name);
        }
        if i < k {
            assert(members[i].0 != name);
        }
    }
    assert(members[i].0 == name);
}

proof fn lemma_there_is_a_first(members: Seq<(Seq<char>, JsonTree)>, name: Seq<char>, i: int)
    requires
        0 <= i < members.len(),
        members[i].0 == name,
    ensures
        exists|k: int| first_member(members, name, k),
    decreases i,
{
    if exists|j: int| 0 <= j < i && #[trigger] members[j].0 == name {
        let j = choose|j: int| 0 <= j < i && #[trigger] members[j].0 == name;
        lemma_there_is_a_first(members, name, j);
    } else {
        assert(first_member(members, name, i));
    }
}

/// A member that was set is the one that is found, and every other member is as before.
pub proof fn law_set_member_is_found(
    tree: JsonTree,
    name: Seq<char>,
    value: JsonTree,
    other: Seq<char>,
)
    requires
        takes_member(tree),
        other != name,
    ensures
        member(with_member(tree, name, value), name) == Some(value),
        member(with_member(tree, name, value), other) == member(tree, other),
{
    match tree {
        JsonTree::Object(members) => {
            let after = members_with(members, name, value);
            if exists|i: int| 0 <= i < members.len() && #[trigger] members[i].0 == name {
                let i = choose|i: int| 0 <= i < members.len() && #[trigger] members[i].0 == name;
                lemma_there_is_a_first(members, name, i);
                let at = choose|i: int| first_member(members, name, i);
                assert forall|j: int| 0 <= j < at implies #[trigger] after[j].0 != name by {
                    assert(members[j].0 != name);
                }
                assert(first_member(after, name, at));
                lemma_first_member(after, name, at);
            } else {
                let at = members.len() as int;
                assert forall|j: int| 0 <= j < at implies #[trigger] after[j].0 != name by {
                    assert(members[j].0 != name);
                }
                assert(first_member(after, name, at));
                lemma_first_member(after, name, at);
            }
            if exists|i: int| 0 <= i < members.len() && #[trigger] members[i].0 == other {
                let i = choose|i: int| 0 <= i < members.len() && #[trigger] members[i].0 == other;
                lemma_there_is_a_first(members, other, i);
                let at = choose|i: int| first_member(members, other, i);
                lemma_first_member(members, other, at);
                assert(after[at].0 == other);
                assert forall|j: int| 0 <= j < at implies #[trigger] after[j].0 != other by {
                    assert(members[j].0 != other);
                }
                assert(first_member(after, other, at));
                lemma_first_member(after, other, at);
            } else {
                assert forall|j: int| 0 <= j < after.len() implies #[trigger] after[j].0
                    != other by {
                    if j < members.len() {
                        assert(members[j].0 != other);
                    }
                }
            }
        },
        _ => {
            let after = seq![(name, value)];
            assert(first_member(after, name, 0));
            lemma_first_member(after, name, 0);
            assert forall|j: int| 0 <= j < after.len() implies #[trigger] after[j].0 != other by {}
        },
    }
}

impl Json {
    /// Sets a member.
    pub fn set_member(self, name: &str, value: Json) -> (r: Json)
        requires
            takes_member(self.deep_view()),
        ensures
            r.deep_view() == with_member(self.deep_view(), name@, value.deep_view()),
    {
        match self {
            Json::Object(members) => {
                let ghost tree = self.deep_view()->Object_0;
                let mut members = members;
                let mut i: usize = 0;
                while i < members.len()
                    invariant
                        i <= members.len(),
                        tree.len() == members.len(),
                        forall|k: int|
                            0 <= k < members.len() ==> tree[k] == (
                                members@[k].0@,
                                json_tree(members@[k].1),
                            ),
                        forall|k: int| 0 <= k < i ==> #[trigger] tree[k].0 != name@,
                        self.deep_view() == JsonTree::Object(tree),
                    decreases members.len() - i,
                {
                    if same_text(members[i].0.as_str(), name) {
                        let ghost before = members@;
                        members.set(i, (name.to_owned(), value));
                        let r = Json::Object(members);
                        proof {
                            assert(tree[i as int].0 == name@);
                            assert(first_member(tree, name@, i as int));
                            lemma_first_member(tree, name@, i as int);
                            assert(r.deep_view()->Object_0 =~= members_with(
                                tree,
                                name@,
                                value.deep_view(),
                            ));
                        }
                        return r;
                    }
                    i += 1;
                }
                members.push((name.to_owned(), value));
                let r = Json::Object(members);
                proof {
                    assert(r.deep_view()->Object_0 =~= members_with(
                        tree,
                        name@,
                        value.deep_view(),
                    ));
                }
                r
            },
            _ => {
                let r = Json::Object(vec![(name.to_owned(), value)]);
                proof {
                    assert(r.deep_view()->Object_0 =~= seq![(name@, value.deep_view())]);
                }
                r
            },
        }
    }

    /// Whether the value can get a member.
    pub fn takes_members(&self) -> (r: bool)
        ensures
            r == takes_member(self.deep_view()),
    {
        matches!(self, Json::Object(_) | Json::Null)
    }

    /// The indented text of the value.
    pub fn to_pretty_text(&self) -> (r: String)
        ensures
            r@ == tree_pretty_text(self.deep_view()),
    {
        let value = json_to_value(self);
        value_to_pretty_text(&value)
    }

    /// The compact text of the value.
    pub fn to_text(&self) -> (r: String)
        ensures
            r@ == tree_text(self.deep_view()),
    {
        let value = json_to_value(self);
        value_to_text(&value)
    }

    pub fn is_object(&self) -> (r: bool)
        ensures
            r == (self.deep_view() is Object),
    {
        matches!(self, Json::Object(_))
    }

    /// The text of a string value.
    pub fn as_str(&self) -> (r: Option<&str>)
        ensures
            match r {
                Some(text) => self.deep_view() == JsonTree::Text(text@),
                None => !(self.deep_view() is Text),
            },
    {
        match self {
            Json::Text(text) => Some(text.as_str()),
            _ => None,
        }
    }

    /// The member of that name, where the value is an object that has one.
    pub fn get(&self, name: &str) -> (r: Option<&Json>)
        ensures
            match r {
                Some(json) => member(self.deep_view(), name@) == Some(json.deep_view()),
                None => member(self.deep_view(), name@) is None,
            },
    {
        match self {
            Json::Object(members) => {
                let ghost tree = self.deep_view()->Object_0;
                let mut i: usize = 0;
                while i < members.len()
                    invariant
                        i <= members.len(),
                        self.deep_view() == JsonTree::Object(tree),
                        tree.len() == members.len(),
                        forall|k: int|
                            0 <= k < members.len() ==> tree[k] == (
                                members@[k].0@,
                                json_tree(members@[k].1),
                            ),
                        forall|k: int| 0 <= k < i ==> #[trigger] tree[k].0 != name@,
                    decreases members.len() - i,
                {
                    if same_text(members[i].0.as_str(), name) {
                        proof {
                            assert(tree[i as int].0 == name@);
                            assert(first_member(tree, name@, i as int));
                            lemma_first_member(tree, name@, i as int);
                        }
                        return Some(&members[i].1);
                    }
                    i += 1;
                }
                None
            },
            _ => None,
        }
    }
}

impl Clone for Json {
    fn clone(&self) -> (r: Self)
        ensures
            r.deep_view() == self.deep_view(),
        decreases self,
    {
        match self {
            Json::Null => Json::Null,
            Json::Bool(b) => Json::Bool(*b),
            Json::Number(n) => Json::Number(n.clone()),
            Json::Text(s) => Json::Text(s.clone()),
            Json::List(items) => {
                let mut out: Vec<Json> = Vec::new();
                let mut i: usize = 0;
                while i < items.len()
                    invariant
                        i <= items.len(),
                        out.len() == i,
                        *self == Json::List(*items),
                        forall|k: int|
                            0 <= k < i ==> json_tree(#[trigger] out@[k]) == json_tree(items@[k]),
                    decreases items.len() - i,
                {
                    proof {
                        assert(decreases_to!(*self => self->List_0));
                        assert(decreases_to!(items@ => items@[i as int]));
                    }
                    out.push(items[i].clone());
                    i += 1;
                }
                let r = Json::List(out);
                proof {
                    assert(r.deep_view()->List_0 =~= self.deep_view()->List_0);
                }
                r
            },
            Json::Object(members) => {
                let mut out: Vec<(String, Json)> = Vec::new();
                let mut i: usize = 0;
                while i < members.len()
                    invariant
                        i <= members.len(),
                        out.len() == i,
                        *self == Json::Object(*members),
                        forall|k: int|
                            0 <= k < i ==> (#[trigger] out@[k]).0@ == members@[k].0@ && json_tree(
                                out@[k].1,
                            ) == json_tree(members@[k].1),
                    decreases members.len() - i,
                {
                    proof {
                        assert(decreases_to!(*self => self->Object_0));
                        assert(decreases_to!(members@ => members@[i as int]));
                        assert(decreases_to!(members@[i as int] => members@[i as int].1));
                    }
                    out.push((members[i].0.clone(), members[i].1.clone()));
                    i += 1;
                }
                let r = Json::Object(out);
                proof {
                    assert(r.deep_view()->Object_0 =~= self.deep_view()->Object_0);
                }
                r
            },
        }
    }
}

/// The first member of a name is found under it.
pub proof fn lemma_member_at(members: Seq<(Seq<char>, JsonTree)>, i: int)
    requires
        0 <= i < members.len(),
        forall|j: int| 0 <= j < i ==> (#[trigger] members[j]).0 != members[i].0,
    ensures
        member(JsonTree::Object(members), members[i].0) == Some(members[i].1),
{
    let name = members[i].0;
    assert(first_member(members, name, i));
    let found = choose|k: int| first_member(members, name, k);
    assert(first_member(members, name, found));
    if found < i {
        assert(members[found].0 != name);
    }
    if i < found {
        assert(members[i].0 != name);
    }
}

/// A member that was set is read back, and every other member is read as before.
pub proof fn law_set_member_is_read_back(
    json: Json,
    name: &str,
    value: Json,
    r: Json,
    found: Option<&Json>,
    other: &str,
    before: Option<&Json>,
    after: Option<&Json>,
)
    requires
        takes_member(json.deep_view()),
        call_ensures(Json::set_member, (json, name, value), r),
        call_ensures(Json::get, (&r, name), found),
        call_ensures(Json::get, (&json, other), before),
        call_ensures(Json::get, (&r, other), after),
        other@ != name@,
    ensures
        found matches Some(read) && read.deep_view() == value.deep_view(),
        before is Some <==> after is Some,
        before matches Some(read) ==> (after matches Some(again) && again.deep_view()
            == read.deep_view()),
{
    law_set_member_is_found(json.deep_view(), name@, value.deep_view(), other@);
}

/// The first member of a name is the one that is read; where no member has the name, or the
/// value is no object, nothing is.
pub proof fn law_first_member_is_read(json: Json, name: &str, r: Option<&Json>, i: int)
    requires
        call_ensures(Json::get, (&json, name), r),
    ensures
        json matches Json::Object(members) ==> {
            &&& 0 <= i < members@.len() && members@[i].0@ == name@ && (forall|k: int|
                0 <= k < i ==> (#[trigger] members@[k]).0@ != name@) ==> (r matches Some(found)
                && found.deep_view() == members@[i].1.deep_view())
            &&& r is Some ==> exists|k: int|
                0 <= k < members@.len() && (#[trigger] members@[k]).0@ == name@
        },
        json !is Object ==> r is None,
{
    if let Json::Object(members) = json {
        let trees = json.deep_view()->Object_0;
        assert(trees.len() == members@.len());
        assert forall|k: int| 0 <= k < members@.len() implies (#[trigger] trees[k]) == (
            members@[k].0@,
            members@[k].1.deep_view(),
        ) by {}
        if 0 <= i < members@.len() && members@[i].0@ == name@ && (forall|k: int|
            0 <= k < i ==> (#[trigger] members@[k]).0@ != name@) {
            assert(trees[i].0 == name@);
            assert forall|k: int| 0 <= k < i implies (#[trigger] trees[k]).0 != trees[i].0 by {
                assert(members@[k].0@ != name@);
            }
            lemma_member_at(trees, i);
        }
        if r is Some {
            let k = choose|k: int| 0 <= k < trees.len() && #[trigger] trees[k].0 == name@;
            assert(members@[k].0@ == name@);
        }
    }
}

} // verus!
