//! JSON documents.
//!
//! A document is a tree of nulls, booleans, numbers, strings, arrays and
//! objects. An object is an ordered list of members; looking a key up finds
//! the first member that bears it. Two objects say the same when they bear
//! the same names with values that say the same, in whatever order.

use crate::number::{Decimal, Number};
use crate::text::{
    array_index, chars_of, parse_index, replace_pair, replaced_pair, split, split_on, string_of,
};
use vstd::prelude::*;

verus! {

/// A JSON document.
///
/// `==` tells two documents apart that are not built alike, member by
/// member in order; `equals` asks whether they say the same.
#[derive(Debug, PartialEq, Eq)]
pub enum Json {
    Null,
    Bool(bool),
    Number(Number),
    String(String),
    Array(Vec<Json>),
    Object(Vec<(String, Json)>),
}

/// The mathematical reading of a JSON document.
pub enum JsonValue {
    Null,
    Bool(bool),
    Number(Decimal),
    String(Seq<char>),
    Array(Seq<JsonValue>),
    Object(Seq<Member>),
}

/// One member of an object: a key and the value it names.
pub struct Member {
    pub key: Seq<char>,
    pub value: JsonValue,
}

impl View for Json {
    type V = JsonValue;

    open spec fn view(&self) -> JsonValue
        decreases self,
    {
        match self {
            Json::Null => JsonValue::Null,
            Json::Bool(b) => JsonValue::Bool(*b),
            Json::Number(n) => JsonValue::Number(n@),
            Json::String(s) => JsonValue::String(s@),
            Json::Array(items) => JsonValue::Array(
                Seq::new(
                    items@.len(),
                    |i: int|
                        if 0 <= i < items@.len() {
                            items@[i].view()
                        } else {
                            JsonValue::Null
                        },
                ),
            ),
            Json::Object(members) => JsonValue::Object(
                Seq::new(
                    members@.len(),
                    |i: int|
                        if 0 <= i < members@.len() {
                            Member { key: members@[i].0@, value: members@[i].1.view() }
                        } else {
                            Member { key: Seq::empty(), value: JsonValue::Null }
                        },
                ),
            ),
        }
    }
}

impl Clone for Json {
    /// A deep copy of the document.
    fn clone(&self) -> (r: Json)
        ensures
            r@ == self@,
        decreases self,
    {
        match self {
            Json::Null => Json::Null,
            Json::Bool(b) => Json::Bool(*b),
            Json::Number(n) => Json::Number(*n),
            Json::String(s) => Json::String(s.clone()),
            Json::Array(items) => {
                let mut copy: Vec<Json> = Vec::new();
                let mut i: usize = 0;
                while i < items.len()
                    invariant
                        0 <= i <= items.len(),
                        decreases_to!(self => items),
                        copy@.len() == i,
                        forall|j: int| 0 <= j < i ==> copy@[j]@ == items@[j]@,
                    decreases items.len() - i,
                {
                    proof {
                        vstd::std_specs::vec::axiom_vec_index_decreases(*items, i as int);
                    }
                    copy.push(items[i].clone());
                    i = i + 1;
                }
                let r = Json::Array(copy);
                assert(r@->Array_0 =~= self@->Array_0);
                r
            },
            Json::Object(members) => {
                let mut copy: Vec<(String, Json)> = Vec::new();
                let mut i: usize = 0;
                while i < members.len()
                    invariant
                        0 <= i <= members.len(),
                        decreases_to!(self => members),
                        copy@.len() == i,
                        forall|j: int|
                            0 <= j < i ==> copy@[j].0@ == members@[j].0@ && copy@[j].1@
                                == members@[j].1@,
                    decreases members.len() - i,
                {
                    proof {
                        vstd::std_specs::vec::axiom_vec_index_decreases(*members, i as int);
                    }
                    copy.push((members[i].0.clone(), members[i].1.clone()));
                    i = i + 1;
                }
                let r = Json::Object(copy);
                assert(r@->Object_0 =~= self@->Object_0);
                r
            },
        }
    }
}

impl DeepView for Json {
    type V = JsonValue;

    open spec fn deep_view(&self) -> JsonValue {
        self@
    }
}

/// The reading of a list of object members.
pub open spec fn members_view(members: Seq<(String, Json)>) -> Seq<Member> {
    Seq::new(members.len(), |i: int| Member { key: members[i].0@, value: members[i].1@ })
}

/// The value of the first member that bears `key`.
pub open spec fn lookup(members: Seq<Member>, key: Seq<char>) -> Option<JsonValue>
    decreases members.len(),
{
    if members.len() == 0 {
        None
    } else if members[0].key == key {
        Some(members[0].value)
    } else {
        lookup(members.drop_first(), key)
    }
}

/// The position of the first member that bears `key`.
pub open spec fn position(members: Seq<Member>, key: Seq<char>) -> Option<int>
    decreases members.len(),
{
    if members.len() == 0 {
        None
    } else if members[0].key == key {
        Some(0)
    } else {
        match position(members.drop_first(), key) {
            Some(i) => Some(i + 1),
            None => None,
        }
    }
}

/// Whether two documents say the same. Arrays say the same item by item.
/// Objects say the same name by name, whatever the order of their members:
/// each name that the one bears the other bears too, with a value that says
/// the same. Where a name stands twice, its first member counts.
pub open spec fn same(a: JsonValue, b: JsonValue) -> bool
    decreases a,
{
    match a {
        JsonValue::Array(ours) => b is Array && ours.len() == b->Array_0.len() && forall|i: int|
            0 <= i < ours.len() ==> same(#[trigger] ours[i], b->Array_0[i]),
        JsonValue::Object(ours) => b is Object && (forall|i: int|
            0 <= i < ours.len() && position(ours, (#[trigger] ours[i]).key) == Some(i) ==> lookup(
                b->Object_0,
                ours[i].key,
            ) is Some && same(ours[i].value, lookup(b->Object_0, ours[i].key)->0)) && (forall|
            j: int,
        |
            0 <= j < b->Object_0.len() ==> lookup(ours, (#[trigger] b->Object_0[j]).key) is Some),
        _ => a == b,
    }
}

/// Whether two documents, each of which may be absent, say the same: both
/// are absent, or both are there and say the same.
pub open spec fn same_optional(a: Option<JsonValue>, b: Option<JsonValue>) -> bool {
    match (a, b) {
        (Some(x), Some(y)) => same(x, y),
        (None, None) => true,
        _ => false,
    }
}

impl JsonValue {
    /// The value of the member `key`, where the document is an object that
    /// has one.
    pub open spec fn member(self, key: Seq<char>) -> Option<JsonValue> {
        match self {
            JsonValue::Object(members) => lookup(members, key),
            _ => None,
        }
    }

    /// The text, where the document is a string.
    pub open spec fn text(self) -> Option<Seq<char>> {
        match self {
            JsonValue::String(s) => Some(s),
            _ => None,
        }
    }

    /// The truth value, where the document is a boolean.
    pub open spec fn boolean(self) -> Option<bool> {
        match self {
            JsonValue::Bool(b) => Some(b),
            _ => None,
        }
    }

    /// The number, where the document is one.
    pub open spec fn number(self) -> Option<Decimal> {
        match self {
            JsonValue::Number(n) => Some(n),
            _ => None,
        }
    }

    /// The items, where the document is an array.
    pub open spec fn items(self) -> Option<Seq<JsonValue>> {
        match self {
            JsonValue::Array(items) => Some(items),
            _ => None,
        }
    }

    /// The text of the member `key`, where there is such a member and it is
    /// a string.
    pub open spec fn text_member(self, key: Seq<char>) -> Option<Seq<char>> {
        match self.member(key) {
            Some(v) => v.text(),
            None => None,
        }
    }

    /// The document one step down: the member that `token` names in an
    /// object, or the item at the position that it writes in an array.
    pub open spec fn child(self, token: Seq<char>) -> Option<JsonValue> {
        match self {
            JsonValue::Object(members) => lookup(members, token),
            JsonValue::Array(items) => match array_index(token) {
                Some(i) => if i < items.len() {
                    Some(items[i as int])
                } else {
                    None
                },
                None => None,
            },
            _ => None,
        }
    }

    /// The document that a path of tokens leads to.
    pub open spec fn descend(self, tokens: Seq<Seq<char>>) -> Option<JsonValue>
        decreases tokens.len(),
    {
        if tokens.len() == 0 {
            Some(self)
        } else {
            match self.child(tokens[0]) {
                Some(c) => c.descend(tokens.drop_first()),
                None => None,
            }
        }
    }

    /// The document at the slash-delimited path `field`.
    pub open spec fn at_path(self, field: Seq<char>) -> Option<JsonValue> {
        self.descend(path_tokens(field))
    }

    /// The document with the child that `token` names replaced by `value`;
    /// the document itself where `token` names none.
    pub open spec fn with_child(self, token: Seq<char>, value: JsonValue) -> JsonValue {
        match self {
            JsonValue::Object(members) => match position(members, token) {
                Some(i) => JsonValue::Object(members.update(i, Member { key: token, value })),
                None => self,
            },
            JsonValue::Array(items) => match array_index(token) {
                Some(i) => if i < items.len() {
                    JsonValue::Array(items.update(i as int, value))
                } else {
                    self
                },
                None => self,
            },
            _ => self,
        }
    }

    /// The document with what the path leads to replaced by `value`; the
    /// document itself where the path leads nowhere. Nothing else changes.
    pub open spec fn replaced(self, tokens: Seq<Seq<char>>, value: JsonValue) -> JsonValue
        decreases tokens.len(),
    {
        if tokens.len() == 0 {
            value
        } else {
            match self.child(tokens[0]) {
                Some(c) => self.with_child(tokens[0], c.replaced(tokens.drop_first(), value)),
                None => self,
            }
        }
    }

    /// The document with what lies at the path `field` replaced by `value`.
    pub open spec fn replaced_at(self, field: Seq<char>, value: JsonValue) -> JsonValue {
        self.replaced(path_tokens(field), value)
    }
}

/// A path token as it is meant: `~1` stands for a slash, `~0` for a tilde.
pub open spec fn unescaped(token: Seq<char>) -> Seq<char> {
    replaced_pair(replaced_pair(token, '~', '1', '/'), '~', '0', '~')
}

/// The tokens of a slash-delimited path, each as it is meant.
pub open spec fn path_tokens(field: Seq<char>) -> Seq<Seq<char>> {
    split(field, '/').map_values(|t: Seq<char>| unescaped(t))
}

/// The tokens of a slash-delimited path.
pub fn path_of(field: &str) -> (r: Vec<String>)
    ensures
        r.deep_view() == path_tokens(field@),
{
    let chars = chars_of(field);
    let pieces = split_on(&chars, '/');
    let mut out: Vec<String> = Vec::new();
    let mut i: usize = 0;
    while i < pieces.len()
        invariant
            0 <= i <= pieces.len(),
            pieces.deep_view() == split(field@, '/'),
            out.deep_view() == path_tokens(field@).take(i as int),
        decreases pieces.len() - i,
    {
        let first = replace_pair(&pieces[i], '~', '1', '/');
        let second = replace_pair(&first, '~', '0', '~');
        let ghost before = out.deep_view();
        proof {
            assert(pieces@[i as int]@ =~= pieces.deep_view()[i as int]);
        }
        out.push(string_of(&second));
        i = i + 1;
        assert(out.deep_view() =~= before.push(second@));
        assert(path_tokens(field@).take(i as int) =~= path_tokens(field@).take(i - 1).push(
            path_tokens(field@)[i - 1],
        ));
    }
    assert(path_tokens(field@).take(pieces.len() as int) =~= path_tokens(field@));
    out
}

/// The first position of a key and the value found under it agree.
pub proof fn lemma_position(members: Seq<Member>, key: Seq<char>)
    ensures
        match position(members, key) {
            Some(i) => 0 <= i < members.len() && members[i].key == key && lookup(members, key)
                == Some(members[i].value),
            None => lookup(members, key) is None,
        },
    decreases members.len(),
{
    if members.len() > 0 && members[0].key != key {
        lemma_position(members.drop_first(), key);
    }
}

/// The position of the first member that bears `key`.
pub fn find_member(members: &Vec<(String, Json)>, key: &String) -> (r: Option<usize>)
    ensures
        match r {
            Some(i) => position(members_view(members@), key@) == Some(i as int),
            None => position(members_view(members@), key@) is None,
        },
{
    let ghost all = members_view(members@);
    let mut i: usize = 0;
    assert(all.skip(0) == all);
    while i < members.len()
        invariant
            0 <= i <= members.len(),
            all == members_view(members@),
            match position(all.skip(i as int), key@) {
                Some(k) => position(all, key@) == Some(k + i),
                None => position(all, key@) is None,
            },
        decreases members.len() - i,
    {
        assert(all.skip(i as int).drop_first() == all.skip(i + 1));
        assert(all.skip(i as int)[0] == all[i as int]);
        if members[i].0 == *key {
            return Some(i);
        }
        i = i + 1;
    }
    None
}

/// The members of an object under construction, read as a sequence.
pub fn push_member(members: &mut Vec<(String, Json)>, key: &str, value: Json)
    ensures
        members_view(final(members)@) == members_view(old(members)@).push(
            Member { key: key@, value: value@ },
        ),
{
    let ghost before = members_view(members@);
    let ghost v = value@;
    members.push((key.to_owned(), value));
    assert(members_view(members@) =~= before.push(Member { key: key@, value: v }));
}

/// An object reads as the reading of its members.
pub proof fn lemma_object_view(j: Json)
    requires
        j is Object,
    ensures
        j@ is Object,
        j@->Object_0 == members_view(j->Object_0@),
{
    match j {
        Json::Object(members) => {
            assert(j@->Object_0 =~= members_view(members@));
        },
        _ => {},
    }
}

impl Json {
    /// The object with the given members.
    pub fn object(members: Vec<(String, Json)>) -> (r: Json)
        ensures
            r@ == JsonValue::Object(members_view(members@)),
    {
        let r = Json::Object(members);
        proof {
            lemma_object_view(r);
        }
        r
    }

    /// The array with the given items.
    pub fn array(items: Vec<Json>) -> (r: Json)
        ensures
            r@ == JsonValue::Array(items.deep_view()),
    {
        let r = Json::Array(items);
        assert(r@->Array_0 =~= items.deep_view());
        r
    }

    /// The string with the given text.
    pub fn string(text: &str) -> (r: Json)
        ensures
            r@ == JsonValue::String(text@),
    {
        Json::String(text.to_owned())
    }

    /// The value of the first member that bears `key`.
    pub fn get(&self, key: &str) -> (r: Option<&Json>)
        ensures
            match r {
                Some(v) => self@.member(key@) == Some(v@),
                None => self@.member(key@) is None,
            },
    {
        match self {
            Json::Object(members) => {
                let ghost all = members_view(members@);
                proof {
                    lemma_object_view(*self);
                }
                let wanted = key.to_owned();
                let mut i: usize = 0;
                assert(all.skip(0) == all);
                while i < members.len()
                    invariant
                        0 <= i <= members.len(),
                        all == members_view(members@),
                        self@ == JsonValue::Object(all),
                        wanted@ == key@,
                        lookup(all, key@) == lookup(all.skip(i as int), key@),
                    decreases members.len() - i,
                {
                    assert(all.skip(i as int).drop_first() == all.skip(i + 1));
                    assert(all.skip(i as int)[0] == all[i as int]);
                    if members[i].0 == wanted {
                        return Some(&members[i].1);
                    }
                    i = i + 1;
                }
                None
            },
            _ => None,
        }
    }

    /// The text, where the document is a string.
    pub fn as_str(&self) -> (r: Option<&str>)
        ensures
            match r {
                Some(s) => self@.text() == Some(s@),
                None => self@.text() is None,
            },
    {
        match self {
            Json::String(s) => Some(s.as_str()),
            _ => None,
        }
    }

    /// The truth value, where the document is a boolean.
    pub fn as_bool(&self) -> (r: Option<bool>)
        ensures
            r == self@.boolean(),
    {
        match self {
            Json::Bool(b) => Some(*b),
            _ => None,
        }
    }

    /// The number, where the document is one.
    pub fn as_number(&self) -> (r: Option<Number>)
        ensures
            match r {
                Some(n) => self@.number() == Some(n@),
                None => self@.number() is None,
            },
    {
        match self {
            Json::Number(n) => Some(*n),
            _ => None,
        }
    }

    /// The items, where the document is an array.
    pub fn as_array(&self) -> (r: Option<&Vec<Json>>)
        ensures
            match r {
                Some(items) => self@.items() == Some(items.deep_view()),
                None => self@.items() is None,
            },
    {
        match self {
            Json::Array(items) => {
                assert(self@->Array_0 =~= items.deep_view());
                Some(items)
            },
            _ => None,
        }
    }

    /// Whether the document is an object.
    pub fn is_object(&self) -> (r: bool)
        ensures
            r == (self@ is Object),
    {
        match self {
            Json::Object(_) => true,
            _ => false,
        }
    }

    /// Whether the document is an array.
    pub fn is_array(&self) -> (r: bool)
        ensures
            r == (self@ is Array),
    {
        match self {
            Json::Array(_) => true,
            _ => false,
        }
    }

    /// The document one step down.
    pub fn child(&self, token: &String) -> (r: Option<&Json>)
        ensures
            match r {
                Some(v) => self@.child(token@) == Some(v@),
                None => self@.child(token@) is None,
            },
    {
        match self {
            Json::Object(_) => self.get(token.as_str()),
            Json::Array(items) => {
                assert(self@->Array_0 =~= items.deep_view());
                let chars = chars_of(token.as_str());
                match parse_index(&chars) {
                    Some(i) => if i < items.len() {
                        Some(&items[i])
                    } else {
                        None
                    },
                    None => None,
                }
            },
            _ => None,
        }
    }

    /// The document that a path of tokens leads to.
    pub fn descend(&self, tokens: &Vec<String>) -> (r: Option<&Json>)
        ensures
            match r {
                Some(v) => self@.descend(tokens.deep_view()) == Some(v@),
                None => self@.descend(tokens.deep_view()) is None,
            },
    {
        let mut target: &Json = self;
        let mut i: usize = 0;
        let ghost path = tokens.deep_view();
        assert(path.skip(0) == path);
        while i < tokens.len()
            invariant
                0 <= i <= tokens.len(),
                path == tokens.deep_view(),
                self@.descend(path) == target@.descend(path.skip(i as int)),
            decreases tokens.len() - i,
        {
            assert(path.skip(i as int).drop_first() == path.skip(i + 1));
            assert(path.skip(i as int)[0] == tokens@[i as int]@);
            match target.child(&tokens[i]) {
                Some(c) => {
                    target = c;
                },
                None => {
                    return None;
                },
            }
            i = i + 1;
        }
        Some(target)
    }

    /// The document at the slash-delimited path `field`.
    pub fn pointer(&self, field: &str) -> (r: Option<&Json>)
        ensures
            match r {
                Some(v) => self@.at_path(field@) == Some(v@),
                None => self@.at_path(field@) is None,
            },
    {
        let tokens = path_of(field);
        self.descend(&tokens)
    }

    /// The document with what the tokens from `from` on lead to replaced.
    fn replace_from(self, tokens: &Vec<String>, from: usize, value: Json) -> (r: Json)
        requires
            from <= tokens.len(),
        ensures
            r@ == self@.replaced(tokens.deep_view().skip(from as int), value@),
        decreases tokens.len() - from,
    {
        if from >= tokens.len() {
            return value;
        }
        let ghost path = tokens.deep_view().skip(from as int);
        let ghost whole = self@;
        proof {
            assert(path[0] == tokens@[from as int]@);
            assert(path.drop_first() == tokens.deep_view().skip(from + 1));
            if self is Object {
                lemma_object_view(self);
            }
        }
        match self {
            Json::Object(mut members) => {
                let ghost before = members_view(members@);
                proof {
                    lemma_position(before, path[0]);
                }
                match find_member(&members, &tokens[from]) {
                    Some(i) => {
                        let entry = members.remove(i);
                        let key = entry.0;
                        let child = entry.1.replace_from(tokens, from + 1, value);
                        members.insert(i, (key, child));
                        assert(members_view(members@) =~= before.update(
                            i as int,
                            Member { key: path[0], value: child@ },
                        ));
                        Json::object(members)
                    },
                    None => Json::object(members),
                }
            },
            Json::Array(mut items) => {
                let ghost before = items.deep_view();
                assert(whole->Array_0 =~= before);
                let chars = chars_of(tokens[from].as_str());
                match parse_index(&chars) {
                    Some(i) => if i < items.len() {
                        let item = items.remove(i);
                        let child = item.replace_from(tokens, from + 1, value);
                        items.insert(i, child);
                        assert(items.deep_view() =~= before.update(i as int, child@));
                        Json::array(items)
                    } else {
                        Json::array(items)
                    },
                    None => Json::array(items),
                }
            },
            other => other,
        }
    }

    /// The document with what lies at the slash-delimited path `field`
    /// replaced by `value`; the document itself where nothing lies there.
    pub fn with_value_at(self, field: &str, value: Json) -> (r: Json)
        ensures
            r@ == self@.replaced_at(field@, value@),
    {
        let tokens = path_of(field);
        assert(tokens.deep_view().skip(0) == tokens.deep_view());
        self.replace_from(&tokens, 0, value)
    }

    /// Whether two documents say the same.
    pub fn equals(&self, other: &Json) -> (r: bool)
        ensures
            r == same(self@, other@),
        decreases self,
    {
        match (self, other) {
            (Json::Null, Json::Null) => true,
            (Json::Bool(a), Json::Bool(b)) => *a == *b,
            (Json::Number(a), Json::Number(b)) => a.equals(b),
            (Json::String(a), Json::String(b)) => *a == *b,
            (Json::Array(a), Json::Array(b)) => {
                assert(self@->Array_0 =~= a.deep_view());
                assert(other@->Array_0 =~= b.deep_view());
                if a.len() != b.len() {
                    return false;
                }
                let mut i: usize = 0;
                while i < a.len()
                    invariant
                        0 <= i <= a.len(),
                        a.len() == b.len(),
                        decreases_to!(self => a),
                        self@ == JsonValue::Array(a.deep_view()),
                        other@ == JsonValue::Array(b.deep_view()),
                        forall|j: int|
                            0 <= j < i ==> same(#[trigger] a.deep_view()[j], b.deep_view()[j]),
                    decreases a.len() - i,
                {
                    proof {
                        vstd::std_specs::vec::axiom_vec_index_decreases(*a, i as int);
                    }
                    if !a[i].equals(&b[i]) {
                        assert(!same(a.deep_view()[i as int], b.deep_view()[i as int]));
                        return false;
                    }
                    i = i + 1;
                }
                true
            },
            (Json::Object(a), Json::Object(b)) => {
                proof {
                    lemma_object_view(*self);
                    lemma_object_view(*other);
                }
                let ghost ours = members_view(a@);
                let ghost theirs = members_view(b@);
                let mut i: usize = 0;
                while i < a.len()
                    invariant
                        0 <= i <= a.len(),
                        decreases_to!(self => a),
                        ours == members_view(a@),
                        theirs == members_view(b@),
                        self@ == JsonValue::Object(ours),
                        other@ == JsonValue::Object(theirs),
                        forall|j: int|
                            0 <= j < i && position(ours, (#[trigger] ours[j]).key) == Some(j)
                                ==> lookup(theirs, ours[j].key) is Some && same(
                                ours[j].value,
                                lookup(theirs, ours[j].key)->0,
                            ),
                    decreases a.len() - i,
                {
                    proof {
                        vstd::std_specs::vec::axiom_vec_index_decreases(*a, i as int);
                    }
                    assert(ours[i as int].key == a@[i as int].0@);
                    assert(ours[i as int].value == a@[i as int].1@);
                    let first = find_member(a, &a[i].0);
                    if first == Some(i) {
                        match other.get(a[i].0.as_str()) {
                            Some(theirs_value) => {
                                if !a[i].1.equals(theirs_value) {
                                    return false;
                                }
                            },
                            None => {
                                return false;
                            },
                        }
                    }
                    i = i + 1;
                }
                let mut k: usize = 0;
                while k < b.len()
                    invariant
                        0 <= k <= b.len(),
                        ours == members_view(a@),
                        theirs == members_view(b@),
                        self@ == JsonValue::Object(ours),
                        other@ == JsonValue::Object(theirs),
                        forall|j: int|
                            0 <= j < ours.len() && position(ours, (#[trigger] ours[j]).key)
                                == Some(j) ==> lookup(theirs, ours[j].key) is Some && same(
                                ours[j].value,
                                lookup(theirs, ours[j].key)->0,
                            ),
                        forall|j: int|
                            0 <= j < k ==> lookup(ours, (#[trigger] theirs[j]).key) is Some,
                    decreases b.len() - k,
                {
                    assert(theirs[k as int].key == b@[k as int].0@);
                    if self.get(b[k].0.as_str()).is_none() {
                        return false;
                    }
                    k = k + 1;
                }
                true
            },
            _ => false,
        }
    }

    /// The text of the member `key`, where there is such a member and it is
    /// a string.
    pub fn text_member(&self, key: &str) -> (r: Option<&str>)
        ensures
            match r {
                Some(s) => self@.text_member(key@) == Some(s@),
                None => self@.text_member(key@) is None,
            },
    {
        match self.get(key) {
            Some(v) => v.as_str(),
            None => None,
        }
    }
}

} // verus!
