//! The JSON data model that flows, rows and step results are written in.

use vstd::prelude::*;
use crate::text::str_eq;

verus! {

/// A JSON number.
#[derive(Debug, PartialEq, Eq)]
pub enum Number {
    /// A non-negative integer.
    PosInt(u64),
    /// An integer; negative where it was read from JSON.
    NegInt(i64),
    /// A number with a fraction or an exponent, held by its JSON text.
    Float(String),
}

/// A JSON document.
#[derive(Debug, PartialEq, Eq)]
pub enum Json {
    Null,
    Bool(bool),
    Number(Number),
    String(String),
    Array(Vec<Json>),
    /// The members in the order they were written. Where a key occurs twice,
    /// the later member is the one that counts.
    Object(Vec<(String, Json)>),
}

/// The mathematical content of a [`Json`] document.
pub enum JsonView {
    Null,
    Bool(bool),
    Int(int),
    Float(Seq<char>),
    Str(Seq<char>),
    Array(Seq<JsonView>),
    Object(Map<Seq<char>, JsonView>),
}

/// The sequence that a list of documents stands for.
pub open spec fn items_view(items: Seq<Json>) -> Seq<JsonView>
    decreases items,
{
    if items.len() == 0 {
        Seq::empty()
    } else {
        items_view(items.drop_last()).push(json_view(items.last()))
    }
}

/// The map that a list of members stands for: later members override
/// earlier ones.
pub open spec fn members_view(members: Seq<(String, Json)>) -> Map<Seq<char>, JsonView>
    decreases members,
{
    if members.len() == 0 {
        Map::empty()
    } else {
        let last = members.last();
        members_view(members.drop_last()).insert(last.0@, json_view(last.1))
    }
}

/// The content of a document.
pub open spec fn json_view(v: Json) -> JsonView
    decreases v,
{
    match v {
        Json::Null => JsonView::Null,
        Json::Bool(b) => JsonView::Bool(b),
        Json::Number(Number::PosInt(n)) => JsonView::Int(n as int),
        Json::Number(Number::NegInt(n)) => JsonView::Int(n as int),
        Json::Number(Number::Float(text)) => JsonView::Float(text@),
        Json::String(s) => JsonView::Str(s@),
        Json::Array(items) => JsonView::Array(items_view(items@)),
        Json::Object(members) => JsonView::Object(members_view(members@)),
    }
}

impl View for Json {
    type V = JsonView;

    open spec fn view(&self) -> JsonView {
        json_view(*self)
    }
}

/// Appending a document appends its content.
pub proof fn lemma_items_push(items: Seq<Json>, v: Json)
    ensures
        items_view(items.push(v)) == items_view(items).push(json_view(v)),
{
    assert(items.push(v).drop_last() =~= items);
}

/// Appending a member sets its key.
pub proof fn lemma_members_push(members: Seq<(String, Json)>, m: (String, Json))
    ensures
        members_view(members.push(m)) == members_view(members).insert(m.0@, json_view(m.1)),
{
    assert(members.push(m).drop_last() =~= members);
}

impl Clone for Json {
    #[verifier::loop_isolation(false)]
    fn clone(&self) -> (r: Json)
        ensures
            r@ == self@,
        decreases self,
    {
        match self {
            Json::Null => Json::Null,
            Json::Bool(b) => Json::Bool(*b),
            Json::Number(Number::PosInt(n)) => Json::Number(Number::PosInt(*n)),
            Json::Number(Number::NegInt(n)) => Json::Number(Number::NegInt(*n)),
            Json::Number(Number::Float(text)) => Json::Number(Number::Float(text.clone())),
            Json::String(s) => Json::String(s.clone()),
            Json::Array(items) => {
                let mut out: Vec<Json> = Vec::new();
                let mut i: usize = 0;
                while i < items.len()
                    invariant
                        i <= items.len(),
                        items_view(out@) == items_view(items@.take(i as int)),
                    decreases items.len() - i,
                {
                    let item = items[i].clone();
                    proof {
                        lemma_items_push(out@, item);
                        lemma_items_push(items@.take(i as int), items@[i as int]);
                        assert(items@.take(i as int + 1) =~= items@.take(i as int).push(items@[i as int]));
                    }
                    out.push(item);
                    i += 1;
                }
                assert(items@.take(i as int) =~= items@);
                Json::Array(out)
            },
            Json::Object(members) => {
                let mut out: Vec<(String, Json)> = Vec::new();
                let mut i: usize = 0;
                while i < members.len()
                    invariant
                        i <= members.len(),
                        members_view(out@) == members_view(members@.take(i as int)),
                    decreases members.len() - i,
                {
                    let key = members[i].0.clone();
                    let val = members[i].1.clone();
                    proof {
                        lemma_members_push(out@, (key, val));
                        lemma_members_push(members@.take(i as int), members@[i as int]);
                        assert(members@.take(i as int + 1) =~= members@.take(i as int).push(members@[i as int]));
                    }
                    out.push((key, val));
                    i += 1;
                }
                assert(members@.take(i as int) =~= members@);
                Json::Object(out)
            },
        }
    }
}

/// The member that a key is bound to in a list of members: the last of that
/// key.
pub fn find_member<'a>(members: &'a Vec<(String, Json)>, key: &str) -> (r: Option<&'a Json>)
    ensures
        match r {
            Some(v) => members_view(members@).contains_key(key@) && members_view(members@)[key@] == v@,
            None => !members_view(members@).contains_key(key@),
        },
{
    let mut i: usize = members.len();
    proof {
        assert(members@.take(i as int) =~= members@);
    }
    while i > 0
        invariant
            i <= members.len(),
            members_view(members@).contains_key(key@) <==> members_view(members@.take(i as int)).contains_key(key@),
            members_view(members@).contains_key(key@) ==> members_view(members@)[key@]
                == members_view(members@.take(i as int))[key@],
        decreases i,
    {
        proof {
            let s = members@.take(i as int);
            assert(s.drop_last() =~= members@.take(i as int - 1));
            assert(s.last() == members@[i as int - 1]);
            assert(members_view(s) == members_view(s.drop_last()).insert(s.last().0@, json_view(s.last().1)));
        }
        i -= 1;
        if str_eq(members[i].0.as_str(), key) {
            return Some(&members[i].1);
        }
    }
    proof {
        assert(members@.take(0).len() == 0);
    }
    None
}

impl Json {
    /// The document has no value.
    pub fn is_null(&self) -> (b: bool)
        ensures
            b == (self@ is Null),
    {
        match self {
            Json::Null => true,
            _ => false,
        }
    }

    /// The document is a string.
    pub fn is_string(&self) -> (b: bool)
        ensures
            b == (self@ is Str),
    {
        match self {
            Json::String(_) => true,
            _ => false,
        }
    }

    /// The string that the document is, if it is one.
    pub fn as_str(&self) -> (r: Option<&str>)
        ensures
            match r {
                Some(s) => self@ == JsonView::Str(s@),
                None => !(self@ is Str),
            },
    {
        match self {
            Json::String(s) => Some(s.as_str()),
            _ => None,
        }
    }

    /// The truth value that the document is, if it is one.
    pub fn as_bool(&self) -> (r: Option<bool>)
        ensures
            match r {
                Some(b) => self@ == JsonView::Bool(b),
                None => !(self@ is Bool),
            },
    {
        match self {
            Json::Bool(b) => Some(*b),
            _ => None,
        }
    }

    /// The integer that the document is, if it is one that fits `u64`.
    pub fn as_u64(&self) -> (r: Option<u64>)
        ensures
            match r {
                Some(n) => self@ == JsonView::Int(n as int),
                None => !(self@ matches JsonView::Int(n) && 0 <= n <= u64::MAX),
            },
    {
        match self {
            Json::Number(Number::PosInt(n)) => Some(*n),
            Json::Number(Number::NegInt(n)) => if *n >= 0 {
                Some(*n as u64)
            } else {
                None
            },
            _ => None,
        }
    }

    /// The items of the document, if it is an array.
    pub fn as_array(&self) -> (r: Option<&Vec<Json>>)
        ensures
            match r {
                Some(items) => self@ == JsonView::Array(items_view(items@)),
                None => !(self@ is Array),
            },
    {
        match self {
            Json::Array(items) => Some(items),
            _ => None,
        }
    }

    /// The members of the document, if it is an object.
    pub fn as_object(&self) -> (r: Option<&Vec<(String, Json)>>)
        ensures
            match r {
                Some(members) => self@ == JsonView::Object(members_view(members@)),
                None => !(self@ is Object),
            },
    {
        match self {
            Json::Object(members) => Some(members),
            _ => None,
        }
    }

    /// The member of an object that `key` is bound to. `None` where the
    /// document is no object or has no such member.
    pub fn get(&self, key: &str) -> (r: Option<&Json>)
        ensures
            match r {
                Some(v) => self@ is Object && self@->Object_0.contains_key(key@)
                    && self@->Object_0[key@] == v@,
                None => !(self@ is Object && self@->Object_0.contains_key(key@)),
            },
    {
        match self {
            Json::Object(members) => find_member(members, key),
            _ => None,
        }
    }
}

/// The items of a list of documents, one by one.
pub proof fn lemma_items_index(items: Seq<Json>, i: int)
    requires
        0 <= i < items.len(),
    ensures
        items_view(items).len() == items.len(),
        items_view(items)[i] == json_view(items[i]),
    decreases items.len(),
{
    lemma_items_len(items);
    if i < items.len() - 1 {
        lemma_items_index(items.drop_last(), i);
    }
}

/// A list of documents has as many items as documents.
pub proof fn lemma_items_len(items: Seq<Json>)
    ensures
        items_view(items).len() == items.len(),
    decreases items.len(),
{
    if items.len() > 0 {
        lemma_items_len(items.drop_last());
    }
}

/// The key of every member of a list is bound.
pub proof fn lemma_member_bound(members: Seq<(String, Json)>, i: int)
    requires
        0 <= i < members.len(),
    ensures
        members_view(members).contains_key(members[i].0@),
    decreases members.len(),
{
    if i < members.len() - 1 {
        lemma_member_bound(members.drop_last(), i);
    }
}

} // verus!
