//! The document tree as held in memory, and the operations that read it and
//! build it.

use crate::model::{has_key, index_of, lemma_absent, lemma_first_is_index, put, Json};
use vstd::prelude::*;

verus! {

/// A document value: a tagged union of null, booleans, numbers, text,
/// arrays and objects.
#[derive(Debug, PartialEq, Eq)]
pub enum Node {
    Null,
    Bool(bool),
    /// A number, kept as the text of its literal.
    Number(String),
    Text(String),
    Array(Vec<Node>),
    /// The members in document order.
    Object(Vec<(String, Node)>),
}

/// The model of a list of values.
pub open spec fn items_view(items: Seq<Node>) -> Seq<Json>
    decreases items,
{
    Seq::new(
        items.len(),
        |i: int|
            if 0 <= i < items.len() {
                items[i].view()
            } else {
                Json::Null
            },
    )
}

/// The model of a list of members.
pub open spec fn members_view(members: Seq<(String, Node)>) -> Seq<(Seq<char>, Json)>
    decreases members,
{
    Seq::new(
        members.len(),
        |i: int|
            if 0 <= i < members.len() {
                (members[i].0@, members[i].1.view())
            } else {
                (Seq::empty(), Json::Null)
            },
    )
}

impl View for Node {
    type V = Json;

    open spec fn view(&self) -> Json
        decreases self,
    {
        match self {
            Node::Null => Json::Null,
            Node::Bool(b) => Json::Bool(*b),
            Node::Number(n) => Json::Number(n@),
            Node::Text(s) => Json::Text(s@),
            Node::Array(items) => Json::Array(items_view(items@)),
            Node::Object(members) => Json::Object(members_view(members@)),
        }
    }
}

/// The position of the first member with the given key.
pub fn find_member(members: &Vec<(String, Node)>, key: &str) -> (r: Option<usize>)
    ensures
        match r {
            Some(i) => i < members.len() && i == index_of(members_view(members@), key@),
            None => !has_key(members_view(members@), key@),
        },
{
    let ghost model = members_view(members@);
    let wanted = key.to_owned();
    let mut i: usize = 0;
    while i < members.len()
        invariant
            i <= members.len(),
            wanted@ == key@,
            model == members_view(members@),
            forall|j: int| 0 <= j < i ==> (#[trigger] model[j]).0 != key@,
        decreases members.len() - i,
    {
        if members[i].0 == wanted {
            proof {
                lemma_first_is_index(model, key@, i as int);
            }
            return Some(i);
        }
        i += 1;
    }
    proof {
        lemma_absent(model, key@);
    }
    None
}

/// Gives `key` the value `value`: replaces the first member with that key
/// where it stands, or adds a member at the end.
pub fn put_member(members: &mut Vec<(String, Node)>, key: String, value: Node)
    ensures
        members_view(final(members)@) == put(members_view(old(members)@), key@, value@),
{
    let found = find_member(members, key.as_str());
    match found {
        Some(i) => {
            members.set(i, (key, value));
        },
        None => {
            members.push((key, value));
        },
    }
    assert(members_view(members@) =~= put(members_view(old(members)@), key@, value@));
}

/// A copy of a list of members.
pub fn copy_members(members: &Vec<(String, Node)>) -> (r: Vec<(String, Node)>)
    ensures
        members_view(r@) == members_view(members@),
{
    let mut out: Vec<(String, Node)> = Vec::new();
    let mut i: usize = 0;
    while i < members.len()
        invariant
            i <= members.len(),
            out@.len() == i,
            forall|j: int|
                0 <= j < i ==> (#[trigger] out@[j]).0@ == members@[j].0@ && out@[j].1@
                    == members@[j].1@,
        decreases members.len() - i,
    {
        let key = members[i].0.clone();
        let value = members[i].1.deep_copy();
        out.push((key, value));
        i += 1;
    }
    assert(members_view(out@) =~= members_view(members@));
    out
}

/// A copy of a list of values.
pub fn copy_items(items: &Vec<Node>) -> (r: Vec<Node>)
    ensures
        items_view(r@) == items_view(items@),
{
    let mut out: Vec<Node> = Vec::new();
    let mut i: usize = 0;
    while i < items.len()
        invariant
            i <= items.len(),
            out@.len() == i,
            forall|j: int| 0 <= j < i ==> (#[trigger] out@[j])@ == items@[j]@,
        decreases items.len() - i,
    {
        let item = items[i].deep_copy();
        out.push(item);
        i += 1;
    }
    assert(items_view(out@) =~= items_view(items@));
    out
}

impl Node {
    /// Every object in the tree has distinct keys.
    pub open spec fn wf(&self) -> bool {
        self@.wf()
    }

    /// A text value that holds the given characters.
    pub fn text(s: &str) -> (r: Node)
        ensures
            r@ == Json::Text(s@),
    {
        Node::Text(s.to_owned())
    }

    /// An object without members.
    pub fn empty_object() -> (r: Node)
        ensures
            r@ == Json::Object(Seq::empty()),
    {
        let r = Node::Object(Vec::new());
        assert(members_view(Seq::<(String, Node)>::empty()) =~= Seq::empty());
        r
    }

    /// An array without items.
    pub fn empty_array() -> (r: Node)
        ensures
            r@ == Json::Array(Seq::empty()),
    {
        let r = Node::Array(Vec::new());
        assert(items_view(Seq::<Node>::empty()) =~= Seq::empty());
        r
    }

    pub fn is_null(&self) -> (r: bool)
        ensures
            r == (self@ is Null),
    {
        match self {
            Node::Null => true,
            _ => false,
        }
    }

    pub fn is_object(&self) -> (r: bool)
        ensures
            r == (self@ is Object),
    {
        match self {
            Node::Object(_) => true,
            _ => false,
        }
    }

    /// The members, if this is an object.
    pub fn as_object(&self) -> (r: Option<&Vec<(String, Node)>>)
        ensures
            match r {
                Some(members) => self@ == Json::Object(members_view(members@)),
                None => !(self@ is Object),
            },
    {
        match self {
            Node::Object(members) => Some(members),
            _ => None,
        }
    }

    /// The items, if this is an array.
    pub fn as_array(&self) -> (r: Option<&Vec<Node>>)
        ensures
            match r {
                Some(items) => self@ == Json::Array(items_view(items@)),
                None => !(self@ is Array),
            },
    {
        match self {
            Node::Array(items) => Some(items),
            _ => None,
        }
    }

    /// The characters, if this is a text value.
    pub fn as_str(&self) -> (r: Option<&str>)
        ensures
            match r {
                Some(s) => self@ == Json::Text(s@),
                None => !(self@ is Text),
            },
    {
        match self {
            Node::Text(s) => Some(s.as_str()),
            _ => None,
        }
    }

    /// The value under `key`, if this is an object that has the key.
    pub fn get(&self, key: &str) -> (r: Option<&Node>)
        ensures
            match r {
                Some(v) => self@.get(key@) == Some(v@),
                None => self@.get(key@) is None,
            },
    {
        match self {
            Node::Object(members) => {
                match find_member(members, key) {
                    Some(i) => Some(&members[i].1),
                    None => None,
                }
            },
            _ => None,
        }
    }

    /// Whether this is an object that has the key.
    pub fn contains_key(&self, key: &str) -> (r: bool)
        ensures
            r == (self@.get(key@) is Some),
    {
        self.get(key).is_some()
    }

    /// A copy of the whole tree.
    pub fn deep_copy(&self) -> (r: Node)
        ensures
            r@ == self@,
        decreases self,
    {
        match self {
            Node::Null => Node::Null,
            Node::Bool(b) => Node::Bool(*b),
            Node::Number(n) => Node::Number(n.clone()),
            Node::Text(s) => Node::Text(s.clone()),
            Node::Array(items) => {
                let mut out: Vec<Node> = Vec::new();
                let mut i: usize = 0;
                while i < items.len()
                    invariant
                        i <= items.len(),
                        out@.len() == i,
                        self is Array,
                        self->Array_0 == *items,
                        forall|j: int| 0 <= j < i ==> (#[trigger] out@[j])@ == items@[j]@,
                    decreases items.len() - i,
                {
                    assert(decreases_to!(*items => items[i as int]));
                    let item = items[i].deep_copy();
                    out.push(item);
                    i += 1;
                }
                assert(items_view(out@) =~= items_view(items@));
                Node::Array(out)
            },
            Node::Object(members) => {
                let mut out: Vec<(String, Node)> = Vec::new();
                let mut i: usize = 0;
                while i < members.len()
                    invariant
                        i <= members.len(),
                        out@.len() == i,
                        self is Object,
                        self->Object_0 == *members,
                        forall|j: int|
                            0 <= j < i ==> (#[trigger] out@[j]).0@ == members@[j].0@ && out@[j].1@
                                == members@[j].1@,
                    decreases members.len() - i,
                {
                    assert(decreases_to!(*members => members[i as int]));
                    let key = members[i].0.clone();
                    let value = members[i].1.deep_copy();
                    out.push((key, value));
                    i += 1;
                }
                assert(members_view(out@) =~= members_view(members@));
                Node::Object(out)
            },
        }
    }
}

impl Clone for Node {
    /// A copy of the whole tree.
    fn clone(&self) -> (r: Self)
        ensures
            r@ == self@,
    {
        self.deep_copy()
    }
}

} // verus!
