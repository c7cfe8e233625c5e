//! A parsed JSON or YAML document as a tree of plain values.
use vstd::prelude::*;
use crate::text::same_text;

verus! {

/// One value of a document.
#[derive(Debug, PartialEq, Eq)]
pub enum Node {
    Null,
    Bool(bool),
    /// An integer that is not negative.
    PosInt(u64),
    /// A negative integer.
    NegInt(i64),
    /// A number that is no integer, as the document's library writes it.
    Real(String),
    Text(String),
    List(Vec<Node>),
    /// The entries of a mapping, in the order of the document.
    Table(Vec<(Node, Node)>),
    /// A value under a YAML tag.
    Tagged(String, Box<Node>),
}

impl Node {
    /// The value under all its tags.
    pub open spec fn untag(self) -> Node
        decreases self,
    {
        match self {
            Node::Tagged(_, inner) => inner.untag(),
            _ => self,
        }
    }

    /// The value as text, where it is one.
    pub open spec fn text(self) -> Option<Seq<char>> {
        match self.untag() {
            Node::Text(s) => Some(s@),
            _ => None,
        }
    }

    /// The value as a signed integer, where it is an integer that fits.
    pub open spec fn signed(self) -> Option<i64> {
        match self.untag() {
            Node::PosInt(n) => if n <= i64::MAX as u64 {
                Some(n as i64)
            } else {
                None
            },
            Node::NegInt(n) => Some(n),
            _ => None,
        }
    }

    /// The value as an unsigned integer, where it is one.
    pub open spec fn unsigned(self) -> Option<u64> {
        match self.untag() {
            Node::PosInt(n) => Some(n),
            _ => None,
        }
    }

    /// The value as a boolean, where it is one.
    pub open spec fn boolean(self) -> Option<bool> {
        match self.untag() {
            Node::Bool(b) => Some(b),
            _ => None,
        }
    }

    /// The entries of the value, where it is a mapping.
    pub open spec fn entries(self) -> Option<Seq<(Node, Node)>> {
        match self.untag() {
            Node::Table(m) => Some(m@),
            _ => None,
        }
    }

    /// The items of the value, where it is a sequence.
    pub open spec fn items(self) -> Option<Seq<Node>> {
        match self.untag() {
            Node::List(xs) => Some(xs@),
            _ => None,
        }
    }

    /// The value under all its tags.
    pub fn untagged(&self) -> (r: &Node)
        ensures
            *r == self.untag(),
        decreases self,
    {
        match self {
            Node::Tagged(_, inner) => inner.untagged(),
            _ => self,
        }
    }

    /// The value as text, where it is one.
    pub fn as_str(&self) -> (r: Option<&String>)
        ensures
            match r {
                Some(s) => self.text() == Some(s@),
                None => self.text() is None,
            },
    {
        match self.untagged() {
            Node::Text(s) => Some(s),
            _ => None,
        }
    }

    /// The value as a signed integer, where it is an integer that fits.
    pub fn as_i64(&self) -> (r: Option<i64>)
        ensures
            r == self.signed(),
    {
        match self.untagged() {
            Node::PosInt(n) => {
                if *n <= i64::MAX as u64 {
                    Some(*n as i64)
                } else {
                    None
                }
            },
            Node::NegInt(n) => Some(*n),
            _ => None,
        }
    }

    /// The value as an unsigned integer, where it is one.
    pub fn as_u64(&self) -> (r: Option<u64>)
        ensures
            r == self.unsigned(),
    {
        match self.untagged() {
            Node::PosInt(n) => Some(*n),
            _ => None,
        }
    }

    /// The value as a boolean, where it is one.
    pub fn as_bool(&self) -> (r: Option<bool>)
        ensures
            r == self.boolean(),
    {
        match self.untagged() {
            Node::Bool(b) => Some(*b),
            _ => None,
        }
    }

    /// The entries of the value, where it is a mapping.
    pub fn as_mapping(&self) -> (r: Option<&Vec<(Node, Node)>>)
        ensures
            match r {
                Some(m) => self.entries() == Some(m@),
                None => self.entries() is None,
            },
    {
        match self.untagged() {
            Node::Table(m) => Some(m),
            _ => None,
        }
    }

    /// The items of the value, where it is a sequence.
    pub fn as_sequence(&self) -> (r: Option<&Vec<Node>>)
        ensures
            match r {
                Some(xs) => self.items() == Some(xs@),
                None => self.items() is None,
            },
    {
        match self.untagged() {
            Node::List(xs) => Some(xs),
            _ => None,
        }
    }
}

impl Node {
    /// Whether two nodes hold the same document: the same values in the
    /// same places.
    pub open spec fn same_as(self, other: Node) -> bool
        decreases self,
    {
        match (self, other) {
            (Node::Null, Node::Null) => true,
            (Node::Bool(a), Node::Bool(b)) => a == b,
            (Node::PosInt(a), Node::PosInt(b)) => a == b,
            (Node::NegInt(a), Node::NegInt(b)) => a == b,
            (Node::Real(a), Node::Real(b)) => a@ == b@,
            (Node::Text(a), Node::Text(b)) => a@ == b@,
            (Node::List(xs), Node::List(ys)) => xs.len() == ys.len() && forall|i: int|
                0 <= i < xs.len() ==> (#[trigger] xs[i]).same_as(ys[i]),
            (Node::Table(m), Node::Table(k)) => m.len() == k.len() && forall|i: int|
                0 <= i < m.len() ==> (#[trigger] m[i]).0.same_as(k[i].0) && m[i].1.same_as(k[i].1),
            (Node::Tagged(t, a), Node::Tagged(u, b)) => t@ == u@ && a.same_as(*b),
            _ => false,
        }
    }
}

impl Clone for Node {
    #[verifier::loop_isolation(false)]
    fn clone(&self) -> (r: Node)
        ensures
            self.same_as(r),
        decreases self,
    {
        match self {
            Node::Null => Node::Null,
            Node::Bool(b) => Node::Bool(*b),
            Node::PosInt(n) => Node::PosInt(*n),
            Node::NegInt(n) => Node::NegInt(*n),
            Node::Real(s) => Node::Real(s.clone()),
            Node::Text(s) => Node::Text(s.clone()),
            Node::List(xs) => {
                let mut out: Vec<Node> = Vec::new();
                let mut i: usize = 0;
                while i < xs.len()
                    invariant
                        i <= xs.len(),
                        *self == Node::List(*xs),
                        out.len() == i,
                        forall|k: int| 0 <= k < i ==> (#[trigger] xs[k]).same_as(out[k]),
                    decreases xs.len() - i,
                {
                    assert(decreases_to!(*xs => xs[i as int]));
                    out.push(xs[i].clone());
                    i += 1;
                }
                Node::List(out)
            },
            Node::Table(m) => {
                let mut out: Vec<(Node, Node)> = Vec::new();
                let mut i: usize = 0;
                while i < m.len()
                    invariant
                        i <= m.len(),
                        *self == Node::Table(*m),
                        out.len() == i,
                        forall|k: int|
                            0 <= k < i ==> (#[trigger] m[k]).0.same_as(out[k].0) && m[k].1.same_as(
                                out[k].1,
                            ),
                    decreases m.len() - i,
                {
                    assert(decreases_to!(*m => m[i as int]));
                    out.push((m[i].0.clone(), m[i].1.clone()));
                    i += 1;
                }
                Node::Table(out)
            },
            Node::Tagged(tag, inner) => Node::Tagged(tag.clone(), Box::new((&**inner).clone())),
        }
    }
}

/// The value of the first entry whose key is the text `key`.
pub open spec fn lookup(entries: Seq<(Node, Node)>, key: Seq<char>) -> Option<Node>
    decreases entries.len(),
{
    if entries.len() == 0 {
        None
    } else if entries[0].0.text() == Some(key) {
        Some(entries[0].1)
    } else {
        lookup(entries.drop_first(), key)
    }
}

/// The value under `key` in a node that is a mapping.
pub open spec fn field(node: Option<Node>, key: Seq<char>) -> Option<Node> {
    match node {
        Some(n) => match n.entries() {
            Some(m) => lookup(m, key),
            None => None,
        },
        None => None,
    }
}

/// A reference as the value it points at.
pub open spec fn pointee(r: Option<&Node>) -> Option<Node> {
    match r {
        Some(n) => Some(*n),
        None => None,
    }
}

/// The value of the first entry whose key is the text `key`.
pub fn y_map_get<'a>(m: &'a Vec<(Node, Node)>, key: &str) -> (r: Option<&'a Node>)
    ensures
        pointee(r) == lookup(m@, key@),
{
    let mut i: usize = 0;
    assert(m@.skip(0) =~= m@);
    while i < m.len()
        invariant
            i <= m.len(),
            lookup(m@, key@) == lookup(m@.skip(i as int), key@),
        decreases m.len() - i,
    {
        let ghost rest = m@.skip(i as int);
        assert(rest[0] == m@[i as int]);
        assert(rest.drop_first() =~= m@.skip(i + 1));
        if let Some(k) = m[i].0.as_str() {
            if same_text(k.as_str(), key) {
                return Some(&m[i].1);
            }
        }
        i += 1;
    }
    None
}

/// The value under `key` where `node` is a mapping that has one.
pub fn get_field<'a>(node: Option<&'a Node>, key: &str) -> (r: Option<&'a Node>)
    ensures
        pointee(r) == field(pointee(node), key@),
{
    match node {
        Some(n) => match n.as_mapping() {
            Some(m) => y_map_get(m, key),
            None => None,
        },
        None => None,
    }
}

} // verus!
