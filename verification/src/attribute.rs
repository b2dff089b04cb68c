//! The store's self-describing encoding of a single field.

use crate::string_map::StringMap;
use vstd::prelude::*;

verus! {

/// A value as the store holds it. A number is carried as its decimal text.
#[derive(Debug)]
pub enum AttributeValue {
    Bool(bool),
    L(Vec<AttributeValue>),
    M(StringMap<AttributeValue>),
    N(String),
    Ns(Vec<String>),
    Null(bool),
    S(String),
    Ss(Vec<String>),
}

/// The characters of each string of a sequence.
pub open spec fn texts(strings: Seq<String>) -> Seq<Seq<char>> {
    Seq::new(strings.len(), |i: int| strings[i]@)
}

impl AttributeValue {
    /// The characters of a string value; `None` for every other variant.
    pub open spec fn text(self) -> Option<Seq<char>> {
        match self {
            AttributeValue::S(s) => Some(s@),
            _ => None,
        }
    }

    /// The strings of a string set; empty for every other variant.
    pub open spec fn text_set(self) -> Seq<Seq<char>> {
        match self {
            AttributeValue::Ss(ss) => texts(ss@),
            _ => Seq::empty(),
        }
    }

    /// The boolean of a `Bool`.
    pub fn as_bool(&self) -> (r: Option<bool>)
        ensures
            r == (match *self {
                AttributeValue::Bool(b) => Some(b),
                _ => None,
            }),
    {
        match self {
            AttributeValue::Bool(b) => Some(*b),
            _ => None,
        }
    }

    /// The items of a list.
    pub fn as_l(&self) -> (r: Option<&Vec<AttributeValue>>)
        ensures
            r == (match *self {
                AttributeValue::L(l) => Some(&l),
                _ => None,
            }),
    {
        match self {
            AttributeValue::L(l) => Some(l),
            _ => None,
        }
    }

    /// The entries of a map.
    pub fn as_m(&self) -> (r: Option<&StringMap<AttributeValue>>)
        ensures
            r == (match *self {
                AttributeValue::M(m) => Some(&m),
                _ => None,
            }),
    {
        match self {
            AttributeValue::M(m) => Some(m),
            _ => None,
        }
    }

    /// The flag of a `Null`.
    pub fn as_null(&self) -> (r: Option<bool>)
        ensures
            r == (match *self {
                AttributeValue::Null(null) => Some(null),
                _ => None,
            }),
    {
        match self {
            AttributeValue::Null(null) => Some(*null),
            _ => None,
        }
    }

    /// The text of a string.
    pub fn as_s(&self) -> (r: Option<&str>)
        ensures
            match r {
                Some(s) => self.text() == Some(s@),
                None => self.text() is None,
            },
    {
        match self {
            AttributeValue::S(s) => Some(s.as_str()),
            _ => None,
        }
    }

    /// The strings of a string set, copied; empty for every other variant.
    pub fn as_ss(&self) -> (r: Vec<String>)
        ensures
            texts(r@) == self.text_set(),
    {
        let mut out: Vec<String> = Vec::new();
        match self {
            AttributeValue::Ss(ss) => {
                let mut i: usize = 0;
                while i < ss.len()
                    invariant
                        i <= ss.len(),
                        out@.len() == i,
                        forall|j: int| 0 <= j < i ==> (#[trigger] out@[j])@ == ss@[j]@,
                    decreases ss.len() - i,
                {
                    out.push(ss[i].clone());
                    i += 1;
                }
                proof {
                    assert(texts(out@) =~= texts(ss@));
                }
            },
            _ => {
                proof {
                    assert(texts(out@) =~= Seq::empty());
                }
            },
        }
        out
    }
}

} // verus!
