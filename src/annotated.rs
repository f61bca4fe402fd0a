//! The node tree shared by the bare and the annotated shapes of a YAML document.
pub mod marked_yaml;

pub use marked_yaml::{AnnotatedMap, MarkedYaml};

use vstd::prelude::*;

verus! {

/// A YAML tag: its handle (`!` included) and its suffix.
#[derive(Clone, Debug, PartialEq, Eq, PartialOrd, Ord, Hash)]
pub struct Tag {
    /// Handle of the tag.
    pub handle: String,
    /// Suffix of the tag.
    pub suffix: String,
}

/// The view of a tag: its handle and its suffix as text.
pub type TagView = (Seq<char>, Seq<char>);

/// What an optional tag holds, as text.
pub open spec fn tag_view(t: Option<Tag>) -> Option<TagView> {
    match t {
        Some(t) => Some((t.handle@, t.suffix@)),
        None => None,
    }
}

/// What a YAML node holds; the children of a container are annotated nodes.
#[derive(Clone, Debug, PartialEq, Eq, Hash)]
pub enum YamlData {
    /// A floating point scalar, kept as its text and parsed on demand.
    Real {
        /// The text of the scalar.
        value: String,
        /// The tag of the node.
        tag: Option<Tag>,
    },
    /// An integer scalar.
    Integer {
        /// The value of the node.
        value: i64,
        /// The tag of the node.
        tag: Option<Tag>,
    },
    /// A string scalar.
    String {
        /// The value of the node.
        value: String,
        /// The tag of the node.
        tag: Option<Tag>,
    },
    /// A boolean scalar.
    Bool {
        /// The value of the node.
        value: bool,
        /// The tag of the node.
        tag: Option<Tag>,
    },
    /// An ordered sequence of nodes.
    Sequence {
        /// The elements, in order.
        value: Vec<MarkedYaml>,
        /// The tag of the node.
        tag: Option<Tag>,
    },
    /// A mapping that keeps the order in which its keys were inserted.
    Mapping {
        /// The entries.
        value: AnnotatedMap,
        /// The tag of the node.
        tag: Option<Tag>,
    },
    /// An unresolved reference to an anchor.
    Alias(usize),
    /// The null scalar.
    Null,
    /// No such value, or a value of the wrong shape.
    BadValue,
}

impl YamlData {
    /// The tag of the node, if its variant carries one and it is set.
    pub open spec fn spec_tag(&self) -> Option<Tag> {
        match self {
            YamlData::Real { tag, .. } => *tag,
            YamlData::Integer { tag, .. } => *tag,
            YamlData::String { tag, .. } => *tag,
            YamlData::Bool { tag, .. } => *tag,
            YamlData::Sequence { tag, .. } => *tag,
            YamlData::Mapping { tag, .. } => *tag,
            _ => None,
        }
    }

    /// Whether the node is `Null` or `BadValue`, the two values that `or` replaces.
    pub open spec fn is_absent(&self) -> bool {
        self is Null || self is BadValue
    }

    /// The boolean value, if the node is a `Bool`.
    pub fn as_bool(&self) -> (r: Option<bool>)
        ensures
            r == (match self {
                YamlData::Bool { value, .. } => Some(*value),
                _ => None,
            }),
    {
        match self {
            YamlData::Bool { value, .. } => Some(*value),
            _ => None,
        }
    }

    /// The integer value, if the node is an `Integer`.
    pub fn as_i64(&self) -> (r: Option<i64>)
        ensures
            r == (match self {
                YamlData::Integer { value, .. } => Some(*value),
                _ => None,
            }),
    {
        match self {
            YamlData::Integer { value, .. } => Some(*value),
            _ => None,
        }
    }

    /// The text, if the node is a `String`.
    pub fn as_str(&self) -> (r: Option<&str>)
        ensures
            match self {
                YamlData::String { value, .. } => r is Some && r->0@ == value@,
                _ => r is None,
            },
    {
        match self {
            YamlData::String { value, .. } => Some(value.as_str()),
            _ => None,
        }
    }

    /// The mapping, if the node is a `Mapping`.
    pub fn as_map(&self) -> (r: Option<&AnnotatedMap>)
        ensures
            match self {
                YamlData::Mapping { value, .. } => r == Some(value),
                _ => r is None,
            },
    {
        match self {
            YamlData::Mapping { value, .. } => Some(value),
            _ => None,
        }
    }

    /// The elements, if the node is a `Sequence`.
    pub fn as_sequence(&self) -> (r: Option<&Vec<MarkedYaml>>)
        ensures
            match self {
                YamlData::Sequence { value, .. } => r == Some(value),
                _ => r is None,
            },
    {
        match self {
            YamlData::Sequence { value, .. } => Some(value),
            _ => None,
        }
    }

    /// The boolean value, if the node is a `Bool`.
    pub fn into_bool(self) -> (r: Option<bool>)
        ensures
            r == (match self {
                YamlData::Bool { value, .. } => Some(value),
                _ => None,
            }),
    {
        match self {
            YamlData::Bool { value, .. } => Some(value),
            _ => None,
        }
    }

    /// The integer value, if the node is an `Integer`.
    pub fn into_i64(self) -> (r: Option<i64>)
        ensures
            r == (match self {
                YamlData::Integer { value, .. } => Some(value),
                _ => None,
            }),
    {
        match self {
            YamlData::Integer { value, .. } => Some(value),
            _ => None,
        }
    }

    /// The text, if the node is a `String`.
    pub fn into_string(self) -> (r: Option<String>)
        ensures
            r == (match self {
                YamlData::String { value, .. } => Some(value),
                _ => None,
            }),
    {
        match self {
            YamlData::String { value, .. } => Some(value),
            _ => None,
        }
    }

    /// The mapping, if the node is a `Mapping`.
    pub fn into_map(self) -> (r: Option<AnnotatedMap>)
        ensures
            r == (match self {
                YamlData::Mapping { value, .. } => Some(value),
                _ => None,
            }),
    {
        match self {
            YamlData::Mapping { value, .. } => Some(value),
            _ => None,
        }
    }

    /// The elements, if the node is a `Sequence`.
    pub fn into_sequence(self) -> (r: Option<Vec<MarkedYaml>>)
        ensures
            r == (match self {
                YamlData::Sequence { value, .. } => Some(value),
                _ => None,
            }),
    {
        match self {
            YamlData::Sequence { value, .. } => Some(value),
            _ => None,
        }
    }

    /// Whether the node is an `Alias`.
    pub fn is_alias(&self) -> (r: bool)
        ensures
            r == self is Alias,
    {
        matches!(self, YamlData::Alias(_))
    }

    /// Whether the node is a `Sequence`.
    pub fn is_sequence(&self) -> (r: bool)
        ensures
            r == self is Sequence,
    {
        matches!(self, YamlData::Sequence { .. })
    }

    /// Whether the node is `BadValue`.
    pub fn is_badvalue(&self) -> (r: bool)
        ensures
            r == self is BadValue,
    {
        matches!(self, YamlData::BadValue)
    }

    /// Whether the node is a `Bool`.
    pub fn is_boolean(&self) -> (r: bool)
        ensures
            r == self is Bool,
    {
        matches!(self, YamlData::Bool { .. })
    }

    /// Whether the node is a `Mapping`.
    pub fn is_map(&self) -> (r: bool)
        ensures
            r == self is Mapping,
    {
        matches!(self, YamlData::Mapping { .. })
    }

    /// Whether the node is an `Integer`.
    pub fn is_integer(&self) -> (r: bool)
        ensures
            r == self is Integer,
    {
        matches!(self, YamlData::Integer { .. })
    }

    /// Whether the node is `Null`.
    pub fn is_null(&self) -> (r: bool)
        ensures
            r == self is Null,
    {
        matches!(self, YamlData::Null)
    }

    /// Whether the node is a `Real`.
    pub fn is_real(&self) -> (r: bool)
        ensures
            r == self is Real,
    {
        matches!(self, YamlData::Real { .. })
    }

    /// Whether the node is a `String`.
    pub fn is_string(&self) -> (r: bool)
        ensures
            r == self is String,
    {
        matches!(self, YamlData::String { .. })
    }

    /// The tag of the node; `Alias`, `Null` and `BadValue` never carry one.
    pub fn get_tag(&self) -> (r: Option<&Tag>)
        ensures
            match r {
                Some(t) => self.spec_tag() == Some(*t),
                None => self.spec_tag() is None,
            },
    {
        match self {
            YamlData::Real { tag, .. } => tag.as_ref(),
            YamlData::Integer { tag, .. } => tag.as_ref(),
            YamlData::String { tag, .. } => tag.as_ref(),
            YamlData::Bool { tag, .. } => tag.as_ref(),
            YamlData::Sequence { tag, .. } => tag.as_ref(),
            YamlData::Mapping { tag, .. } => tag.as_ref(),
            _ => None,
        }
    }

    /// `other` where `self` is `Null` or `BadValue`, else `self` unchanged.
    pub fn or(self, other: Self) -> (r: Self)
        ensures
            r == (if self.is_absent() { other } else { self }),
    {
        match self {
            YamlData::BadValue | YamlData::Null => other,
            this => this,
        }
    }

    /// `or` on borrowed values.
    pub fn borrowed_or<'a>(&'a self, other: &'a Self) -> (r: &'a Self)
        ensures
            *r == (if self.is_absent() { *other } else { *self }),
    {
        match self {
            YamlData::BadValue | YamlData::Null => other,
            this => this,
        }
    }

    /// An iterator over the elements of a `Sequence`; over nothing for any other node.
    pub fn into_iter(self) -> (r: AnnotatedYamlIter)
        ensures
            r.remaining() == (match self {
                YamlData::Sequence { value, .. } => value@,
                _ => Seq::<MarkedYaml>::empty(),
            }),
    {
        let items = match self {
            YamlData::Sequence { value, .. } => value,
            _ => Vec::new(),
        };
        AnnotatedYamlIter::from_vec(items)
    }
}

/// An iterator over the elements of a sequence node.
pub struct AnnotatedYamlIter {
    /// The elements not handed out yet, last first.
    reversed: Vec<MarkedYaml>,
}

impl AnnotatedYamlIter {
    /// The elements not handed out yet, in order.
    pub closed spec fn remaining(self) -> Seq<MarkedYaml> {
        self.reversed@.reverse()
    }

    fn from_vec(items: Vec<MarkedYaml>) -> (r: Self)
        ensures
            r.remaining() == items@,
    {
        let mut items = items;
        let ghost orig = items@;
        let mut reversed: Vec<MarkedYaml> = Vec::new();
        while items.len() > 0
            invariant
                orig == items@ + reversed@.reverse(),
            decreases items.len(),
        {
            let x = items.pop().unwrap();
            proof {
                assert(reversed@.push(x).reverse() =~= seq![x] + reversed@.reverse()) by {
                    assert forall|k: int| 0 <= k < reversed@.len() + 1 implies
                        #[trigger] reversed@.push(x).reverse()[k] == (seq![x] + reversed@.reverse())[k] by {}
                }
                assert(orig =~= items@ + (seq![x] + reversed@.reverse()));
            }
            reversed.push(x);
        }
        assert(orig =~= reversed@.reverse());
        AnnotatedYamlIter { reversed }
    }

    /// The next element, if any is left.
    pub fn next(&mut self) -> (r: Option<MarkedYaml>)
        ensures
            old(self).remaining().len() == 0 ==> r is None && final(self).remaining() == old(self).remaining(),
            old(self).remaining().len() > 0 ==> r == Some(old(self).remaining()[0])
                && final(self).remaining() == old(self).remaining().drop_first(),
    {
        let r = self.reversed.pop();
        proof {
            if old(self).reversed@.len() > 0 {
                assert(self.reversed@.reverse() =~= old(self).reversed@.reverse().drop_first());
            }
        }
        r
    }
}

} // verus!
