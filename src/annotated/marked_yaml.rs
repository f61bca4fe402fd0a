//! A YAML node with its position in the source text.
use vstd::prelude::*;
use vstd::std_specs::cmp::PartialEqSpec;
use vstd::string::*;

use super::{tag_view, Tag, TagView, YamlData};

verus! {

/// A location in the source text.
#[derive(Clone, Copy, Debug, PartialEq, Eq, Structural, Hash)]
pub struct Marker {
    /// The index, in bytes, in the input.
    pub index: usize,
    /// The line.
    pub line: usize,
    /// The column.
    pub col: usize,
}

/// A range of locations in the source text.
#[derive(Clone, Copy, Debug, PartialEq, Eq, Structural, Hash)]
pub struct Span {
    /// The start of the range, included.
    pub start: Marker,
    /// The end of the range, excluded.
    pub end: Marker,
}

/// The span that nodes carry before their position is known.
pub open spec fn zero_span() -> Span {
    Span {
        start: Marker { index: 0, line: 0, col: 0 },
        end: Marker { index: 0, line: 0, col: 0 },
    }
}

impl Span {
    /// The span of a node whose position is not known.
    pub fn zero() -> (r: Span)
        ensures
            r == zero_span(),
    {
        Span {
            start: Marker { index: 0, line: 0, col: 0 },
            end: Marker { index: 0, line: 0, col: 0 },
        }
    }
}

/// What a node holds, with every position left out: the value that equality compares.
pub enum YamlValue {
    /// The text of a floating point scalar and its tag.
    Real { value: Seq<char>, tag: Option<TagView> },
    /// An integer and its tag.
    Integer { value: i64, tag: Option<TagView> },
    /// A string and its tag.
    String { value: Seq<char>, tag: Option<TagView> },
    /// A boolean and its tag.
    Bool { value: bool, tag: Option<TagView> },
    /// The values of the elements, in order, and the tag.
    Sequence { value: Seq<YamlValue>, tag: Option<TagView> },
    /// The values of the entries, in insertion order, and the tag.
    Mapping { value: Seq<(YamlValue, YamlValue)>, tag: Option<TagView> },
    /// An anchor reference.
    Alias(usize),
    /// Null.
    Null,
    /// No such value.
    BadValue,
}

/// A YAML node with the span of the source text it was read from.
#[derive(Debug)]
pub struct MarkedYaml {
    /// Where in the input the node is.
    pub span: Span,
    /// What the node holds.
    pub data: YamlData,
}

/// The value of a node, positions left out.
pub closed spec fn node_value(n: MarkedYaml) -> YamlValue
    decreases n,
{
    match n.data {
        YamlData::Real { value, tag } => YamlValue::Real { value: value@, tag: tag_view(tag) },
        YamlData::Integer { value, tag } => YamlValue::Integer { value, tag: tag_view(tag) },
        YamlData::String { value, tag } => YamlValue::String { value: value@, tag: tag_view(tag) },
        YamlData::Bool { value, tag } => YamlValue::Bool { value, tag: tag_view(tag) },
        YamlData::Sequence { value, tag } => YamlValue::Sequence {
            value: Seq::new(
                value@.len(),
                |i: int|
                    if 0 <= i < value@.len() {
                        node_value(value@[i])
                    } else {
                        YamlValue::Null
                    },
            ),
            tag: tag_view(tag),
        },
        YamlData::Mapping { value, tag } => YamlValue::Mapping {
            value: Seq::new(
                value.entries@.len(),
                |i: int|
                    if 0 <= i < value.entries@.len() {
                        (node_value(value.entries@[i].0), node_value(value.entries@[i].1))
                    } else {
                        (YamlValue::Null, YamlValue::Null)
                    },
            ),
            tag: tag_view(tag),
        },
        YamlData::Alias(x) => YamlValue::Alias(x),
        YamlData::Null => YamlValue::Null,
        YamlData::BadValue => YamlValue::BadValue,
    }
}

/// Whether two optional tags hold the same handle and suffix.
fn tag_eq(a: &Option<Tag>, b: &Option<Tag>) -> (r: bool)
    ensures
        r == (tag_view(*a) == tag_view(*b)),
{
    match (a, b) {
        (Some(x), Some(y)) => x.handle == y.handle && x.suffix == y.suffix,
        (None, None) => true,
        _ => false,
    }
}

/// Whether two nodes hold the same value, whatever their spans.
pub fn yaml_eq(a: &MarkedYaml, b: &MarkedYaml) -> (r: bool)
    ensures
        r == (node_value(*a) == node_value(*b)),
    decreases *a,
{
    match (&a.data, &b.data) {
        (YamlData::Real { value: x, tag: s }, YamlData::Real { value: y, tag: t }) => *x == *y
            && tag_eq(s, t),
        (YamlData::Integer { value: x, tag: s }, YamlData::Integer { value: y, tag: t }) => *x
            == *y && tag_eq(s, t),
        (YamlData::String { value: x, tag: s }, YamlData::String { value: y, tag: t }) => *x
            == *y && tag_eq(s, t),
        (YamlData::Bool { value: x, tag: s }, YamlData::Bool { value: y, tag: t }) => *x == *y
            && tag_eq(s, t),
        (YamlData::Sequence { value: x, tag: s }, YamlData::Sequence { value: y, tag: t }) => {
            let ghost vx = node_value(*a)->Sequence_value;
            let ghost vy = node_value(*b)->Sequence_value;
            if !tag_eq(s, t) || x.len() != y.len() {
                assert(node_value(*a)->Sequence_tag != node_value(*b)->Sequence_tag || vx.len()
                    != vy.len());
                return false;
            }
            let mut i: usize = 0;
            while i < x.len()
                invariant
                    0 <= i <= x@.len(),
                    x@.len() == y@.len(),
                    vx.len() == x@.len(),
                    vy.len() == y@.len(),
                    forall|j: int| 0 <= j < i ==> vx[j] == vy[j],
                    a.data == (YamlData::Sequence { value: *x, tag: *s }),
                    b.data == (YamlData::Sequence { value: *y, tag: *t }),
                    vx == node_value(*a)->Sequence_value,
                    vy == node_value(*b)->Sequence_value,
                decreases x@.len() - i,
            {
                proof {
                    assert(decreases_to!(*a => a.data));
                    assert(decreases_to!(*a => x@[i as int]));
                }
                if !yaml_eq(&x[i], &y[i]) {
                    assert(vx[i as int] != vy[i as int]);
                    return false;
                }
                i += 1;
            }
            assert(vx =~= vy);
            true
        },
        (YamlData::Mapping { value: x, tag: s }, YamlData::Mapping { value: y, tag: t }) => {
            let ghost vx = node_value(*a)->Mapping_value;
            let ghost vy = node_value(*b)->Mapping_value;
            if !tag_eq(s, t) || x.entries.len() != y.entries.len() {
                assert(node_value(*a)->Mapping_tag != node_value(*b)->Mapping_tag || vx.len()
                    != vy.len());
                return false;
            }
            let mut i: usize = 0;
            while i < x.entries.len()
                invariant
                    0 <= i <= x.entries@.len(),
                    x.entries@.len() == y.entries@.len(),
                    vx.len() == x.entries@.len(),
                    vy.len() == y.entries@.len(),
                    forall|j: int| 0 <= j < i ==> vx[j] == vy[j],
                    a.data == (YamlData::Mapping { value: *x, tag: *s }),
                    b.data == (YamlData::Mapping { value: *y, tag: *t }),
                    vx == node_value(*a)->Mapping_value,
                    vy == node_value(*b)->Mapping_value,
                decreases x.entries@.len() - i,
            {
                proof {
                    assert(decreases_to!(*a => x.entries@[i as int].0));
                    assert(decreases_to!(*a => x.entries@[i as int].1));
                }
                let (kx, wx) = &x.entries[i];
                let (ky, wy) = &y.entries[i];
                if !yaml_eq(kx, ky) || !yaml_eq(wx, wy) {
                    assert(vx[i as int] != vy[i as int]);
                    return false;
                }
                i += 1;
            }
            assert(vx =~= vy);
            true
        },
        (YamlData::Alias(x), YamlData::Alias(y)) => *x == *y,
        (YamlData::Null, YamlData::Null) => true,
        (YamlData::BadValue, YamlData::BadValue) => true,
        _ => false,
    }
}

/// A copy of an optional tag.
fn clone_tag(t: &Option<Tag>) -> (r: Option<Tag>)
    ensures
        tag_view(r) == tag_view(*t),
{
    match t {
        Some(t) => Some(Tag { handle: t.handle.clone(), suffix: t.suffix.clone() }),
        None => None,
    }
}

/// A deep copy of a node: the same span and the same value.
pub fn clone_node(n: &MarkedYaml) -> (r: MarkedYaml)
    ensures
        r.span == n.span,
        node_value(r) == node_value(*n),
    decreases *n,
{
    let data = match &n.data {
        YamlData::Real { value, tag } => YamlData::Real { value: value.clone(), tag: clone_tag(tag) },
        YamlData::Integer { value, tag } => YamlData::Integer { value: *value, tag: clone_tag(tag) },
        YamlData::String { value, tag } => YamlData::String { value: value.clone(), tag: clone_tag(tag) },
        YamlData::Bool { value, tag } => YamlData::Bool { value: *value, tag: clone_tag(tag) },
        YamlData::Sequence { value, tag } => {
            let mut out: Vec<MarkedYaml> = Vec::new();
            let mut i: usize = 0;
            while i < value.len()
                invariant
                    0 <= i <= value@.len(),
                    out@.len() == i,
                    n.data == (YamlData::Sequence { value: *value, tag: *tag }),
                    forall|j: int| 0 <= j < i ==> node_value(#[trigger] out@[j]) == node_value(value@[j]),
                decreases value@.len() - i,
            {
                proof {
                    assert(decreases_to!(*n => n.data));
                    assert(decreases_to!(n.data => n.data->Sequence_value));
                    assert(decreases_to!(n.data->Sequence_value => value@[i as int]));
                    assert(decreases_to!(*n => value@[i as int]));
                }
                out.push(clone_node(&value[i]));
                i += 1;
            }
            let d = YamlData::Sequence { value: out, tag: clone_tag(tag) };
            assert(node_value(MarkedYaml { span: n.span, data: d })->Sequence_value =~= node_value(*n)->Sequence_value);
            d
        },
        YamlData::Mapping { value, tag } => {
            let mut out: Vec<(MarkedYaml, MarkedYaml)> = Vec::new();
            let mut i: usize = 0;
            while i < value.entries.len()
                invariant
                    0 <= i <= value.entries@.len(),
                    out@.len() == i,
                    n.data == (YamlData::Mapping { value: *value, tag: *tag }),
                    forall|j: int|
                        0 <= j < i ==> node_value(#[trigger] out@[j].0) == node_value(value.entries@[j].0)
                            && node_value(out@[j].1) == node_value(value.entries@[j].1),
                decreases value.entries@.len() - i,
            {
                proof {
                    assert(decreases_to!(*n => n.data));
                    assert(decreases_to!(n.data => n.data->Mapping_value));
                    assert(decreases_to!(n.data->Mapping_value => value.entries));
                    assert(decreases_to!(value.entries => value.entries@[i as int]));
                    assert(decreases_to!(*n => value.entries@[i as int].0));
                    assert(decreases_to!(*n => value.entries@[i as int].1));
                }
                let k = clone_node(&value.entries[i].0);
                let v = clone_node(&value.entries[i].1);
                out.push((k, v));
                i += 1;
            }
            let d = YamlData::Mapping { value: AnnotatedMap { entries: out }, tag: clone_tag(tag) };
            assert(node_value(MarkedYaml { span: n.span, data: d })->Mapping_value =~= node_value(*n)->Mapping_value);
            d
        },
        YamlData::Alias(x) => YamlData::Alias(*x),
        YamlData::Null => YamlData::Null,
        YamlData::BadValue => YamlData::BadValue,
    };
    MarkedYaml { span: n.span, data }
}

impl Clone for MarkedYaml {
    /// A deep copy: the same span and the same value.
    fn clone(&self) -> (r: MarkedYaml)
        ensures
            r.span == self.span,
            node_value(r) == node_value(*self),
    {
        clone_node(self)
    }
}

impl PartialEq for MarkedYaml {
    /// Equality of the values held; spans are not compared.
    fn eq(&self, other: &MarkedYaml) -> (r: bool) {
        yaml_eq(self, other)
    }
}

impl vstd::std_specs::cmp::PartialEqSpecImpl for MarkedYaml {
    open spec fn obeys_eq_spec() -> bool {
        true
    }

    open spec fn eq_spec(&self, other: &MarkedYaml) -> bool {
        node_value(*self) == node_value(*other)
    }
}

impl Eq for MarkedYaml {

}

impl std::hash::Hash for MarkedYaml {
    /// Hashes the value held and not the span, as equality does: relies on the derived `Hash`
    /// of `YamlData`, which feeds each field to `state` in turn.
    #[verifier::external_body]
    fn hash<H: std::hash::Hasher>(&self, state: &mut H) {
        self.data.hash(state);
    }
}

/// Whether `k` is the value of a key among the entries.
pub open spec fn has_key(e: Seq<(MarkedYaml, MarkedYaml)>, k: YamlValue) -> bool {
    exists|i: int| 0 <= i < e.len() && node_value(#[trigger] e[i].0) == k
}

/// Whether position `i` holds the first key among the entries whose value is `k`.
pub open spec fn is_first_key(e: Seq<(MarkedYaml, MarkedYaml)>, k: YamlValue, i: int) -> bool {
    0 <= i < e.len() && node_value(e[i].0) == k && forall|j: int|
        0 <= j < i ==> node_value(#[trigger] e[j].0) != k
}

/// Whether no two keys among the entries hold the same value.
pub open spec fn keys_unique(e: Seq<(MarkedYaml, MarkedYaml)>) -> bool {
    forall|a: int, b: int|
        0 <= a < b < e.len() ==> node_value(#[trigger] e[a].0) != node_value(#[trigger] e[b].0)
}

/// The first position whose key has the value `k`; meaningful where `has_key(e, k)`.
pub open spec fn first_key(e: Seq<(MarkedYaml, MarkedYaml)>, k: YamlValue) -> int {
    choose|i: int| is_first_key(e, k, i)
}

/// The entries after binding `key` to `value`: an entry with an equal key keeps its key, takes
/// `value` and moves to the back; otherwise the pair is appended.
pub open spec fn inserted(e: Seq<(MarkedYaml, MarkedYaml)>, key: MarkedYaml, value: MarkedYaml) -> Seq<
    (MarkedYaml, MarkedYaml),
> {
    if has_key(e, node_value(key)) {
        let i = first_key(e, node_value(key));
        e.remove(i).push((e[i].0, value))
    } else {
        e.push((key, value))
    }
}

/// At most one position is the first with a given key.
proof fn lemma_first_key_unique(e: Seq<(MarkedYaml, MarkedYaml)>, k: YamlValue, i: int, j: int)
    requires
        is_first_key(e, k, i),
    ensures
        is_first_key(e, k, j) ==> i == j,
        first_key(e, k) == i,
{
    assert(is_first_key(e, k, first_key(e, k)));
    if is_first_key(e, k, j) && i != j {
        if i < j {
            assert(node_value(e[i].0) != k);
        } else {
            assert(node_value(e[j].0) != k);
        }
    }
    let f = first_key(e, k);
    if f != i {
        if i < f {
            assert(node_value(e[i].0) != k);
        } else {
            assert(node_value(e[f].0) != k);
        }
    }
}

/// Where some key has the value `k`, some position is the first such.
proof fn lemma_first_key_exists(e: Seq<(MarkedYaml, MarkedYaml)>, k: YamlValue, i: int)
    requires
        0 <= i < e.len(),
        node_value(e[i].0) == k,
    ensures
        is_first_key(e, k, first_key(e, k)),
    decreases i,
{
    if forall|j: int| 0 <= j < i ==> node_value(#[trigger] e[j].0) != k {
        assert(is_first_key(e, k, i));
    } else {
        let j = choose|j: int| 0 <= j < i && node_value(#[trigger] e[j].0) != k == false;
        lemma_first_key_exists(e, k, j);
    }
}

/// After `key` is bound to `value` in entries whose keys are unique, a lookup with any key equal
/// to `key` (a composite one too) finds `value`, at the back of the insertion order, and no two
/// keys are equal still.
pub proof fn lemma_lookup_after_insert(
    e: Seq<(MarkedYaml, MarkedYaml)>,
    key: MarkedYaml,
    value: MarkedYaml,
    query: MarkedYaml,
)
    requires
        keys_unique(e),
        node_value(query) == node_value(key),
    ensures
        has_key(inserted(e, key, value), node_value(query)),
        is_first_key(inserted(e, key, value), node_value(query), inserted(e, key, value).len() - 1),
        forall|j: int|
            is_first_key(inserted(e, key, value), node_value(query), j) ==> j == inserted(
                e,
                key,
                value,
            ).len() - 1,
        first_key(inserted(e, key, value), node_value(query)) == inserted(e, key, value).len() - 1,
        inserted(e, key, value).last().1 == value,
        keys_unique(inserted(e, key, value)),
{
    let k = node_value(key);
    let n = inserted(e, key, value);
    if has_key(e, k) {
        let w = choose|w: int| 0 <= w < e.len() && node_value(#[trigger] e[w].0) == k;
        lemma_first_key_exists(e, k, w);
        let i = first_key(e, k);
        assert forall|j: int| 0 <= j < n.len() - 1 implies node_value(#[trigger] n[j].0) != k by {
            let j0 = if j < i { j } else { j + 1 };
            assert(n[j] == e[j0]);
            if j0 < i {
                assert(node_value(e[j0].0) != node_value(e[i].0));
            } else {
                assert(node_value(e[i].0) != node_value(e[j0].0));
            }
        }
        assert forall|a: int, b: int| 0 <= a < b < n.len() implies node_value(#[trigger] n[a].0)
            != node_value(#[trigger] n[b].0) by {
            let a0 = if a < i { a } else { a + 1 };
            let b0 = if b == n.len() - 1 { i } else if b < i { b } else { b + 1 };
            assert(n[a].0 == e[a0].0);
            assert(n[b].0 == e[b0].0);
            if a0 < b0 {
                assert(node_value(e[a0].0) != node_value(e[b0].0));
            } else {
                assert(node_value(e[b0].0) != node_value(e[a0].0));
            }
        }
    } else {
        assert forall|j: int| 0 <= j < n.len() - 1 implies node_value(#[trigger] n[j].0) != k by {
            assert(n[j] == e[j]);
        }
        assert forall|a: int, b: int| 0 <= a < b < n.len() implies node_value(#[trigger] n[a].0)
            != node_value(#[trigger] n[b].0) by {
            if b == e.len() {
                assert(n[a] == e[a]);
            } else {
                assert(node_value(e[a].0) != node_value(e[b].0));
            }
        }
    }
    assert(is_first_key(n, k, n.len() - 1));
    lemma_first_key_unique(n, k, n.len() - 1, n.len() - 1);
    assert forall|j: int| is_first_key(n, k, j) implies j == n.len() - 1 by {
        lemma_first_key_unique(n, k, n.len() - 1, j);
    }
}

/// Equality and the value it compares leave spans out: two nodes that hold the same data are
/// equal whatever their spans, and a node equals itself with any other span.
pub proof fn lemma_eq_ignores_span(a: MarkedYaml, b: MarkedYaml, s: Span)
    requires
        a.data == b.data,
    ensures
        a.eq_spec(&b),
        a.eq_spec(&MarkedYaml { span: s, data: a.data }),
{
}

/// A mapping from nodes to nodes that keeps its keys unique and in insertion order.
#[derive(Clone, Debug, PartialEq, Eq, Hash)]
pub struct AnnotatedMap {
    entries: Vec<(MarkedYaml, MarkedYaml)>,
}

impl AnnotatedMap {
    /// The entries, in insertion order.
    pub closed spec fn entries(self) -> Seq<(MarkedYaml, MarkedYaml)> {
        self.entries@
    }

    /// An empty mapping.
    pub fn new() -> (r: Self)
        ensures
            r.entries() == Seq::<(MarkedYaml, MarkedYaml)>::empty(),
            keys_unique(r.entries()),
    {
        AnnotatedMap { entries: Vec::new() }
    }

    /// The number of entries.
    pub fn len(&self) -> (r: usize)
        ensures
            r == self.entries().len(),
    {
        self.entries.len()
    }

    /// Whether the mapping has no entry.
    pub fn is_empty(&self) -> (r: bool)
        ensures
            r == (self.entries().len() == 0),
    {
        self.entries.len() == 0
    }

    /// Where `key` stands among the keys, if it is one.
    pub fn find_index(&self, key: &MarkedYaml) -> (r: Option<usize>)
        ensures
            match r {
                Some(i) => is_first_key(self.entries(), node_value(*key), i as int),
                None => !has_key(self.entries(), node_value(*key)),
            },
    {
        let mut i: usize = 0;
        while i < self.entries.len()
            invariant
                0 <= i <= self.entries@.len(),
                forall|j: int| 0 <= j < i ==> node_value(#[trigger] self.entries@[j].0) != node_value(*key),
            decreases self.entries@.len() - i,
        {
            if yaml_eq(&self.entries[i].0, key) {
                return Some(i);
            }
            i += 1;
        }
        None
    }

    /// The value bound to `key`, if any.
    pub fn get(&self, key: &MarkedYaml) -> (r: Option<&MarkedYaml>)
        ensures
            match r {
                Some(v) => exists|i: int|
                    is_first_key(self.entries(), node_value(*key), i) && *v == #[trigger] self.entries()[i].1,
                None => !has_key(self.entries(), node_value(*key)),
            },
    {
        match self.find_index(key) {
            Some(i) => Some(&self.entries[i].1),
            None => None,
        }
    }

    /// The value bound to `key`, to change in place, if any.
    pub fn get_mut(&mut self, key: &MarkedYaml) -> (r: Option<&mut MarkedYaml>)
        ensures
            match r {
                Some(v) => exists|i: int|
                    is_first_key(old(self).entries(), node_value(*key), i) && *v == #[trigger] old(
                        self,
                    ).entries()[i].1 && final(self).entries() == old(self).entries().update(
                        i,
                        (old(self).entries()[i].0, *final(v)),
                    ),
                None => !has_key(old(self).entries(), node_value(*key)) && *final(self)
                    == *old(self),
            },
    {
        match self.find_index(key) {
            Some(i) => Some(&mut self.entries[i].1),
            None => None,
        }
    }

    /// Whether `key` is bound.
    pub fn contains_key(&self, key: &MarkedYaml) -> (r: bool)
        ensures
            r == has_key(self.entries(), node_value(*key)),
    {
        self.find_index(key).is_some()
    }

    /// Binds `key` to `value` at the back of the insertion order.
    ///
    /// Where an equal key is bound already, its entry keeps its key, takes `value`, moves to the
    /// back, and the value it held is returned.
    pub fn insert(&mut self, key: MarkedYaml, value: MarkedYaml) -> (r: Option<MarkedYaml>)
        ensures
            final(self).entries() == inserted(old(self).entries(), key, value),
            match r {
                Some(prev) => has_key(old(self).entries(), node_value(key)) && prev == old(
                    self,
                ).entries()[first_key(old(self).entries(), node_value(key))].1,
                None => !has_key(old(self).entries(), node_value(key)),
            },
            keys_unique(old(self).entries()) ==> keys_unique(final(self).entries()),
    {
        match self.find_index(&key) {
            Some(i) => {
                proof {
                    lemma_first_key_unique(old(self).entries@, node_value(key), i as int, first_key(old(self).entries@, node_value(key)));
                }
                let (k, prev) = self.entries.remove(i);
                self.entries.push((k, value));
                proof {
                    let e = old(self).entries@;
                    if keys_unique(e) {
                        assert forall|a: int, b: int|
                            0 <= a < b < self.entries@.len() implies node_value(
                            #[trigger] self.entries@[a].0,
                        ) != node_value(#[trigger] self.entries@[b].0) by {
                            let a0 = if a < i { a } else { a + 1 };
                            let b0 = if b == self.entries@.len() - 1 { i as int } else if b < i { b } else { b + 1 };
                            assert(self.entries@[a].0 == e[a0].0);
                            assert(self.entries@[b].0 == e[b0].0);
                            if a0 < b0 {
                                assert(node_value(e[a0].0) != node_value(e[b0].0));
                            } else {
                                assert(node_value(e[b0].0) != node_value(e[a0].0));
                            }
                        }
                    }
                }
                Some(prev)
            },
            None => {
                self.entries.push((key, value));
                proof {
                    let e = old(self).entries@;
                    if keys_unique(e) {
                        assert forall|a: int, b: int|
                            0 <= a < b < self.entries@.len() implies node_value(
                            #[trigger] self.entries@[a].0,
                        ) != node_value(#[trigger] self.entries@[b].0) by {
                            if b == e.len() {
                                assert(self.entries@[a].0 == e[a].0);
                            } else {
                                assert(node_value(e[a].0) != node_value(e[b].0));
                            }
                        }
                    }
                }
                None
            },
        }
    }

    /// The entries, in insertion order.
    pub fn into_entries(self) -> (r: Vec<(MarkedYaml, MarkedYaml)>)
        ensures
            r@ == self.entries(),
    {
        self.entries
    }

    /// The entry at position `i` in insertion order.
    pub fn entry_at(&self, i: usize) -> (r: &(MarkedYaml, MarkedYaml))
        requires
            i < self.entries().len(),
        ensures
            *r == self.entries()[i as int],
    {
        &self.entries[i]
    }
}

/// The value of the key that indexing by a string builds: a string scalar without a tag.
pub open spec fn str_key(s: Seq<char>) -> YamlValue {
    YamlValue::String { value: s, tag: None }
}

/// The value of the key that indexing a mapping by a position builds: an integer without a tag.
pub open spec fn int_key(i: int) -> YamlValue {
    YamlValue::Integer { value: i as i64, tag: None }
}

/// The node that `take` leaves behind.
pub open spec fn bad_node() -> MarkedYaml {
    MarkedYaml { span: zero_span(), data: YamlData::BadValue }
}

impl MarkedYaml {
    /// The node for a bare value: a zero span, the same variant and tag, scalars as they are,
    /// and containers empty, to be filled by the builder afterwards.
    pub fn from_bare_yaml(yaml: YamlData) -> (r: MarkedYaml)
        ensures
            r.span == zero_span(),
            match yaml {
                YamlData::Sequence { tag, .. } => r.data is Sequence && r.data->Sequence_value@.len()
                    == 0 && r.data->Sequence_tag == tag,
                YamlData::Mapping { tag, .. } => r.data is Mapping
                    && r.data->Mapping_value.entries().len() == 0 && r.data->Mapping_tag == tag,
                _ => r.data == yaml,
            },
    {
        let data = match yaml {
            YamlData::Sequence { tag, .. } => YamlData::Sequence { value: Vec::new(), tag },
            YamlData::Mapping { tag, .. } => YamlData::Mapping { value: AnnotatedMap::new(), tag },
            other => other,
        };
        MarkedYaml { span: Span::zero(), data }
    }

    /// Whether the node is a sequence.
    pub fn is_sequence(&self) -> (r: bool)
        ensures
            r == self.data is Sequence,
    {
        self.data.is_sequence()
    }

    /// Whether the node is a mapping.
    pub fn is_map(&self) -> (r: bool)
        ensures
            r == self.data is Mapping,
    {
        self.data.is_map()
    }

    /// Whether the node is `BadValue`.
    pub fn is_badvalue(&self) -> (r: bool)
        ensures
            r == self.data is BadValue,
    {
        self.data.is_badvalue()
    }

    /// Whether the node is the string scalar `<<`, the merge key.
    pub fn is_merge_key(&self) -> (r: bool)
        ensures
            r == (self.data is String && self.data->String_value@ == seq!['<', '<']),
    {
        match &self.data {
            YamlData::String { value, .. } => {
                let s = value.as_str();
                let n = s.unicode_len();
                let r = n == 2 && s.get_char(0) == '<' && s.get_char(1) == '<';
                proof {
                    if r {
                        assert(value@ =~= seq!['<', '<']);
                    } else if value@ == seq!['<', '<'] {
                        assert(value@[0] == '<' && value@[1] == '<');
                    }
                }
                r
            },
            _ => false,
        }
    }

    /// The elements of a sequence node, to fill in place.
    pub fn sequence_mut(&mut self) -> (r: &mut Vec<MarkedYaml>)
        requires
            old(self).data is Sequence,
        ensures
            *r == old(self).data->Sequence_value,
            final(self).span == old(self).span,
            final(self).data == (YamlData::Sequence {
                value: *final(r),
                tag: old(self).data->Sequence_tag,
            }),
    {
        match &mut self.data {
            YamlData::Sequence { value, .. } => value,
            _ => vstd::pervasive::unreached(),
        }
    }

    /// The entries of a mapping node, to fill in place.
    pub fn map_mut(&mut self) -> (r: &mut AnnotatedMap)
        requires
            old(self).data is Mapping,
        ensures
            *r == old(self).data->Mapping_value,
            final(self).span == old(self).span,
            final(self).data == (YamlData::Mapping {
                value: *final(r),
                tag: old(self).data->Mapping_tag,
            }),
    {
        match &mut self.data {
            YamlData::Mapping { value, .. } => value,
            _ => vstd::pervasive::unreached(),
        }
    }

    /// The entries of a mapping node.
    pub fn into_map(self) -> (r: AnnotatedMap)
        requires
            self.data is Mapping,
        ensures
            r == self.data->Mapping_value,
    {
        match self.data {
            YamlData::Mapping { value, .. } => value,
            _ => vstd::pervasive::unreached(),
        }
    }

    /// Leaves `BadValue` with a zero span in place of the node, and returns the node.
    pub fn take(&mut self) -> (r: MarkedYaml)
        ensures
            r == *old(self),
            *final(self) == bad_node(),
    {
        let mut taken = MarkedYaml { span: Span::zero(), data: YamlData::BadValue };
        std::mem::swap(&mut taken, self);
        taken
    }

    /// The node with its span set to `span`.
    pub fn with_span(self, span: Span) -> (r: MarkedYaml)
        ensures
            r.span == span,
            r.data == self.data,
    {
        let mut this = self;
        this.span = span;
        this
    }
}

impl From<YamlData> for MarkedYaml {
    fn from(value: YamlData) -> (r: MarkedYaml) {
        MarkedYaml { span: Span::zero(), data: value }
    }
}

impl vstd::std_specs::convert::FromSpecImpl<YamlData> for MarkedYaml {
    open spec fn obeys_from_spec() -> bool {
        true
    }

    open spec fn from_spec(v: YamlData) -> MarkedYaml {
        MarkedYaml { span: zero_span(), data: v }
    }
}

/// Why a node cannot be indexed as asked.
#[derive(Clone, Copy, Debug, PartialEq, Eq, Structural)]
pub enum IndexError {
    /// The node is a sequence and the position is past its end.
    OutOfBounds,
    /// The node is a mapping without the key asked for.
    KeyNotFound,
    /// A string key was asked of a node that is not a mapping.
    NotAMapping,
    /// A position was asked of a node that is neither a sequence nor a mapping.
    NotIndexable,
}

/// Whether indexing `d` by the string `k` finds a value.
pub open spec fn str_index_ok(d: YamlData, k: Seq<char>) -> bool {
    d is Mapping && has_key(d->Mapping_value.entries(), str_key(k))
}

/// Whether indexing `d` by the position `i` finds a value.
pub open spec fn usize_index_ok(d: YamlData, i: usize) -> bool {
    ||| d is Sequence && i < d->Sequence_value@.len()
    ||| d is Mapping && i <= i64::MAX && has_key(d->Mapping_value.entries(), int_key(i as int))
}

/// The value that indexing `d` by the string `k` finds, at the first key equal to `k`.
pub open spec fn str_index_value(d: YamlData, k: Seq<char>, v: MarkedYaml) -> bool {
    exists|j: int|
        is_first_key(d->Mapping_value.entries(), str_key(k), j) && v == #[trigger] d->Mapping_value.entries()[j].1
}

/// The value that indexing `d` by the position `i` finds.
pub open spec fn usize_index_value(d: YamlData, i: usize, v: MarkedYaml) -> bool {
    if d is Sequence {
        v == d->Sequence_value@[i as int]
    } else {
        exists|j: int|
            is_first_key(d->Mapping_value.entries(), int_key(i as int), j) && v
                == #[trigger] d->Mapping_value.entries()[j].1
    }
}

/// The key node that indexing by a string looks up.
fn string_key(idx: &str) -> (r: MarkedYaml)
    ensures
        node_value(r) == str_key(idx@),
{
    let r = MarkedYaml { span: Span::zero(), data: YamlData::String { value: idx.to_owned(), tag: None } };
    assert(node_value(r) == str_key(idx@));
    r
}

/// The key node that indexing a mapping by a position looks up.
fn integer_key(idx: usize) -> (r: MarkedYaml)
    requires
        idx <= i64::MAX,
    ensures
        node_value(r) == int_key(idx as int),
{
    let r = MarkedYaml { span: Span::zero(), data: YamlData::Integer { value: idx as i64, tag: None } };
    assert(node_value(r) == int_key(idx as int));
    r
}

impl YamlData {
    /// The value bound to the string key `idx`: the caller knows that the node is a mapping
    /// holding that key.
    pub fn index_str(&self, idx: &str) -> (r: &MarkedYaml)
        requires
            str_index_ok(*self, idx@),
        ensures
            str_index_value(*self, idx@, *r),
    {
        match self.try_index_str(idx) {
            Ok(v) => v,
            Err(_) => vstd::pervasive::unreached(),
        }
    }

    /// The value bound to the string key `idx`, or why there is none.
    pub fn try_index_str(&self, idx: &str) -> (r: Result<&MarkedYaml, IndexError>)
        ensures
            match r {
                Ok(v) => str_index_ok(*self, idx@) && str_index_value(*self, idx@, *v),
                Err(e) => !str_index_ok(*self, idx@) && e == (if self is Mapping {
                    IndexError::KeyNotFound
                } else {
                    IndexError::NotAMapping
                }),
            },
    {
        match self {
            YamlData::Mapping { value, .. } => {
                let key = string_key(idx);
                match value.get(&key) {
                    Some(v) => Ok(v),
                    None => Err(IndexError::KeyNotFound),
                }
            },
            _ => Err(IndexError::NotAMapping),
        }
    }

    /// The element at position `idx` of a sequence, or the value bound to the integer key `idx`
    /// of a mapping: the caller knows that it exists.
    pub fn index_usize(&self, idx: usize) -> (r: &MarkedYaml)
        requires
            usize_index_ok(*self, idx),
        ensures
            usize_index_value(*self, idx, *r),
    {
        match self.try_index_usize(idx) {
            Ok(v) => v,
            Err(_) => vstd::pervasive::unreached(),
        }
    }

    /// The element at position `idx` of a sequence, or the value bound to the integer key `idx`
    /// of a mapping, or why there is none.
    pub fn try_index_usize(&self, idx: usize) -> (r: Result<&MarkedYaml, IndexError>)
        ensures
            match r {
                Ok(v) => usize_index_ok(*self, idx) && usize_index_value(*self, idx, *v),
                Err(e) => !usize_index_ok(*self, idx) && e == (if self is Sequence {
                    IndexError::OutOfBounds
                } else if self is Mapping {
                    IndexError::KeyNotFound
                } else {
                    IndexError::NotIndexable
                }),
            },
    {
        match self {
            YamlData::Sequence { value, .. } => {
                if idx < value.len() {
                    Ok(&value[idx])
                } else {
                    Err(IndexError::OutOfBounds)
                }
            },
            YamlData::Mapping { value, .. } => {
                if idx as u128 > i64::MAX as u128 {
                    return Err(IndexError::KeyNotFound);
                }
                let key = integer_key(idx);
                match value.get(&key) {
                    Some(v) => Ok(v),
                    None => Err(IndexError::KeyNotFound),
                }
            },
            _ => Err(IndexError::NotIndexable),
        }
    }

    /// The value bound to the string key `idx`, to change in place: the caller knows that the
    /// node is a mapping holding that key.
    pub fn index_str_mut(&mut self, idx: &str) -> (r: &mut MarkedYaml)
        requires
            str_index_ok(*old(self), idx@),
        ensures
            str_index_value(*old(self), idx@, *r),
            exists|j: int|
                is_first_key((*old(self))->Mapping_value.entries(), str_key(idx@), j) && *final(self)
                    == (YamlData::Mapping {
                    value: (*final(self))->Mapping_value,
                    tag: (*old(self))->Mapping_tag,
                }) && #[trigger] (*final(self))->Mapping_value.entries() == (*old(self))->Mapping_value.entries().update(
                    j,
                    ((*old(self))->Mapping_value.entries()[j].0, *final(r)),
                ),
    {
        let key = string_key(idx);
        match self {
            YamlData::Mapping { value, .. } => match value.get_mut(&key) {
                Some(v) => v,
                None => vstd::pervasive::unreached(),
            },
            _ => vstd::pervasive::unreached(),
        }
    }

    /// The element at position `idx` of a sequence, or the value bound to the integer key `idx`
    /// of a mapping, to change in place: the caller knows that it exists.
    pub fn index_usize_mut(&mut self, idx: usize) -> (r: &mut MarkedYaml)
        requires
            usize_index_ok(*old(self), idx),
        ensures
            usize_index_value(*old(self), idx, *r),
            (*old(self)) is Sequence ==> *final(self) == (YamlData::Sequence {
                value: (*final(self))->Sequence_value,
                tag: (*old(self))->Sequence_tag,
            }) && (*final(self))->Sequence_value@ == (*old(self))->Sequence_value@.update(
                idx as int,
                *final(r),
            ),
            (*old(self)) is Mapping ==> exists|j: int|
                is_first_key((*old(self))->Mapping_value.entries(), int_key(idx as int), j) && *final(self)
                    == (YamlData::Mapping {
                    value: (*final(self))->Mapping_value,
                    tag: (*old(self))->Mapping_tag,
                }) && #[trigger] (*final(self))->Mapping_value.entries() == (*old(self))->Mapping_value.entries().update(
                    j,
                    ((*old(self))->Mapping_value.entries()[j].0, *final(r)),
                ),
    {
        match self {
            YamlData::Sequence { value, .. } => &mut value[idx],
            YamlData::Mapping { value, .. } => {
                let key = integer_key(idx);
                match value.get_mut(&key) {
                    Some(v) => v,
                    None => vstd::pervasive::unreached(),
                }
            },
            _ => vstd::pervasive::unreached(),
        }
    }
}

} // verus!
