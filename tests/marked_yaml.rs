use saphyr_annotated::{AnnotatedMap, MarkedYaml, Marker, Span, Tag, YamlData};
use saphyr_annotated::annotated::marked_yaml::IndexError;
use std::collections::hash_map::DefaultHasher;
use std::hash::{Hash, Hasher};

fn node(data: YamlData) -> MarkedYaml {
    MarkedYaml::from(data)
}

fn integer(v: i64) -> MarkedYaml {
    node(YamlData::Integer { value: v, tag: None })
}

fn string(s: &str) -> MarkedYaml {
    node(YamlData::String { value: s.to_string(), tag: None })
}

fn sequence(items: Vec<MarkedYaml>) -> MarkedYaml {
    node(YamlData::Sequence { value: items, tag: None })
}

fn span_at(index: usize, line: usize, col: usize) -> Span {
    Span {
        start: Marker { index, line, col },
        end: Marker { index: index + 1, line, col: col + 1 },
    }
}

fn hash_of(n: &MarkedYaml) -> u64 {
    let mut h = DefaultHasher::new();
    n.hash(&mut h);
    h.finish()
}

fn composite_key() -> MarkedYaml {
    let mut inner = AnnotatedMap::new();
    inner.insert(string("key"), sequence(vec![integer(1), integer(2), integer(3)]));
    node(YamlData::Mapping { value: inner, tag: None })
}

#[test]
fn or_replaces_null_and_bad_value() {
    let x = || YamlData::Integer { value: 7, tag: None };
    assert_eq!(YamlData::BadValue.or(x()), x());
    assert_eq!(YamlData::Null.or(x()), x());
    let y = YamlData::String { value: "y".to_string(), tag: None };
    assert_eq!(y.or(x()), YamlData::String { value: "y".to_string(), tag: None });
    assert_eq!(YamlData::Bool { value: false, tag: None }.or(x()), YamlData::Bool { value: false, tag: None });
}

#[test]
fn borrowed_or_replaces_null_and_bad_value() {
    let x = YamlData::Integer { value: 7, tag: None };
    let null = YamlData::Null;
    let bad = YamlData::BadValue;
    let y = YamlData::Alias(3);
    assert_eq!(null.borrowed_or(&x), &x);
    assert_eq!(bad.borrowed_or(&x), &x);
    assert_eq!(y.borrowed_or(&x), &YamlData::Alias(3));
}

#[test]
fn from_bare_yaml_empties_containers() {
    let tag = Tag { handle: "!".to_string(), suffix: "t".to_string() };
    let s = MarkedYaml::from_bare_yaml(YamlData::Sequence {
        value: vec![integer(1), integer(2)],
        tag: Some(tag.clone()),
    });
    assert_eq!(s.data.as_sequence().map(|v| v.len()), Some(0));
    assert_eq!(s.data.get_tag(), Some(&tag));
    assert_eq!(s.span, Span::zero());

    let mut m = AnnotatedMap::new();
    m.insert(integer(1), integer(2));
    let m = MarkedYaml::from_bare_yaml(YamlData::Mapping { value: m, tag: None });
    assert!(m.is_map());
    assert_eq!(m.data.as_map().map(|m| m.len()), Some(0));

    let i = MarkedYaml::from_bare_yaml(YamlData::Integer { value: 5, tag: None });
    assert_eq!(i.data.as_i64(), Some(5));
}

#[test]
fn composite_key_is_found_by_an_equal_key() {
    let mut outer = AnnotatedMap::new();
    outer.insert(composite_key(), sequence(vec![integer(4), integer(5), integer(6)]));
    let lookup = composite_key().with_span(span_at(40, 3, 2));
    let found = outer.get(&lookup).expect("key is present");
    assert_eq!(found, &sequence(vec![integer(4), integer(5), integer(6)]));
    let mut other = AnnotatedMap::new();
    other.insert(string("key"), sequence(vec![integer(1), integer(2)]));
    let other_key = node(YamlData::Mapping { value: other, tag: None });
    assert!(outer.get(&other_key).is_none());
}

#[test]
fn insert_of_an_equal_key_replaces_and_moves_to_back() {
    let mut m = AnnotatedMap::new();
    assert_eq!(m.insert(string("a"), integer(1)), None);
    assert_eq!(m.insert(string("b"), integer(2)), None);
    let prev = m.insert(string("a").with_span(span_at(9, 2, 1)), integer(3));
    assert_eq!(prev, Some(integer(1)));
    assert_eq!(m.len(), 2);
    assert_eq!(m.entry_at(0).0, string("b"));
    assert_eq!(m.entry_at(1).0.span, Span::zero());
    assert_eq!(m.entry_at(1).1, integer(3));
}

#[test]
fn equality_and_hash_ignore_span() {
    let a = composite_key().with_span(span_at(0, 1, 1));
    let b = composite_key().with_span(span_at(100, 7, 5));
    assert_eq!(a, b);
    assert_eq!(hash_of(&a), hash_of(&b));
    assert_ne!(string("a"), string("b"));
    let tagged = node(YamlData::String {
        value: "a".to_string(),
        tag: Some(Tag { handle: "!!".to_string(), suffix: "str".to_string() }),
    });
    assert_ne!(string("a"), tagged);
}

#[test]
fn sequence_out_of_bounds_index_is_an_error() {
    let s = sequence(vec![integer(1), integer(2), integer(3)]);
    assert_eq!(s.data.try_index_usize(5).err(), Some(IndexError::OutOfBounds));
    assert_eq!(s.data.try_index_usize(2).ok(), Some(&integer(3)));
    assert_eq!(s.data.index_usize(0), &integer(1));
}

#[test]
fn null_indexed_by_string_is_not_a_mapping() {
    assert_eq!(YamlData::Null.try_index_str("x").err(), Some(IndexError::NotAMapping));
    assert_eq!(YamlData::Null.try_index_usize(0).err(), Some(IndexError::NotIndexable));
}

#[test]
fn mapping_indexing_by_string_and_integer() {
    let mut m = AnnotatedMap::new();
    m.insert(string("x"), integer(10));
    m.insert(integer(2), string("two"));
    let mut d = YamlData::Mapping { value: m, tag: None };
    assert_eq!(d.index_str("x"), &integer(10));
    assert_eq!(d.index_usize(2), &string("two"));
    assert_eq!(d.try_index_str("y").err(), Some(IndexError::KeyNotFound));
    assert_eq!(d.try_index_usize(3).err(), Some(IndexError::KeyNotFound));
    *d.index_str_mut("x") = integer(11);
    *d.index_usize_mut(2) = string("deux");
    assert_eq!(d.index_str("x"), &integer(11));
    assert_eq!(d.index_usize(2), &string("deux"));
}

#[test]
fn sequence_index_mut_changes_one_element() {
    let mut d = YamlData::Sequence { value: vec![integer(1), integer(2)], tag: None };
    *d.index_usize_mut(1) = integer(20);
    assert_eq!(d.as_sequence(), Some(&vec![integer(1), integer(20)]));
}

#[test]
fn take_leaves_bad_value() {
    let mut s = sequence(vec![integer(1), integer(2)]).with_span(span_at(3, 1, 4));
    let taken = s.take();
    assert_eq!(taken, sequence(vec![integer(1), integer(2)]));
    assert_eq!(taken.span, span_at(3, 1, 4));
    assert!(s.is_badvalue());
    assert_eq!(s.span, Span::zero());
}

#[test]
fn merge_key_is_exactly_two_angle_brackets() {
    assert!(string("<<").is_merge_key());
    assert!(!string("<<a").is_merge_key());
    assert!(!string("<").is_merge_key());
    assert!(!integer(1).is_merge_key());
}

#[test]
fn container_extraction_fills_in_place() {
    let mut s = MarkedYaml::from_bare_yaml(YamlData::Sequence { value: vec![], tag: None });
    s.sequence_mut().push(integer(1));
    assert_eq!(s.data.as_sequence().map(|v| v.len()), Some(1));
    let mut m = MarkedYaml::from_bare_yaml(YamlData::Mapping { value: AnnotatedMap::new(), tag: None });
    m.map_mut().insert(string("k"), integer(1));
    let inner = m.into_map();
    assert_eq!(inner.len(), 1);
    assert!(inner.contains_key(&string("k")));
}

#[test]
fn accessors_and_predicates() {
    let tag = Tag { handle: "!".to_string(), suffix: "x".to_string() };
    let b = YamlData::Bool { value: true, tag: Some(tag.clone()) };
    assert_eq!(b.as_bool(), Some(true));
    assert!(b.is_boolean() && !b.is_integer());
    assert_eq!(b.get_tag(), Some(&tag));
    assert_eq!(YamlData::Null.get_tag(), None);
    assert_eq!(YamlData::Alias(1).get_tag(), None);
    let s = YamlData::String { value: "hi".to_string(), tag: None };
    assert_eq!(s.as_str(), Some("hi"));
    assert!(s.is_string());
    assert_eq!(s.into_string(), Some("hi".to_string()));
    let r = YamlData::Real { value: "1.5".to_string(), tag: None };
    assert!(r.is_real());
    assert_eq!(r.as_i64(), None);
    assert!(YamlData::Alias(2).is_alias());
    assert!(YamlData::Null.is_null());
    assert_eq!(YamlData::Integer { value: -4, tag: None }.into_i64(), Some(-4));
    assert_eq!(YamlData::Bool { value: false, tag: None }.into_bool(), Some(false));
    assert_eq!(YamlData::Null.into_sequence(), None);
    assert!(YamlData::Null.into_map().is_none());
}

#[test]
fn into_iter_yields_sequence_elements_in_order() {
    let d = YamlData::Sequence { value: vec![integer(1), integer(2), integer(3)], tag: None };
    let mut it = d.into_iter();
    assert_eq!(it.next(), Some(integer(1)));
    assert_eq!(it.next(), Some(integer(2)));
    assert_eq!(it.next(), Some(integer(3)));
    assert_eq!(it.next(), None);
    let mut empty = YamlData::Integer { value: 1, tag: None }.into_iter();
    assert_eq!(empty.next(), None);
}

#[test]
fn clone_keeps_span_and_value() {
    let original = composite_key().with_span(span_at(5, 2, 3));
    let copy = original.clone();
    assert_eq!(copy, original);
    assert_eq!(copy.span, span_at(5, 2, 3));
    let d = YamlData::Sequence { value: vec![integer(1), string("s")], tag: None };
    assert_eq!(d.clone(), d);
}

#[test]
fn lookup_after_insert_finds_the_new_value_at_the_back() {
    let mut m = AnnotatedMap::new();
    m.insert(string("a"), integer(1));
    m.insert(composite_key(), integer(2));
    m.insert(string("b"), integer(3));
    m.insert(composite_key().with_span(span_at(1, 1, 1)), integer(4));
    assert_eq!(m.len(), 3);
    assert_eq!(m.entry_at(2).0, composite_key());
    assert_eq!(m.get(&composite_key()), Some(&integer(4)));
    assert_eq!(m.find_index(&string("b")), Some(1));
    let entries = m.into_entries();
    assert_eq!(entries.len(), 3);
}
