//! An in-memory YAML document model whose nodes may carry their source position.
pub mod annotated;

pub use annotated::marked_yaml::{IndexError, Marker, Span, YamlValue};
pub use annotated::{AnnotatedMap, AnnotatedYamlIter, MarkedYaml, Tag, YamlData};
