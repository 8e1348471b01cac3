//! A persistent associative map for small key counts, built as an immutable
//! singly linked chain of key-value entries. Inserting never mutates: a new
//! head node is allocated whose parent is the existing chain, so every older
//! map handle stays valid and the histories share structure.

pub mod laws;
pub mod list_map;
pub mod value;

pub use list_map::IPersistentListMap;
pub use list_map::MapEntry;
pub use list_map::PersistentListMap;
pub use list_map::PersistentListMapIter;
pub use list_map::ToPersistentListMap;
pub use list_map::ToPersistentListMapIter;
pub use value::Value;
pub use value::ValueView;
