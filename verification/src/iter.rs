//! Iterators over matrices: physical-offset producers ([`loc`]), logical
//! coordinate producers ([`idx`]), element producers ([`element`]) and a
//! row iterator ([`rows`]).

mod element;
mod idx;
mod loc;
mod rows;

pub use element::ElementIterator;
pub use element::IndexedElementIterator;
pub use element::MatIterator2;
pub use idx::IndexIterator;
pub use loc::ColumnIterator;
pub use loc::LocIter;
pub use loc::RowIterator;
pub use rows::Iter;
