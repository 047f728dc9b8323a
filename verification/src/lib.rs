//! A small dense 2-D matrix library with dual physical layout
//! (row-major / column-major) and a lazy operation-composition engine.
//!
//! A [`Mat2`] owns a flat buffer together with a shape and a layout flag;
//! transposition is an O(1) flip of the flag, and arithmetic can either be
//! performed eagerly or queued as a chain of deferred [`Op`] nodes that
//! [`Mat2::finalize`] collapses into a concrete row-major buffer.

mod errors;
mod iter;
mod laws;
mod mat;
mod mat2;
mod model;
mod ops;

pub use errors::MatError;
pub use laws::lemma_add_comm;
pub use laws::lemma_eq_layout_independent;
pub use laws::lemma_layouts_same_value;
pub use laws::lemma_transpose_entry;
pub use laws::lemma_transpose_identity;
pub use laws::lemma_transpose_involution;
pub use iter::ColumnIterator;
pub use iter::ElementIterator;
pub use iter::IndexIterator;
pub use iter::IndexedElementIterator;
pub use iter::Iter;
pub use iter::LocIter;
pub use iter::MatIterator2;
pub use iter::RowIterator;
pub use mat::Mat;
pub use mat::prefix_prod;
pub use mat2::Mat2;
pub use model::Element;
pub use model::MatView;
pub use model::Shape;
pub use model::add_fits;
pub use model::col_major_offset;
pub use model::cols_of;
pub use model::const_view;
pub use model::dot_prefix;
pub use model::id_view;
pub use model::in_range;
pub use model::is_matrix;
pub use model::is_matrix_of;
pub use model::lemma_col_major_offset_in_range;
pub use model::lemma_col_major_offset_injective;
pub use model::loc_shape_wf;
pub use model::mat_add;
pub use model::mat_col;
pub use model::mat_mul;
pub use model::mat_transpose;
pub use model::mul_fits;
pub use model::rows_of;
pub use model::view_of;
pub use ops::Op;
