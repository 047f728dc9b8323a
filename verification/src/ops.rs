//! Deferred operation nodes: a recursively composable description of the
//! work still pending on a matrix, evaluated innermost node first by
//! [`crate::Mat2::finalize`].

use vstd::prelude::*;

use crate::mat2::Mat2;
use crate::model::MatView;
use crate::model::Shape;
use crate::model::add_fits;
use crate::model::cols_of;
use crate::model::is_matrix;
use crate::model::is_matrix_of;
use crate::model::lemma_add_is_matrix;
use crate::model::lemma_mul_is_matrix;
use crate::model::lemma_transpose_is_matrix;
use crate::model::mat_add;
use crate::model::mat_mul;
use crate::model::mat_transpose;
use crate::model::mul_fits;
use crate::model::rows_of;

verus! {

/// One deferred transformation, chained through `next` fields; the chain
/// is evaluated innermost node first.
#[derive(Debug)]
pub enum Op {
    /// Terminal: collapse the current layout into a genuine row-major buffer.
    Finalize,
    /// Evaluate the rest of the chain, then flip shape and layout.
    Transpose(Box<Op>),
    /// Evaluate the rest of the chain, finalize the captured operand, then
    /// multiply by it on the right.
    Multiply(Mat2, Box<Op>),
    /// Evaluate the rest of the chain, finalize the captured operand, then
    /// add it elementwise.
    Add(Mat2, Box<Op>),
}

impl Op {
    /// The logical value a chain anchored at base value `v` evaluates to.
    pub open spec fn eval(self, v: MatView) -> MatView
        decreases self,
    {
        match self {
            Op::Finalize => v,
            Op::Transpose(next) => mat_transpose((*next).eval(v)),
            Op::Multiply(rhs, next) => mat_mul((*next).eval(v), rhs.eval_full()),
            Op::Add(rhs, next) => mat_add((*next).eval(v), rhs.eval_full()),
        }
    }

    /// The chain is dimension-consistent over base value `v`: every captured
    /// operand is well-formed, every addition joins equal shapes, and every
    /// multiplication joins compatible inner dimensions.
    pub open spec fn wf_for(self, v: MatView) -> bool
        decreases self,
    {
        match self {
            Op::Finalize => true,
            Op::Transpose(next) => (*next).wf_for(v),
            Op::Multiply(rhs, next) => {
                &&& (*next).wf_for(v)
                &&& rhs.wf()
                &&& cols_of((*next).eval(v)) == rows_of(rhs.eval_full())
            },
            Op::Add(rhs, next) => {
                &&& (*next).wf_for(v)
                &&& rhs.wf()
                &&& rows_of((*next).eval(v)) == rows_of(rhs.eval_full())
                &&& cols_of((*next).eval(v)) == cols_of(rhs.eval_full())
            },
        }
    }

    /// Evaluating the chain with element-typed arithmetic never overflows.
    pub open spec fn fits_for(self, v: MatView) -> bool
        decreases self,
    {
        match self {
            Op::Finalize => true,
            Op::Transpose(next) => (*next).fits_for(v),
            Op::Multiply(rhs, next) => {
                &&& (*next).fits_for(v)
                &&& rhs.fits()
                &&& mul_fits((*next).eval(v), rhs.eval_full())
            },
            Op::Add(rhs, next) => {
                &&& (*next).fits_for(v)
                &&& rhs.fits()
                &&& add_fits((*next).eval(v), rhs.eval_full())
            },
        }
    }

    /// A termination measure: the structural height of the chain, counting
    /// the chains of captured operands.
    pub open spec fn height(self) -> nat
        decreases self,
    {
        match self {
            Op::Finalize => 1,
            Op::Transpose(next) => 1 + (*next).height(),
            Op::Multiply(rhs, next) => 1 + rhs.chain_height() + (*next).height(),
            Op::Add(rhs, next) => 1 + rhs.chain_height() + (*next).height(),
        }
    }

    /// Every chain has height at least one.
    pub proof fn lemma_height_pos(self)
        ensures
            self.height() >= 1,
    {
        match self {
            Op::Finalize => {},
            Op::Transpose(next) => {},
            Op::Multiply(rhs, next) => {},
            Op::Add(rhs, next) => {},
        }
    }

    /// A dimension-consistent chain over a proper matrix evaluates to a
    /// proper matrix.
    pub proof fn lemma_eval_is_matrix(self, v: MatView)
        requires
            self.wf_for(v),
            is_matrix(v),
        ensures
            is_matrix(self.eval(v)),
        decreases self.height(),
    {
        match self {
            Op::Finalize => {},
            Op::Transpose(next) => {
                (*next).lemma_eval_is_matrix(v);
                lemma_transpose_is_matrix((*next).eval(v));
            },
            Op::Multiply(rhs, next) => {
                (*next).lemma_height_pos();
                (*next).lemma_eval_is_matrix(v);
                rhs.lemma_eval_full_is_matrix();
                lemma_mul_is_matrix((*next).eval(v), rhs.eval_full());
            },
            Op::Add(rhs, next) => {
                (*next).lemma_height_pos();
                (*next).lemma_eval_is_matrix(v);
                rhs.lemma_eval_full_is_matrix();
                lemma_add_is_matrix((*next).eval(v), rhs.eval_full());
            },
        }
    }

    /// Walks the chain and returns the shape its evaluation will have over a
    /// base value of shape `base`.
    pub(crate) fn result_shape(&self, base: Shape, Ghost(v): Ghost<MatView>) -> (r: Shape)
        requires
            self.wf_for(v),
            is_matrix_of(v, base.0 as int, base.1 as int),
        ensures
            r.0 == rows_of(self.eval(v)),
            r.1 == cols_of(self.eval(v)),
        decreases self.height(),
    {
        proof {
            self.lemma_eval_is_matrix(v);
        }
        match self {
            Op::Finalize => base,
            Op::Transpose(next) => {
                proof {
                    (**next).lemma_eval_is_matrix(v);
                }
                let s = (**next).result_shape(base, Ghost(v));
                (s.1, s.0)
            },
            Op::Multiply(rhs, next) => {
                proof {
                    (**next).lemma_height_pos();
                    (**next).lemma_eval_is_matrix(v);
                    rhs.lemma_eval_full_is_matrix();
                }
                let s = (**next).result_shape(base, Ghost(v));
                let rs = rhs.effective_shape();
                (s.0, rs.1)
            },
            Op::Add(rhs, next) => {
                proof {
                    (**next).lemma_eval_is_matrix(v);
                }
                (**next).result_shape(base, Ghost(v))
            },
        }
    }
}

impl Clone for Op {
    /// A cloned chain is semantically identical to the original: over every
    /// base value it evaluates to the same matrix, is consistent exactly
    /// when the original is, and overflows exactly when the original does.
    fn clone(&self) -> (r: Self)
        ensures
            r.height() == self.height(),
            (r is Finalize) == (*self is Finalize),
            forall|v: MatView| #[trigger] r.eval(v) == self.eval(v),
            forall|v: MatView| #[trigger] r.wf_for(v) == self.wf_for(v),
            forall|v: MatView| #[trigger] r.fits_for(v) == self.fits_for(v),
        decreases self.height(),
    {
        match self {
            Op::Finalize => Op::Finalize,
            Op::Transpose(next) => {
                let c = (**next).clone();
                let r = Op::Transpose(Box::new(c));
                proof {
                    assert forall|v: MatView| #[trigger] r.eval(v) == self.eval(v) by {
                        assert(c.eval(v) == (**next).eval(v));
                    }
                    assert forall|v: MatView| #[trigger] r.wf_for(v) == self.wf_for(v) by {
                        assert(c.wf_for(v) == (**next).wf_for(v));
                    }
                    assert forall|v: MatView| #[trigger] r.fits_for(v) == self.fits_for(v) by {
                        assert(c.fits_for(v) == (**next).fits_for(v));
                    }
                }
                r
            },
            Op::Multiply(rhs, next) => {
                proof {
                    (**next).lemma_height_pos();
                }
                let m = rhs.clone();
                let c = (**next).clone();
                let r = Op::Multiply(m, Box::new(c));
                proof {
                    assert forall|v: MatView| #[trigger] r.eval(v) == self.eval(v) by {
                        assert(c.eval(v) == (**next).eval(v));
                    }
                    assert forall|v: MatView| #[trigger] r.wf_for(v) == self.wf_for(v) by {
                        assert(c.eval(v) == (**next).eval(v));
                        assert(c.wf_for(v) == (**next).wf_for(v));
                    }
                    assert forall|v: MatView| #[trigger] r.fits_for(v) == self.fits_for(v) by {
                        assert(c.eval(v) == (**next).eval(v));
                        assert(c.fits_for(v) == (**next).fits_for(v));
                    }
                }
                r
            },
            Op::Add(rhs, next) => {
                proof {
                    (**next).lemma_height_pos();
                }
                let m = rhs.clone();
                let c = (**next).clone();
                let r = Op::Add(m, Box::new(c));
                proof {
                    assert forall|v: MatView| #[trigger] r.eval(v) == self.eval(v) by {
                        assert(c.eval(v) == (**next).eval(v));
                    }
                    assert forall|v: MatView| #[trigger] r.wf_for(v) == self.wf_for(v) by {
                        assert(c.eval(v) == (**next).eval(v));
                        assert(c.wf_for(v) == (**next).wf_for(v));
                    }
                    assert forall|v: MatView| #[trigger] r.fits_for(v) == self.fits_for(v) by {
                        assert(c.eval(v) == (**next).eval(v));
                        assert(c.fits_for(v) == (**next).fits_for(v));
                    }
                }
                r
            },
        }
    }
}

} // verus!
