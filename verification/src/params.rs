//! Parameter tables for kernel families.
//!
//! A kernel family is described by an ordered table of component records;
//! each record is four scalars `(a, b, real weight, imaginary weight)`,
//! stored flat in that order. The table drives kernel construction and the
//! per-component recombination weights, so its layout — four scalars per
//! component, at least one component — is an invariant of the type.
//!
//! The scalar type is a parameter: the table only stores and hands out
//! scalars, it never computes with them, so the verified layout logic is the
//! same whatever the caller's number type is.

use vstd::prelude::*;

use crate::error::BlurError;

verus! {

/// An ordered table of kernel component records, four scalars per component.
pub struct KernelParamSet<T> {
    params: Vec<T>,
}

impl<T> View for KernelParamSet<T> {
    type V = Seq<T>;

    closed spec fn view(&self) -> Seq<T> {
        self.params@
    }
}

impl<T> KernelParamSet<T> {
    /// The table layout invariant: a whole number of records, at least one.
    pub open spec fn wf(&self) -> bool {
        self@.len() % 4 == 0 && self@.len() >= 4
    }

    /// How many component records the table holds.
    pub open spec fn spec_num_kernels(&self) -> int {
        self@.len() as int / 4
    }

    /// Wraps a flat scalar table, rejecting one that is not a whole,
    /// non-empty sequence of four-scalar records.
    pub fn new(params: Vec<T>) -> (r: Result<KernelParamSet<T>, BlurError>)
        ensures
            r is Ok <==> (params@.len() >= 4 && params@.len() % 4 == 0),
            r matches Ok(s) ==> s@ == params@ && s.wf(),
            r is Err ==> r == Err::<KernelParamSet<T>, BlurError>(BlurError::Configuration),
    {
        if params.len() >= 4 && params.len() % 4 == 0 {
            Ok(KernelParamSet { params })
        } else {
            Err(BlurError::Configuration)
        }
    }

    /// How many component records the table holds.
    pub fn num_kernels(&self) -> (n: usize)
        ensures
            n == self.spec_num_kernels(),
    {
        self.params.len() / 4
    }
}

impl<T: Copy> KernelParamSet<T> {
    /// The amplitude-decay scalar `a` of component `index`.
    pub fn a(&self, index: usize) -> (r: T)
        requires
            self.wf(),
            index < self.spec_num_kernels(),
        ensures
            r == self@[4 * index],
    {
        let n = self.params.len();
        proof {
            lemma_record_in_bounds(n as int, index as int);
        }
        self.params[4 * index]
    }

    /// The oscillation-frequency scalar `b` of component `index`.
    pub fn b(&self, index: usize) -> (r: T)
        requires
            self.wf(),
            index < self.spec_num_kernels(),
        ensures
            r == self@[4 * index + 1],
    {
        let n = self.params.len();
        proof {
            lemma_record_in_bounds(n as int, index as int);
        }
        self.params[4 * index + 1]
    }

    /// The weight given to the real part of component `index` when the
    /// complex results are folded back into a real image.
    pub fn real_component(&self, index: usize) -> (r: T)
        requires
            self.wf(),
            index < self.spec_num_kernels(),
        ensures
            r == self@[4 * index + 2],
    {
        let n = self.params.len();
        proof {
            lemma_record_in_bounds(n as int, index as int);
        }
        self.params[4 * index + 2]
    }

    /// The weight given to the imaginary part of component `index` when the
    /// complex results are folded back into a real image.
    pub fn imag_component(&self, index: usize) -> (r: T)
        requires
            self.wf(),
            index < self.spec_num_kernels(),
        ensures
            r == self@[4 * index + 3],
    {
        let n = self.params.len();
        proof {
            lemma_record_in_bounds(n as int, index as int);
        }
        self.params[4 * index + 3]
    }
}

/// Every scalar of a record lies inside a table with a whole number of
/// records: record `index` spans positions `4*index .. 4*index + 4`.
proof fn lemma_record_in_bounds(len: int, index: int)
    requires
        len % 4 == 0,
        0 <= index < len / 4,
    ensures
        4 * index + 3 < len,
{
    assert(len == 4 * (len / 4) + len % 4) by (nonlinear_arith);
    assert(4 * index + 3 < 4 * (len / 4)) by (nonlinear_arith)
        requires
            index < len / 4,
    ;
}

} // verus!
