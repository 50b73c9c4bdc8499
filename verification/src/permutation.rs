//! Permutations of the indices `0..n`, and applying them to slices.
use vstd::prelude::*;
use crate::text::{push, string_of, u64_to_string, nat_digits};

verus! {

broadcast use vstd::std_specs::vec::group_vec_axioms;

/// Errors from building or applying a permutation.
#[derive(Debug, PartialEq, Eq)]
pub enum PermutationError {
    /// The indices given are not a permutation.
    InvalidPermutation {
        /// What is wrong with them.
        error: String,
    },
    /// A permutation was applied to a slice of another length.
    PermutationSizeMismatch {
        /// The number of indices the permutation moves.
        permutation_size: usize,
        /// The length of the slice.
        slice_length: usize,
    },
}

/// Whether a sequence of indices holds each of `0..len` exactly once.
pub open spec fn is_permutation(p: Seq<usize>) -> bool {
    &&& forall|i: int| 0 <= i < p.len() ==> #[trigger] p[i] < p.len()
    &&& forall|i: int, j: int| 0 <= i < j < p.len() ==> #[trigger] p[i] != #[trigger] p[j]
}

/// A permutation of `0..n`: position `k` of a permuted slice holds the
/// element at index `p[k]` of the slice it permutes.
pub struct Permutation {
    permutation: Vec<usize>,
}

impl View for Permutation {
    type V = Seq<usize>;

    closed spec fn view(&self) -> Seq<usize> {
        self.permutation@
    }
}

impl Permutation {
    #[verifier::type_invariant]
    closed spec fn well_formed(&self) -> bool {
        is_permutation(self.permutation@)
    }

    /// Checks that the indices are a permutation of `0..len`: no index
    /// repeats, and none lies outside.
    pub fn try_new(permutation: Vec<usize>) -> (res: Result<Permutation, PermutationError>)
        ensures
            res is Ok <==> is_permutation(permutation@),
            res matches Ok(p) ==> p@ == permutation@,
            res matches Err(e) ==> e is InvalidPermutation,
    {
        let n = permutation.len();
        let mut seen: Vec<bool> = Vec::new();
        let mut k: usize = 0;
        while k < n
            invariant
                k <= n,
                seen@.len() == k,
                forall|t: int| 0 <= t < k ==> !(#[trigger] seen@[t]),
            decreases n - k,
        {
            seen.push(false);
            k = k + 1;
        }
        // First pass: repeated indices, counting only those in bounds.
        let mut i: usize = 0;
        let mut out_of_bounds = false;
        while i < n
            invariant
                n == permutation@.len(),
                seen@.len() == n,
                i <= n,
                out_of_bounds == exists|t: int| 0 <= t < i && #[trigger] permutation@[t] >= n,
                forall|v: int| 0 <= v < n ==> (#[trigger] seen@[v] <==> exists|t: int| 0 <= t < i && permutation@[t] == v),
                forall|a: int, b: int| 0 <= a < b < i && permutation@[a] < n && permutation@[b] < n ==>
                    #[trigger] permutation@[a] != #[trigger] permutation@[b],
            decreases n - i,
        {
            let v = permutation[i];
            if v < n {
                if seen[v] {
                    proof {
                        let t = choose|t: int| 0 <= t < i && permutation@[t] == v;
                        assert(permutation@[t] == permutation@[i as int]);
                    }
                    return Err(PermutationError::InvalidPermutation {
                        error: string_of("Permutation can not have duplicate elements"),
                    });
                }
                let ghost before = seen@;
                seen.set(v, true);
                proof {
                    assert forall|w: int| 0 <= w < n implies (#[trigger] seen@[w] <==> exists|t: int| 0 <= t < i + 1 && permutation@[t] == w) by {
                        if w == v as int {
                            assert(permutation@[i as int] == w);
                        } else {
                            assert(seen@[w] == before[w]);
                            if exists|t: int| 0 <= t < i + 1 && permutation@[t] == w {
                                let t = choose|t: int| 0 <= t < i + 1 && permutation@[t] == w;
                                assert(t < i);
                            }
                        }
                    }
                    assert forall|a: int, b: int| 0 <= a < b < i + 1 && permutation@[a] < n && permutation@[b] < n implies
                        #[trigger] permutation@[a] != #[trigger] permutation@[b] by {
                        if b == i && permutation@[a] == v {
                            assert(before[v as int]);
                        }
                    }
                }
            } else {
                out_of_bounds = true;
                proof {
                    assert forall|w: int| 0 <= w < n implies (#[trigger] seen@[w] <==> exists|t: int| 0 <= t < i + 1 && permutation@[t] == w) by {
                        if exists|t: int| 0 <= t < i + 1 && permutation@[t] == w {
                            let t = choose|t: int| 0 <= t < i + 1 && permutation@[t] == w;
                            assert(t < i);
                        }
                    }
                    assert(permutation@[i as int] >= n);
                }
            }
            i = i + 1;
        }
        if out_of_bounds {
            return Err(PermutationError::InvalidPermutation {
                error: string_of("Permutation can not have elements out of bounds"),
            });
        }
        Ok(Permutation { permutation })
    }

    /// The number of indices.
    pub fn size(&self) -> (n: usize)
        ensures
            n == self@.len(),
    {
        self.permutation.len()
    }

    /// The elements of `slice` in the order the permutation gives.
    pub fn try_apply<T: Clone>(&self, slice: &[T]) -> (res: Result<Vec<T>, PermutationError>)
        ensures
            res is Ok <==> slice@.len() == self@.len(),
            res matches Ok(v) ==> v@.len() == slice@.len() && forall|k: int| 0 <= k < v@.len() ==>
                cloned(slice@[self@[k] as int], #[trigger] v@[k]),
            res matches Err(e) ==> e == (PermutationError::PermutationSizeMismatch {
                permutation_size: self@.len() as usize, slice_length: slice@.len() as usize }),
    {
        proof { use_type_invariant(self); }
        let n = self.permutation.len();
        if slice.len() != n {
            return Err(PermutationError::PermutationSizeMismatch { permutation_size: n, slice_length: slice.len() });
        }
        let mut out: Vec<T> = Vec::new();
        let mut k: usize = 0;
        while k < n
            invariant
                n == self@.len() == slice@.len(),
                is_permutation(self@),
                k <= n,
                out@.len() == k,
                forall|j: int| 0 <= j < k ==> cloned(slice@[self@[j] as int], #[trigger] out@[j]),
            decreases n - k,
        {
            let idx = self.permutation[k];
            assert(self@[k as int] == idx);
            let x = slice[idx].clone();
            out.push(x);
            k = k + 1;
        }
        Ok(out)
    }
}

impl PermutationError {
    /// The error's message.
    pub open spec fn spec_message(&self) -> Seq<char> {
        match self {
            PermutationError::InvalidPermutation { error } => "Permutation is invalid "@ + error@,
            PermutationError::PermutationSizeMismatch { permutation_size, slice_length } =>
                "Application of a permutation to a slice with a different length "@
                    + nat_digits(*permutation_size as nat) + " != "@ + nat_digits(*slice_length as nat),
        }
    }

    /// The error's message.
    pub fn to_string(&self) -> (s: String)
        ensures
            s@ == self.spec_message(),
    {
        match self {
            PermutationError::InvalidPermutation { error } => {
                let mut s = string_of("Permutation is invalid ");
                push(&mut s, error.as_str());
                s
            },
            PermutationError::PermutationSizeMismatch { permutation_size, slice_length } => {
                let mut s = string_of("Application of a permutation to a slice with a different length ");
                let a = u64_to_string(*permutation_size as u64);
                push(&mut s, a.as_str());
                push(&mut s, " != ");
                let b = u64_to_string(*slice_length as u64);
                push(&mut s, b.as_str());
                s
            },
        }
    }
}

} // verus!
