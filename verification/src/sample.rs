//! Complex samples.
//!
//! A sample is a complex number of the `num` crate. The library never looks
//! inside a sample: it moves samples around, and every arithmetic step on them
//! goes through one of the trusted operations below, whose results are named
//! by uninterpreted spec functions. All structural bookkeeping (lengths,
//! positions, time stamps) is verified on top of these names.
use vstd::prelude::*;

verus! {

#[verifier::external_type_specification]
#[verifier::external_body]
#[verifier::reject_recursive_types(T)]
pub struct ExComplex<T>(num::complex::Complex<T>);

/// The sequence of `n` zero samples.
pub uninterp spec fn zero_block(n: int) -> Seq<num::complex::Complex64>;

/// The zero sample: the element every zero block repeats.
pub open spec fn czero() -> num::complex::Complex64 {
    zero_block(1)[0]
}

/// True when every element of `s` is the zero sample.
pub open spec fn all_zero(s: Seq<num::complex::Complex64>) -> bool {
    forall|i: int| 0 <= i < s.len() ==> s[i] == czero()
}

/// Relies on num's `Zero` impl for complex numbers: a vector of `n` copies of
/// the additive identity (complex samples are `Copy`, so all entries are the
/// same value).
#[verifier::external_body]
pub(crate) fn zeros(n: usize) -> (r: Vec<num::complex::Complex64>)
    ensures
        r@ == zero_block(n as int),
        r@.len() == n,
        all_zero(r@),
{
    vec![num::Zero::zero(); n]
}

/// The sum of two samples, as computed by num's complex addition.
pub uninterp spec fn add_c(
    a: num::complex::Complex64,
    b: num::complex::Complex64,
) -> num::complex::Complex64;

/// Relies on num's `Add` impl for complex numbers: componentwise addition,
/// a function of the two operands alone.
#[verifier::external_body]
pub(crate) fn c_add(a: num::complex::Complex64, b: num::complex::Complex64) -> (r:
    num::complex::Complex64)
    ensures
        r == add_c(a, b),
{
    a + b
}

/// The product of two samples, as computed by num's complex multiplication.
pub uninterp spec fn mul_c(
    a: num::complex::Complex64,
    b: num::complex::Complex64,
) -> num::complex::Complex64;

/// Relies on num's `Mul` impl for complex numbers: the complex product,
/// a function of the two operands alone.
#[verifier::external_body]
pub(crate) fn c_mul(a: num::complex::Complex64, b: num::complex::Complex64) -> (r:
    num::complex::Complex64)
    ensures
        r == mul_c(a, b),
{
    a * b
}

/// The complex conjugate of a sample.
pub uninterp spec fn conj_c(a: num::complex::Complex64) -> num::complex::Complex64;

/// Relies on num's `Complex::conj`: the conjugate, a function of the operand
/// alone.
#[verifier::external_body]
pub(crate) fn c_conj(a: num::complex::Complex64) -> (r: num::complex::Complex64)
    ensures
        r == conj_c(a),
{
    a.conj()
}

/// Elementwise product of two equally long sample sequences.
pub open spec fn mul_seq(
    a: Seq<num::complex::Complex64>,
    b: Seq<num::complex::Complex64>,
) -> Seq<num::complex::Complex64> {
    Seq::new(a.len(), |i: int| mul_c(a[i], b[i]))
}

/// Elementwise sum of two equally long sample sequences.
pub open spec fn add_seq(
    a: Seq<num::complex::Complex64>,
    b: Seq<num::complex::Complex64>,
) -> Seq<num::complex::Complex64> {
    Seq::new(a.len(), |i: int| add_c(a[i], b[i]))
}

/// Elementwise conjugate of a sample sequence.
pub open spec fn conj_seq(a: Seq<num::complex::Complex64>) -> Seq<num::complex::Complex64> {
    Seq::new(a.len(), |i: int| conj_c(a[i]))
}

/// Elementwise product, executable form.
pub fn mul_elementwise(a: &Vec<num::complex::Complex64>, b: &Vec<num::complex::Complex64>) -> (r:
    Vec<num::complex::Complex64>)
    requires
        a@.len() == b@.len(),
    ensures
        r@ == mul_seq(a@, b@),
{
    let mut r: Vec<num::complex::Complex64> = Vec::new();
    let mut i: usize = 0;
    while i < a.len()
        invariant
            i <= a@.len(),
            a@.len() == b@.len(),
            r@ == mul_seq(a@, b@).take(i as int),
        decreases a@.len() - i,
    {
        let p = c_mul(a[i], b[i]);
        r.push(p);
        assert(r@ =~= mul_seq(a@, b@).take(i + 1));
        i = i + 1;
    }
    assert(r@ =~= mul_seq(a@, b@));
    r
}

} // verus!
