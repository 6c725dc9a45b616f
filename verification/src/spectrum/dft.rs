use crate::sample::{Sample, Trig};
use num::Complex;
use vstd::prelude::*;

verus! {

/// The direction of a transform.
#[derive(Debug, Clone, Copy, PartialEq, Eq, Structural)]
pub enum DftDirection {
    Forward,
    Inverse,
}

/// The complex number zero.
pub open spec fn complex_zero<S: Sample>() -> Complex<S> {
    Complex { re: S::of_int(0), im: S::of_int(0) }
}

/// The sum of two complex numbers, part by part.
pub open spec fn complex_sum<S: Sample>(a: Complex<S>, b: Complex<S>) -> Complex<S> {
    Complex { re: a.re.sum(b.re), im: a.im.sum(b.im) }
}

/// The product of two complex numbers:
/// `(a.re * b.re - a.im * b.im) + i (a.re * b.im + a.im * b.re)`.
pub open spec fn complex_product<S: Sample>(a: Complex<S>, b: Complex<S>) -> Complex<S> {
    Complex {
        re: a.re.product(b.re).difference(a.im.product(b.im)),
        im: a.re.product(b.im).sum(a.im.product(b.re)),
    }
}

/// A complex number with both parts multiplied by `factor`.
pub open spec fn complex_scaled<S: Sample>(a: Complex<S>, factor: S) -> Complex<S> {
    Complex { re: a.re.product(factor), im: a.im.product(factor) }
}

/// The complex number of length one at the angle `theta`.
pub open spec fn unit_at<S: Trig>(theta: S) -> Complex<S> {
    Complex { re: S::of_int(1).product(theta.cosine()), im: S::of_int(1).product(theta.sine()) }
}

/// The angle between neighbouring roots of unity for `n` points: `2π / n`
/// forward, `-2π / n` for the inverse.
pub open spec fn angle_step<S: Trig>(n: usize, direction: DftDirection) -> S {
    match direction {
        DftDirection::Forward => S::of_int(2).product(S::pi_value()).quotient(S::of_index(n)),
        DftDirection::Inverse => S::of_int((-2) as i32).product(S::pi_value()).quotient(
            S::of_index(n),
        ),
    }
}

/// The sum of the first `m` terms of coefficient `j`: term `k` is the input's
/// point `k` turned by the angle `step * (j * k)`. The terms are added up from
/// zero in their order.
pub open spec fn partial_sum<S: Trig>(frame: Seq<Complex<S>>, step: S, j: int, m: int) -> Complex<
    S,
>
    decreases m,
{
    if m <= 0 {
        complex_zero()
    } else {
        complex_sum(
            partial_sum(frame, step, j, m - 1),
            complex_product(
                unit_at(step.product(S::of_index((j * (m - 1)) as usize))),
                frame[m - 1],
            ),
        )
    }
}

/// Coefficient `j` of the transform of `frame`: the sum of all terms, times
/// `normalization`.
pub open spec fn coefficient<S: Trig>(
    frame: Seq<Complex<S>>,
    normalization: S,
    direction: DftDirection,
    j: int,
) -> Complex<S> {
    complex_scaled(
        partial_sum(frame, angle_step::<S>(frame.len() as usize, direction), j, frame.len() as int),
        normalization,
    )
}

/// The real sequence `frame` as complex numbers without imaginary part.
pub open spec fn as_complex<S: Sample>(frame: Seq<S>) -> Seq<Complex<S>> {
    Seq::new(frame.len(), |k: int| Complex { re: frame[k], im: S::of_int(0) })
}

/// Whether the products of two indices into a frame of `n` points fit a `usize`.
pub open spec fn indices_fit(n: nat) -> bool {
    n == 0 || (n - 1) * (n - 1) <= usize::MAX
}

fn complex_mul<S: Sample>(a: Complex<S>, b: Complex<S>) -> (c: Complex<S>)
    ensures
        c == complex_product(a, b),
{
    let re = a.re.times(b.re).minus(a.im.times(b.im));
    let im = a.re.times(b.im).plus(a.im.times(b.re));
    Complex::new(re, im)
}

fn from_polar<S: Trig>(r: S, theta: S) -> (c: Complex<S>)
    ensures
        c.re == r.product(theta.cosine()),
        c.im == r.product(theta.sine()),
{
    Complex::new(r.times(theta.cos()), r.times(theta.sin()))
}

/// The transform of a real sequence: `N` points give `N` complex
/// coefficients, not normalized.
pub fn dft<S: Trig>(in_frame: &[S]) -> (out: Vec<Complex<S>>)
    requires
        indices_fit(in_frame@.len()),
    ensures
        out@.len() == in_frame@.len(),
        forall|j: int|
            0 <= j < out@.len() ==> (#[trigger] out@[j]) == coefficient(
                as_complex(in_frame@),
                S::of_int(1),
                DftDirection::Forward,
                j,
            ),
{
    let mut complex_frame: Vec<Complex<S>> = Vec::new();
    let mut k: usize = 0;
    while k < in_frame.len()
        invariant
            k <= in_frame@.len(),
            complex_frame@.len() == k,
            forall|i: int| 0 <= i < k ==> (#[trigger] complex_frame@[i]) == as_complex(in_frame@)[i],
        decreases in_frame@.len() - k,
    {
        complex_frame.push(Complex::new(in_frame[k], S::from_int(0)));
        k += 1;
    }
    assert(complex_frame@ =~= as_complex(in_frame@));
    kernel(complex_frame.as_slice(), S::from_int(1), DftDirection::Forward)
}

/// The inverse transform: `N` complex coefficients give `N` real samples, the
/// real parts of the inverse coefficients normalized by `1 / N`.
pub fn idft<S: Trig>(in_frame: &[Complex<S>]) -> (out: Vec<S>)
    requires
        indices_fit(in_frame@.len()),
    ensures
        out@.len() == in_frame@.len(),
        forall|j: int|
            0 <= j < out@.len() ==> (#[trigger] out@[j]) == coefficient(
                in_frame@,
                S::of_int(1).quotient(S::of_index(in_frame@.len() as usize)),
                DftDirection::Inverse,
                j,
            ).re,
{
    let n = in_frame.len();
    let normalization = S::from_int(1).over(S::from_index(n));
    let coefficients = kernel(in_frame, normalization, DftDirection::Inverse);
    let mut out: Vec<S> = Vec::new();
    let mut j: usize = 0;
    while j < coefficients.len()
        invariant
            j <= coefficients@.len(),
            out@.len() == j,
            forall|i: int| 0 <= i < j ==> (#[trigger] out@[i]) == coefficients@[i].re,
        decreases coefficients@.len() - j,
    {
        out.push(coefficients[j].re);
        j += 1;
    }
    out
}

/// The transform proper: coefficient `j` is the sum over `k` of point `k`
/// times `e^(i * step * j * k)`, times `normalization`.
pub fn kernel<S: Trig>(in_frame: &[Complex<S>], normalization: S, direction: DftDirection) -> (out:
    Vec<Complex<S>>)
    requires
        indices_fit(in_frame@.len()),
    ensures
        out@.len() == in_frame@.len(),
        forall|j: int|
            0 <= j < out@.len() ==> (#[trigger] out@[j]) == coefficient(
                in_frame@,
                normalization,
                direction,
                j,
            ),
{
    let n = in_frame.len();
    let th = match direction {
        DftDirection::Forward => S::from_int(2).times(S::pi()).over(S::from_index(n)),
        DftDirection::Inverse => S::from_int(-2).times(S::pi()).over(S::from_index(n)),
    };
    let mut out: Vec<Complex<S>> = Vec::new();
    let mut j: usize = 0;
    while j < n
        invariant
            j <= n,
            n == in_frame@.len(),
            indices_fit(n as nat),
            th == angle_step::<S>(n, direction),
            out@.len() == j,
            forall|i: int|
                0 <= i < j ==> (#[trigger] out@[i]) == coefficient(
                    in_frame@,
                    normalization,
                    direction,
                    i,
                ),
        decreases n - j,
    {
        let mut sum = Complex::new(S::from_int(0), S::from_int(0));
        let mut k: usize = 0;
        while k < n
            invariant
                k <= n,
                j < n,
                n == in_frame@.len(),
                indices_fit(n as nat),
                sum == partial_sum(in_frame@, th, j as int, k as int),
            decreases n - k,
        {
            assert(j * k <= (n - 1) * (n - 1)) by (nonlinear_arith)
                requires
                    j <= n - 1,
                    k <= n - 1,
            ;
            let w = from_polar(S::from_int(1), th.times(S::from_index(j * k)));
            let term = complex_mul(w, in_frame[k]);
            sum = Complex::new(sum.re.plus(term.re), sum.im.plus(term.im));
            k += 1;
        }
        sum = Complex::new(sum.re.times(normalization), sum.im.times(normalization));
        out.push(sum);
        j += 1;
    }
    out
}

} // verus!
