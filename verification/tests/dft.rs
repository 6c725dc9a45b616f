use num::Complex;
use oryzae::sample::{Sample, Trig};
use oryzae::spectrum::dft::{dft, idft, kernel, DftDirection};

/// Single-precision samples.
#[derive(Clone, Copy, Debug, PartialEq)]
struct F32(f32);

impl Sample for F32 {
    fn of_int(n: i32) -> Self {
        F32(n as f32)
    }

    fn of_index(n: usize) -> Self {
        F32(n as f32)
    }

    fn sum(self, rhs: Self) -> Self {
        F32(self.0 + rhs.0)
    }

    fn difference(self, rhs: Self) -> Self {
        F32(self.0 - rhs.0)
    }

    fn product(self, rhs: Self) -> Self {
        F32(self.0 * rhs.0)
    }

    fn quotient(self, rhs: Self) -> Self {
        F32(self.0 / rhs.0)
    }

    fn negation(self) -> Self {
        F32(-self.0)
    }

    fn is_below(self, rhs: Self) -> bool {
        self.0 < rhs.0
    }

    fn is_at_least(self, rhs: Self) -> bool {
        self.0 >= rhs.0
    }

    fn from_int(n: i32) -> Self {
        F32(n as f32)
    }

    fn from_index(n: usize) -> Self {
        F32(n as f32)
    }

    fn plus(self, rhs: Self) -> Self {
        F32(self.0 + rhs.0)
    }

    fn minus(self, rhs: Self) -> Self {
        F32(self.0 - rhs.0)
    }

    fn times(self, rhs: Self) -> Self {
        F32(self.0 * rhs.0)
    }

    fn over(self, rhs: Self) -> Self {
        F32(self.0 / rhs.0)
    }

    fn negate(self) -> Self {
        F32(-self.0)
    }

    fn below(self, rhs: Self) -> bool {
        self.0 < rhs.0
    }

    fn at_least(self, rhs: Self) -> bool {
        self.0 >= rhs.0
    }
}

impl Trig for F32 {
    fn sine(self) -> Self {
        F32(self.0.sin())
    }

    fn cosine(self) -> Self {
        F32(self.0.cos())
    }

    fn sine_is_bounded(_x: Self) {}

    fn pi_value() -> Self {
        F32(std::f32::consts::PI)
    }

    fn sin(self) -> Self {
        F32(self.0.sin())
    }

    fn cos(self) -> Self {
        F32(self.0.cos())
    }

    fn pi() -> Self {
        F32(std::f32::consts::PI)
    }
}

fn frame(samples: &[f32]) -> Vec<F32> {
    samples.iter().map(|x| F32(*x)).collect()
}

fn plain(coefficients: &[Complex<F32>]) -> Vec<Complex<f32>> {
    coefficients.iter().map(|c| Complex::new(c.re.0, c.im.0)).collect()
}

fn reals(samples: &[F32]) -> Vec<f32> {
    samples.iter().map(|x| x.0).collect()
}

/// Whether `a` is `b` within `epsilon`, or within the relative precision of
/// the type.
fn close(a: f32, b: f32, epsilon: f32) -> bool {
    let distance = (a - b).abs();
    distance <= epsilon || distance <= a.abs().max(b.abs()) * f32::EPSILON
}

#[test]
fn test_out_dims() {
    let in_frame = frame(&[1.0f32]);
    let out = dft(&in_frame);
    assert_eq!(out.len(), 1);

    let in_frame = frame(&[1.0f32, 1.0f32]);
    let out = dft(&in_frame);
    assert_eq!(out.len(), 2);

    let in_frame = frame(&[1.0f32, 1.0f32, 1.0f32, 1.0f32]);
    let out = dft(&in_frame);
    assert_eq!(out.len(), 4);
}

#[test]
fn test_size_1() {
    let in_frame = frame(&[1.0f32]);
    let out = dft(&in_frame);
    assert_eq!(plain(&out), vec![Complex::new(1.0, 0.0)]);
}

#[test]
fn test_size_2() {
    let in_frame = frame(&[1.0f32, 1.0f32]);
    let out = plain(&dft(&in_frame));
    assert!(close(out[0].re, 2.0, 1e-6));
    assert!(close(out[0].im, 0.0, 1e-6));
    assert!(close(out[1].re, 0.0, 1e-6));
    assert!(close(out[1].im, 0.0, 1e-6));
}

#[test]
fn test_inv() {
    let in_frame = [1.0f32, 1.0f32];
    let dft_out = dft(&frame(&in_frame));
    let idft_out = idft(dft_out.as_slice());
    assert_eq!(in_frame, reals(&idft_out).as_slice());
}

#[test]
fn empty_frame_gives_empty_spectrum() {
    assert!(dft::<F32>(&[]).is_empty());
    assert!(idft::<F32>(&[]).is_empty());
}

#[test]
fn round_trip_reconstructs_small_frames() {
    let frames: Vec<Vec<f32>> = vec![
        vec![0.5],
        vec![1.0, -1.0],
        vec![1.0, 2.0, 3.0],
        vec![0.25, -0.5, 0.75, 1.0],
        vec![1.0, 0.0, -1.0, 0.0, 1.0],
        vec![3.0, 1.0, 4.0, 1.0, 5.0, 9.0, 2.0, 6.0],
    ];
    for samples in frames {
        let spectrum = dft(&frame(&samples));
        assert_eq!(spectrum.len(), samples.len());
        let back = reals(&idft(&spectrum));
        assert_eq!(back.len(), samples.len());
        for (x, y) in samples.iter().zip(back.iter()) {
            assert!((x - y).abs() < 1.0e-4, "{:?} -> {:?}", samples, back);
        }
    }
}

#[test]
fn spectrum_of_an_alternating_frame() {
    let out = plain(&dft(&frame(&[1.0, -1.0, 1.0, -1.0])));
    let expected = [0.0f32, 0.0, 4.0, 0.0];
    for (c, re) in out.iter().zip(expected.iter()) {
        assert!((c.re - re).abs() < 1.0e-5);
        assert!(c.im.abs() < 1.0e-5);
    }
}

#[test]
fn spectrum_of_one_cycle_turns_with_the_forward_sign() {
    let out = plain(&dft(&frame(&[0.0, 1.0, 0.0, -1.0])));
    assert!(out[0].re.abs() < 1.0e-5 && out[0].im.abs() < 1.0e-5);
    assert!(out[1].re.abs() < 1.0e-5 && (out[1].im - 2.0).abs() < 1.0e-5);
    assert!(out[2].re.abs() < 1.0e-5 && out[2].im.abs() < 1.0e-5);
    assert!(out[3].re.abs() < 1.0e-5 && (out[3].im + 2.0).abs() < 1.0e-5);
}

#[test]
fn kernel_scales_by_the_normalization() {
    let points = vec![Complex::new(F32(1.0), F32(0.0)), Complex::new(F32(1.0), F32(0.0))];
    let forward = plain(&kernel(&points, F32(1.0), DftDirection::Forward));
    let halved = plain(&kernel(&points, F32(0.5), DftDirection::Forward));
    for (a, b) in forward.iter().zip(halved.iter()) {
        assert_eq!(a.re * 0.5, b.re);
        assert_eq!(a.im * 0.5, b.im);
    }
    let inverse = plain(&kernel(&points, F32(1.0), DftDirection::Inverse));
    assert_eq!(inverse[0], Complex::new(2.0, 0.0));
    assert_eq!(inverse[1].im, -forward[1].im);
}
