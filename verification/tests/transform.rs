use fourier::transform::{bluestein, cooley_tukey, discrete, is_power_of_two};
use fourier::{Complex, Stride};

#[derive(Clone, Copy, Debug, PartialEq)]
struct Cpx {
    re: f64,
    im: f64,
}

fn c(re: f64, im: f64) -> Cpx {
    Cpx { re, im }
}

impl Complex for Cpx {
    fn zero() -> Self {
        c(0.0, 0.0)
    }

    fn one() -> Self {
        c(1.0, 0.0)
    }

    fn unit(num: i64, den: u64) -> Self {
        let angle = std::f64::consts::PI * num as f64 / den as f64;
        c(angle.cos(), angle.sin())
    }

    fn ratio(num: i64, den: u64) -> Self {
        c(num as f64 / den as f64, 0.0)
    }

    fn add(&self, other: &Self) -> Self {
        c(self.re + other.re, self.im + other.im)
    }

    fn sub(&self, other: &Self) -> Self {
        c(self.re - other.re, self.im - other.im)
    }

    fn mul(&self, other: &Self) -> Self {
        c(
            self.re * other.re - self.im * other.im,
            self.re * other.im + self.im * other.re,
        )
    }

    fn div(&self, other: &Self) -> Self {
        let den = other.re * other.re + other.im * other.im;
        c(
            (self.re * other.re + self.im * other.im) / den,
            (self.im * other.re - self.re * other.im) / den,
        )
    }

    fn conj(&self) -> Self {
        c(self.re, -self.im)
    }

    fn scale(&self, k: u64) -> Self {
        c(self.re * k as f64, self.im * k as f64)
    }

    fn unscale(&self, k: u64) -> Self {
        c(self.re / k as f64, self.im / k as f64)
    }

    fn magnitude(&self) -> Self {
        c((self.re * self.re + self.im * self.im).sqrt(), 0.0)
    }
}

fn reals(values: &[f64]) -> Vec<Cpx> {
    values.iter().map(|&re| c(re, 0.0)).collect()
}

fn assert_approx(actual: Cpx, expected: Cpx) {
    assert!(
        (actual.re - expected.re).abs() < 5e-3 && (actual.im - expected.im).abs() < 5e-3,
        "expected {expected:?}, got {actual:?}"
    );
}

fn assert_close(actual: Cpx, expected: Cpx, tolerance: f64) {
    assert!(
        (actual.re - expected.re).abs() < tolerance && (actual.im - expected.im).abs() < tolerance,
        "expected {expected:?}, got {actual:?}"
    );
}

#[test]
fn cooley_tukey_forward() {
    let input = reals(&[1.0, 1.0, 0.0, 0.0]);
    let mut output = vec![Cpx::zero(); 4];
    cooley_tukey::forward(&input, Stride::full(4), &mut output, Stride::full(4));

    assert_approx(output[0], c(2.00, 0.00));
    assert_approx(output[1], c(1.00, -1.00));
    assert_approx(output[2], c(0.00, 0.00));
    assert_approx(output[3], c(1.00, 1.00));
}

#[test]
fn cooley_tukey_inverse() {
    let input = reals(&[1.0, 1.0, 0.0, 0.0]);
    let mut output = vec![Cpx::zero(); 4];
    cooley_tukey::inverse(&input, Stride::full(4), &mut output, Stride::full(4));

    for value in output.iter_mut() {
        *value = value.unscale(4);
    }

    assert_approx(output[0], c(0.50, 0.00));
    assert_approx(output[1], c(0.25, 0.25));
    assert_approx(output[2], c(0.00, 0.00));
    assert_approx(output[3], c(0.25, -0.25));
}

#[test]
fn bluestein_forward() {
    let input = reals(&[1.0, 1.0, 0.0, 0.0, 0.5]);
    let mut output = vec![Cpx::zero(); 5];
    bluestein::forward(&input, Stride::full(5), &mut output, Stride::full(5));

    assert_approx(output[0], c(2.50, -0.001));
    assert_approx(output[1], c(1.46, -0.48));
    assert_approx(output[2], c(-0.21, -0.29));
    assert_approx(output[3], c(-0.21, 0.29));
    assert_approx(output[4], c(1.46, 0.48));
}

#[test]
fn bluestein_inverse() {
    let input = reals(&[1.0, 1.0, 0.0, 0.0, 0.5]);
    let mut output = vec![Cpx::zero(); 5];
    bluestein::inverse(&input, Stride::full(5), &mut output, Stride::full(5));

    for value in output.iter_mut() {
        *value = value.unscale(5);
    }

    assert_approx(output[0], c(0.50, -0.001));
    assert_approx(output[1], c(0.29, 0.10));
    assert_approx(output[2], c(-0.04, 0.06));
    assert_approx(output[3], c(-0.04, -0.06));
    assert_approx(output[4], c(0.29, -0.10));
}

/// A deterministic, length-dependent signal with values in [-1, 1].
fn signal(length: usize) -> Vec<Cpx> {
    (0..length)
        .map(|i| {
            let t = i as f64 + 1.0;
            c((0.7 * t).sin(), (1.3 * t).cos() * 0.5)
        })
        .collect()
}

#[test]
fn round_trip_recovers_input() {
    for length in [1usize, 2, 3, 4, 5, 7, 8, 12, 16, 31, 32, 64, 100] {
        let input = signal(length);
        let spectrum = fourier::forward(&input);
        let recovered = fourier::inverse(&spectrum);
        assert_eq!(recovered.len(), length);
        for (got, want) in recovered.iter().zip(input.iter()) {
            assert_close(*got, *want, 1e-6);
        }
    }
}

#[test]
fn agrees_with_reference_dft() {
    for length in 1usize..=64 {
        let input = signal(length);
        let fast = fourier::forward(&input);
        let mut naive = vec![Cpx::zero(); length];
        discrete::forward(&input, Stride::full(length), &mut naive, Stride::full(length));
        for (got, want) in fast.iter().zip(naive.iter()) {
            assert_close(*got, *want, 1e-6);
        }
    }
}

#[test]
fn forward_is_linear() {
    for length in [4usize, 6, 8, 13] {
        let xs = signal(length);
        let ys: Vec<Cpx> = signal(length).iter().map(|v| c(v.im + 0.2, v.re - 0.1)).collect();
        let a = c(0.75, -0.25);
        let b = c(-1.5, 0.5);
        let mixed: Vec<Cpx> = xs
            .iter()
            .zip(ys.iter())
            .map(|(x, y)| a.mul(x).add(&b.mul(y)))
            .collect();
        let lhs = fourier::forward(&mixed);
        let fx = fourier::forward(&xs);
        let fy = fourier::forward(&ys);
        for i in 0..length {
            let rhs = a.mul(&fx[i]).add(&b.mul(&fy[i]));
            assert_close(lhs[i], rhs, 1e-6);
        }
    }
}

#[test]
fn forward_conserves_energy() {
    for length in [1usize, 4, 8, 11, 16, 27] {
        let input = signal(length);
        let spectrum = fourier::forward(&input);
        let time_energy: f64 = input.iter().map(|v| v.re * v.re + v.im * v.im).sum();
        let frequency_energy: f64 = spectrum.iter().map(|v| v.re * v.re + v.im * v.im).sum();
        assert!(
            (frequency_energy - length as f64 * time_energy).abs() < 1e-6 * (1.0 + time_energy),
            "length {length}: {frequency_energy} != {length} * {time_energy}"
        );
    }
}

#[test]
fn dispatcher_matches_engines_bit_for_bit() {
    for length in [1usize, 2, 4, 8, 16, 64] {
        let input = signal(length);
        let dispatched = fourier::forward(&input);
        let mut direct = vec![Cpx::zero(); length];
        cooley_tukey::forward(&input, Stride::full(length), &mut direct, Stride::full(length));
        assert_eq!(dispatched, direct);
    }
    for length in [3usize, 5, 6, 12, 33] {
        let input = signal(length);
        let dispatched = fourier::forward(&input);
        let mut direct = vec![Cpx::zero(); length];
        bluestein::forward(&input, Stride::full(length), &mut direct, Stride::full(length));
        assert_eq!(dispatched, direct);
    }
}

#[test]
fn inverse_applies_the_scale_once() {
    let input = reals(&[1.0, 1.0, 0.0, 0.0]);
    let mut unscaled = vec![Cpx::zero(); 4];
    cooley_tukey::inverse(&input, Stride::full(4), &mut unscaled, Stride::full(4));
    let scaled = fourier::inverse(&input);
    for i in 0..4 {
        assert_close(scaled[i], unscaled[i].unscale(4), 1e-12);
    }
}

#[test]
fn transforms_leave_elements_outside_the_view_alone() {
    // interleaved input and output share one buffer shape: transform the
    // even elements of the input into the front half of the output
    let input = signal(8);
    let mut output: Vec<Cpx> = (0..8).map(|i| c(i as f64, -1.0)).collect();
    let before = output.clone();
    let iv = Stride { offset: 0, length: 4, step: 2 };
    let ov = Stride { offset: 0, length: 4, step: 1 };
    cooley_tukey::forward(&input, iv, &mut output, ov);
    for i in 4..8 {
        assert_eq!(output[i], before[i]);
    }
    let evens: Vec<Cpx> = (0..4).map(|i| input[2 * i]).collect();
    let direct = fourier::forward(&evens);
    for i in 0..4 {
        assert_close(output[i], direct[i], 1e-12);
    }
}

#[test]
fn empty_input_stays_empty() {
    let input: Vec<Cpx> = Vec::new();
    assert_eq!(fourier::forward(&input).len(), 0);
    assert_eq!(fourier::inverse(&input).len(), 0);
}

#[test]
fn single_element_passes_through() {
    let input = vec![c(0.4, -0.7)];
    let spectrum = fourier::forward(&input);
    assert_close(spectrum[0], c(0.4, -0.7), 1e-12);
}

#[test]
fn power_of_two_detection() {
    for n in [1usize, 2, 4, 8, 1024] {
        assert!(is_power_of_two(n));
    }
    for n in [0usize, 3, 6, 12, 1000] {
        assert!(!is_power_of_two(n));
    }
}
