use fourier::spectrum::average::{size, Linear, Logarithmic};
use fourier::spectrum::{self, average};
use fourier::Complex;

#[derive(Clone, Copy, Debug, PartialEq)]
struct Cpx {
    re: f64,
    im: f64,
}

fn c(re: f64, im: f64) -> Cpx {
    Cpx { re, im }
}

impl Complex for Cpx {
    fn zero() -> Self {
        c(0.0, 0.0)
    }

    fn one() -> Self {
        c(1.0, 0.0)
    }

    fn unit(num: i64, den: u64) -> Self {
        let angle = std::f64::consts::PI * num as f64 / den as f64;
        c(angle.cos(), angle.sin())
    }

    fn ratio(num: i64, den: u64) -> Self {
        c(num as f64 / den as f64, 0.0)
    }

    fn add(&self, other: &Self) -> Self {
        c(self.re + other.re, self.im + other.im)
    }

    fn sub(&self, other: &Self) -> Self {
        c(self.re - other.re, self.im - other.im)
    }

    fn mul(&self, other: &Self) -> Self {
        c(
            self.re * other.re - self.im * other.im,
            self.re * other.im + self.im * other.re,
        )
    }

    fn div(&self, other: &Self) -> Self {
        let den = other.re * other.re + other.im * other.im;
        c(
            (self.re * other.re + self.im * other.im) / den,
            (self.im * other.re - self.re * other.im) / den,
        )
    }

    fn conj(&self) -> Self {
        c(self.re, -self.im)
    }

    fn scale(&self, k: u64) -> Self {
        c(self.re * k as f64, self.im * k as f64)
    }

    fn unscale(&self, k: u64) -> Self {
        c(self.re / k as f64, self.im / k as f64)
    }

    fn magnitude(&self) -> Self {
        c((self.re * self.re + self.im * self.im).sqrt(), 0.0)
    }
}

#[test]
fn average_size() {
    assert_eq!(size::<Linear>(&3), 3);
    assert_eq!(size::<Logarithmic>(&(44100, 11, 1)), 11);
}

#[test]
fn mod_size() {
    assert_eq!(size::<Linear>(&3), 3);
    assert_eq!(size::<Logarithmic>(&(44100, 11, 1)), 11);
}

#[test]
fn index_for() {
    assert_eq!(spectrum::index_for(23, 1024, 44_100), 1);
    assert_eq!(spectrum::index_for(40_000, 1024, 44_100), 512);
}

#[test]
fn frequency() {
    assert_eq!(spectrum::frequency_for(0, 1024, 44_100), 11);
    assert_eq!(spectrum::frequency_for(256, 1024, 44_100), 11025);
    assert_eq!(spectrum::frequency_for(512, 1024, 44_100), 22039);
}

#[test]
fn index_for_low_frequencies_share_the_first_bin() {
    assert_eq!(spectrum::index_for(0, 1024, 44_100), 0);
    assert_eq!(spectrum::index_for(20, 1024, 44_100), 0);
}

#[test]
fn magnitudes_of_leading_bins() {
    let input = vec![c(3.0, 4.0), c(0.0, 1.0), c(1.0, 0.0), c(0.5, 0.0)];
    let output = spectrum::compute(&input);
    assert_eq!(output.len(), 3);
    assert!((output[0].re - 5.0).abs() < 1e-12);
    assert!((output[1].re - 1.0).abs() < 1e-12);
    assert!((output[2].re - 1.0).abs() < 1e-12);
}

#[test]
fn band_clamps_to_the_last_bin() {
    let input = vec![c(1.0, 0.0), c(2.0, 0.0), c(3.0, 0.0)];
    assert_eq!(*spectrum::band(&input, 1), c(2.0, 0.0));
    assert_eq!(*spectrum::band(&input, 9), c(3.0, 0.0));
}

#[test]
fn linear_average_of_the_leading_bins() {
    let input: Vec<Cpx> = (1..=4).map(|i| c(i as f64, 0.0)).collect();
    let output: Vec<Cpx> = average::compute::<Linear, Cpx>(&2, &input);
    assert_eq!(output.len(), 2);
    // the first band averages as many bins as there are bands
    assert!((output[0].re - 1.5).abs() < 1e-12);
    // later bands have no bins left under that cap
    assert!(output[1].re.is_nan());
}

#[test]
fn logarithmic_average_per_octave() {
    let input: Vec<Cpx> = (0..16).map(|i| c((i + 1) as f64, 0.0)).collect();
    let args = (64u32, 8u32, 1u32);
    assert_eq!(size::<Logarithmic>(&args), 2);
    let output: Vec<Cpx> = average::compute::<Logarithmic, Cpx>(&args, &input);
    assert_eq!(output.len(), 2);
    // bins 0..4 averaged over five bins, then bins 4..8 over five bins
    assert!((output[0].re - (1.0 + 2.0 + 3.0 + 4.0) / 5.0).abs() < 1e-12);
    assert!((output[1].re - (5.0 + 6.0 + 7.0 + 8.0) / 5.0).abs() < 1e-12);
}

#[test]
fn average_in_reuses_the_buffer() {
    let input: Vec<Cpx> = (1..=4).map(|i| c(i as f64, 0.0)).collect();
    let mut output = vec![c(9.0, 9.0); 2];
    average::compute_in::<Linear, Cpx>(&2, &input, &mut output);
    assert!((output[0].re - 1.5).abs() < 1e-12);
}
