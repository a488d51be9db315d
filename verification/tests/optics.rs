//! Numerical checks of the propagation operators: the stage lists the library
//! hands out are executed here over `f64` complex samples by a direct
//! (reference) DFT, with the transfer functions built on the library's FFT bin
//! layout, and the resulting fields are held to the physics the operators
//! promise.
use photonlayer::grid::fft_bins;
use photonlayer::propagate::{propagate, PropKind, PropagationMode, Propagator, Stage, TransferKind};
use std::f64::consts::PI;

/// Optics of the test bench: green light on a fine-pitch modulator.
const WAVELENGTH_M: f64 = 532e-9;
const PIXEL_PITCH_M: f64 = 8e-6;

#[derive(Clone, Copy, Debug, PartialEq)]
struct C {
    re: f64,
    im: f64,
}

impl C {
    const ZERO: C = C { re: 0.0, im: 0.0 };
    fn from_phase(t: f64) -> C {
        C { re: t.cos(), im: t.sin() }
    }
    fn mul(self, o: C) -> C {
        C { re: self.re * o.re - self.im * o.im, im: self.re * o.im + self.im * o.re }
    }
    fn add(self, o: C) -> C {
        C { re: self.re + o.re, im: self.im + o.im }
    }
    fn sub(self, o: C) -> C {
        C { re: self.re - o.re, im: self.im - o.im }
    }
    fn scale(self, s: f64) -> C {
        C { re: self.re * s, im: self.im * s }
    }
    fn conj(self) -> C {
        C { re: self.re, im: -self.im }
    }
    fn norm_sqr(self) -> f64 {
        self.re * self.re + self.im * self.im
    }
    fn abs(self) -> f64 {
        self.norm_sqr().sqrt()
    }
}

/// Direct 1-D DFT of `x` (`sign = -1` forward, `+1` inverse, unnormalised).
fn dft(x: &[C], sign: f64) -> Vec<C> {
    let n = x.len();
    (0..n)
        .map(|k| {
            x.iter().enumerate().fold(C::ZERO, |acc, (j, &v)| {
                let t = sign * 2.0 * PI * ((j * k) % n) as f64 / n as f64;
                acc.add(v.mul(C::from_phase(t)))
            })
        })
        .collect()
}

/// 2-D DFT over a row-major `w × h` grid; the inverse carries `1/(w·h)`.
fn dft_2d(data: &mut [C], w: usize, h: usize, inverse: bool) {
    let sign = if inverse { 1.0 } else { -1.0 };
    for r in 0..h {
        let row = dft(&data[r * w..(r + 1) * w], sign);
        data[r * w..(r + 1) * w].copy_from_slice(&row);
    }
    for c in 0..w {
        let col: Vec<C> = (0..h).map(|r| data[r * w + c]).collect();
        let out = dft(&col, sign);
        for r in 0..h {
            data[r * w + c] = out[r];
        }
    }
    if inverse {
        let s = 1.0 / (w * h) as f64;
        data.iter_mut().for_each(|v| *v = v.scale(s));
    }
}

/// Transfer function of `kind` for a `w × h` grid at distance `z_m`, row-major.
fn transfer_kernel(w: usize, h: usize, z_m: f64, kind: TransferKind) -> Vec<C> {
    let fx: Vec<f64> = fft_bins(w).iter().map(|&k| k as f64 / (w as f64 * PIXEL_PITCH_M)).collect();
    let fy: Vec<f64> = fft_bins(h).iter().map(|&k| k as f64 / (h as f64 * PIXEL_PITCH_M)).collect();
    let lambda = WAVELENGTH_M;
    let k = 2.0 * PI / lambda;
    let mut hk = vec![C::ZERO; w * h];
    for row in 0..h {
        for col in 0..w {
            let (fxx, fyy) = (fx[col], fy[row]);
            hk[row * w + col] = match kind {
                TransferKind::Fresnel => C::from_phase(-PI * lambda * z_m * (fxx * fxx + fyy * fyy)),
                TransferKind::AngularSpectrum => {
                    let arg = 1.0 - (lambda * fxx).powi(2) - (lambda * fyy).powi(2);
                    if arg <= 0.0 {
                        C::ZERO
                    } else {
                        C::from_phase(k * z_m * arg.sqrt())
                    }
                }
            };
        }
    }
    hk
}

/// Apply `stages` in order to a row-major `w × h` field.
fn run(stages: &[Stage], data: &mut [C], w: usize, h: usize, hk: &[C], masks: &[Vec<f64>]) {
    for s in stages {
        match s {
            Stage::Checkerboard => {
                for y in 0..h {
                    for x in 0..w {
                        if (x + y) % 2 == 1 {
                            data[y * w + x] = data[y * w + x].scale(-1.0);
                        }
                    }
                }
            }
            Stage::ForwardFft => dft_2d(data, w, h, false),
            Stage::InverseFft => dft_2d(data, w, h, true),
            Stage::UnitaryScale => {
                let norm = 1.0 / ((w * h) as f64).sqrt();
                data.iter_mut().for_each(|v| *v = v.scale(norm));
            }
            Stage::MultiplyKernel => {
                data.iter_mut().zip(hk).for_each(|(v, k)| *v = v.mul(*k));
            }
            Stage::MultiplyConjKernel => {
                data.iter_mut().zip(hk).for_each(|(v, k)| *v = v.mul(k.conj()));
            }
            Stage::MultiplyPhase(p) => {
                data.iter_mut().zip(&masks[*p]).for_each(|(v, &t)| *v = v.mul(C::from_phase(t)));
            }
            Stage::MultiplyConjPhase(p) => {
                data.iter_mut().zip(&masks[*p]).for_each(|(v, &t)| *v = v.mul(C::from_phase(-t)));
            }
        }
    }
}

/// Propagate an `n × n` field with the one-shot operator of `mode`.
fn propagate_field(field: &[C], n: usize, mode: PropagationMode, z_m: f64) -> Vec<C> {
    let stages = propagate(n, n, mode).unwrap();
    let hk = match mode {
        PropagationMode::Fresnel => transfer_kernel(n, n, z_m, TransferKind::Fresnel),
        PropagationMode::AngularSpectrum => transfer_kernel(n, n, z_m, TransferKind::AngularSpectrum),
        PropagationMode::Fraunhofer => Vec::new(),
    };
    let mut out = field.to_vec();
    run(&stages, &mut out, n, n, &hk, &[]);
    out
}

fn point_field(n: usize) -> Vec<C> {
    let mut f = vec![C::ZERO; n * n];
    f[(n / 2) * n + n / 2] = C { re: 1.0, im: 0.0 };
    f
}

fn power(f: &[C]) -> f64 {
    f.iter().map(|c| c.norm_sqr()).sum()
}

#[test]
fn angular_spectrum_conserves_power() {
    let f = point_field(32);
    let out = propagate_field(&f, 32, PropagationMode::AngularSpectrum, 2.0e-3);
    let p0 = power(&f);
    let p1 = power(&out);
    // Unitary transfer fn (ignoring evanescent cutoff) -> power preserved.
    assert!((p1 - p0).abs() / p0 < 0.05, "power {p0} -> {p1}");
}

#[test]
fn point_spreads_under_propagation() {
    let f = point_field(32);
    let out = propagate_field(&f, 32, PropagationMode::Fresnel, 5.0e-3);
    // The single bright pixel should diffract into many pixels.
    let nonzero = out.iter().filter(|c| c.norm_sqr() > 1e-6).count();
    assert!(nonzero > 10, "point did not spread: {nonzero} nonzero");
}

#[test]
fn fraunhofer_of_point_is_uniform() {
    let f = point_field(16);
    let out = propagate_field(&f, 16, PropagationMode::Fraunhofer, 0.0);
    // FT of a centered delta -> uniform magnitude everywhere.
    let mags: Vec<f64> = out.iter().map(|c| c.abs()).collect();
    let mx = mags.iter().cloned().fold(0.0, f64::max);
    let mn = mags.iter().cloned().fold(f64::MAX, f64::min);
    assert!((mx - mn).abs() < 1e-3, "not uniform: {mn}..{mx}");
}

/// A small deterministic LCG, used only here to seed a smooth random field.
fn lcg(state: &mut u64) -> f64 {
    *state = state
        .wrapping_mul(6364136223846793005)
        .wrapping_add(1442695040888963407);
    ((*state >> 40) as f64) / (1u32 << 24) as f64
}

/// Adjoint identity `<P(a), b> == <a, P^H(b)>` (Hermitian inner product).
#[test]
fn backward_is_exact_adjoint_of_forward() {
    fn hdot(x: &[C], y: &[C]) -> C {
        x.iter().zip(y.iter()).fold(C::ZERO, |acc, (&xi, &yi)| acc.add(xi.conj().mul(yi)))
    }
    for &mode in &[PropagationMode::Fresnel, PropagationMode::AngularSpectrum] {
        let n = 16;
        let prop = Propagator::new(n, n, mode).unwrap();
        let kind = match prop.kind() {
            PropKind::Transfer(k) => k,
            PropKind::Fraunhofer => unreachable!(),
        };
        let hk = transfer_kernel(n, n, 3.0e-3, kind);
        let mut s = 0x1234_5678_9abc_def0u64;
        let a: Vec<C> = (0..n * n)
            .map(|_| {
                let amp = lcg(&mut s);
                let ph = (lcg(&mut s) - 0.5) * 0.6;
                C::from_phase(ph).scale(amp)
            })
            .collect();
        let theta: Vec<f64> = (0..n * n).map(|_| lcg(&mut s) * 2.0 * PI).collect();
        let b: Vec<C> = theta.iter().map(|&t| C::from_phase(t)).collect();

        let mut pa = a.clone();
        run(&prop.propagate_into(pa.len()).unwrap(), &mut pa, n, n, &hk, &[]);
        let mut phb = b.clone();
        run(&prop.backward_into(phb.len()).unwrap(), &mut phb, n, n, &hk, &[]);

        let lhs = hdot(&pa, &b);
        let rhs = hdot(&a, &phb);
        let err = lhs.sub(rhs).abs() / lhs.abs().max(1.0);
        assert!(err < 1e-4, "{mode:?} adjoint identity broken: <Pa,b>={lhs:?} <a,P^Hb>={rhs:?} rel={err:e}");
    }
}

/// The composed adjoint of a two-plane cascade: the backward pass followed by
/// the first plane's conjugate mask satisfies `<F a, b> == <a, F^H b>`.
#[test]
fn cascade_backward_is_adjoint_of_forward() {
    fn hdot(x: &[C], y: &[C]) -> C {
        x.iter().zip(y.iter()).fold(C::ZERO, |acc, (&xi, &yi)| acc.add(xi.conj().mul(yi)))
    }
    let n = 8;
    let prop = Propagator::new(n, n, PropagationMode::AngularSpectrum).unwrap();
    let hk = transfer_kernel(n, n, 3.0e-3, TransferKind::AngularSpectrum);
    let mut s = 0xC0FF_EE12_3456_78u64;
    let masks: Vec<Vec<f64>> = (0..2).map(|_| (0..n * n).map(|_| lcg(&mut s) * 2.0 * PI).collect()).collect();
    let a: Vec<C> = (0..n * n).map(|_| C::from_phase(lcg(&mut s) * 6.0).scale(lcg(&mut s))).collect();
    let b: Vec<C> = (0..n * n).map(|_| C::from_phase(lcg(&mut s) * 6.0).scale(lcg(&mut s))).collect();

    let mut fa = a.clone();
    run(&prop.cascade_forward_plan(2), &mut fa, n, n, &hk, &masks);
    let mut fhb = b.clone();
    let mut back = prop.cascade_backward_plan(2);
    back.push(Stage::MultiplyConjPhase(0));
    run(&back, &mut fhb, n, n, &hk, &masks);

    let lhs = hdot(&fa, &b);
    let rhs = hdot(&a, &fhb);
    assert!(lhs.sub(rhs).abs() / lhs.abs().max(1.0) < 1e-9, "{lhs:?} vs {rhs:?}");
}

/// Seeded incident field, phase and signed sensor weights on an `n × n` grid,
/// with the propagator and transfer function of `mode` at 3 mm.
fn grad_sample(n: usize, mode: PropagationMode) -> (Propagator, Vec<C>, Vec<C>, Vec<f64>, Vec<f64>) {
    let prop = Propagator::new(n, n, mode).unwrap();
    let kind = match prop.kind() {
        PropKind::Transfer(k) => k,
        PropKind::Fraunhofer => unreachable!(),
    };
    let hk = transfer_kernel(n, n, 3.0e-3, kind);
    let mut s = 0x1234_5678_9abc_def0u64;
    let u0: Vec<C> = (0..n * n)
        .map(|_| {
            let a = lcg(&mut s);
            let ph = (lcg(&mut s) - 0.5) * 0.6;
            C::from_phase(ph).scale(a)
        })
        .collect();
    let theta: Vec<f64> = (0..n * n).map(|_| lcg(&mut s) * 2.0 * PI).collect();
    let w: Vec<f64> = (0..n * n).map(|_| lcg(&mut s) - 0.5).collect();
    (prop, hk, u0, theta, w)
}

/// `L = Σ_k w[k] · |P(u0 ⊙ e^{iθ})[k]|²` through the library's loss stages.
fn intensity_loss(prop: &Propagator, hk: &[C], u0: &[C], theta: &[f64], w: &[f64]) -> f64 {
    let n = prop.width();
    let stages = prop.intensity_loss_plan(u0.len(), theta.len(), w.len()).unwrap();
    let mut y: Vec<C> = u0.iter().zip(theta).map(|(&c, &t)| c.mul(C::from_phase(t))).collect();
    run(&stages, &mut y, n, n, hk, &[]);
    y.iter().zip(w).map(|(yk, &wk)| wk * yk.norm_sqr()).sum()
}

/// `dL/dθ = 2·Im(conj(u1) ⊙ P^H(w ⊙ P(u1)))` through the library's gradient
/// stages.
fn phase_gradient(prop: &Propagator, hk: &[C], u0: &[C], theta: &[f64], w: &[f64]) -> Vec<f64> {
    let n = prop.width();
    let (fwd, bwd) = prop.phase_gradient_plan(u0.len(), theta.len(), w.len()).unwrap();
    let u1: Vec<C> = u0.iter().zip(theta).map(|(&c, &t)| c.mul(C::from_phase(t))).collect();
    let mut y = u1.clone();
    run(&fwd, &mut y, n, n, hk, &[]);
    let mut g: Vec<C> = y.iter().zip(w).map(|(yk, &wk)| yk.scale(wk)).collect();
    run(&bwd, &mut g, n, n, hk, &[]);
    u1.iter().zip(&g).map(|(u, gk)| 2.0 * u.conj().mul(*gk).im).collect()
}

#[test]
fn phase_gradient_matches_finite_difference() {
    for &mode in &[PropagationMode::Fresnel, PropagationMode::AngularSpectrum] {
        let n = 16;
        let (prop, hk, u0, theta, w) = grad_sample(n, mode);
        let analytic = phase_gradient(&prop, &hk, &u0, &theta, &w);
        let eps = 1e-2f64;
        let mut num = 0.0f64;
        let mut den = 0.0f64;
        let gmax = analytic.iter().cloned().fold(0.0f64, |m, v| m.max(v.abs()));
        let entry_floor = 0.05 * gmax;
        for k in 0..n * n {
            let mut tp = theta.clone();
            tp[k] += eps;
            let mut tm = theta.clone();
            tm[k] -= eps;
            let fd = (intensity_loss(&prop, &hk, &u0, &tp, &w) - intensity_loss(&prop, &hk, &u0, &tm, &w)) / (2.0 * eps);
            let a = analytic[k];
            num += (a - fd) * (a - fd);
            den += a * a;
            if a.abs() >= entry_floor {
                let rel = (a - fd).abs() / a.abs().max(fd.abs());
                assert!(rel <= 1e-2, "{mode:?} grad mismatch at {k}: analytic={a:e} fd={fd:e} rel={rel:e}");
            }
        }
        let rel_l2 = (num / den.max(1e-30)).sqrt();
        assert!(rel_l2 <= 1e-2, "{mode:?} analytic gradient disagrees with FD: rel_L2={rel_l2:e}");
        assert!(gmax > 1e-4, "{mode:?} gradient is degenerate (all ~0)");
    }
}

#[test]
fn one_descent_step_decreases_loss() {
    let n = 16;
    let (prop, hk, u0, theta, w) = grad_sample(n, PropagationMode::Fresnel);
    let l0 = intensity_loss(&prop, &hk, &u0, &theta, &w);
    let grad = phase_gradient(&prop, &hk, &u0, &theta, &w);
    let gnorm2: f64 = grad.iter().map(|g| g * g).sum();
    assert!(gnorm2 > 0.0, "gradient vanished");
    let lr = 1e-2f64;
    let theta1: Vec<f64> = theta.iter().zip(grad.iter()).map(|(&t, &g)| t - lr * g).collect();
    let l1 = intensity_loss(&prop, &hk, &u0, &theta1, &w);
    assert!(l1 < l0, "descent did not reduce loss: {l0} -> {l1}");
}
