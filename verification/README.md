# photonlayer

Verified decision core of a scalar-diffraction optical simulator with
gradient-trained phase masks.

- `src/` (Verus): the power-of-two grid rule and FFT bin layout (`grid`), the
  validation of propagation requests and the stage lists of every operator
  and its adjoint, with a proof over the symbolic stage lists (each stage's
  adjoint taken from the table FFT^H = N·IFFT, IFFT^H = N⁻¹·FFT, H^H = conj(H))
  that the adjoint pass is the adjoint of the forward pass (`propagate`), the
  same proof for the composed adjoint of multi-plane cascades (`cascade`), and the seeded Fisher–Yates minibatch schedule of training,
  proved to visit every sample once per epoch (`schedule`).
- `app/` (plain Rust): the floating-point half — complex samples, FFT,
  transfer functions, phase gradients, Adam, and the trainers — which executes
  the stage lists and schedules of the core.
- `tests/`: the core's contracts on concrete values, and numerical checks that
  run the stage lists over complex fields with a reference DFT (power
  conservation, diffraction of a point, adjoint identities, finite-difference
  gradient checks).
