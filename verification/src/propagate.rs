//! Scalar diffraction propagation: which requests are valid and which
//! transforms make up each operator.
//!
//! Three propagation models are supported: Fresnel near-field, Fraunhofer
//! far-field and the angular-spectrum method, on a power-of-two complex grid.
//! A request is answered with the ordered list of [`Stage`]s that the
//! propagation applies to the field, first stage first; the stages themselves
//! (FFT, multiplication by the transfer function `H`, ...) are carried out by
//! the caller over its complex samples.
use vstd::prelude::*;
use crate::error::PhotonError;
use crate::grid::is_pow2;
use crate::grid::is_power_of_two;

verus! {

/// Propagation model.
#[derive(Clone, Copy, Debug, PartialEq, Eq, Structural)]
pub enum PropagationMode {
    /// Fresnel near-field: quadratic-phase transfer function.
    Fresnel,
    /// Fraunhofer far-field: a centred, normalised Fourier transform.
    Fraunhofer,
    /// Angular-spectrum method: exact free-space transfer function with an
    /// evanescent cutoff.
    AngularSpectrum,
}

/// Transfer function of a transfer-function propagator.
#[derive(Clone, Copy, Debug, PartialEq, Eq, Structural)]
pub enum TransferKind {
    Fresnel,
    AngularSpectrum,
}

/// The operator a [`Propagator`] applies.
#[derive(Clone, Copy, Debug, PartialEq, Eq, Structural)]
pub enum PropKind {
    /// Centred Fourier transform, scaled to keep the total power in range.
    Fraunhofer,
    /// `IFFT(H ⊙ FFT(u))` with the precomputed transfer function `H` of the
    /// given kind (row-major, one entry per grid sample).
    Transfer(TransferKind),
}

/// One linear transform applied to a whole field.
#[derive(Clone, Copy, Debug, PartialEq, Eq, Structural)]
pub enum Stage {
    /// Multiply sample `(x, y)` by `(-1)^(x+y)`; folds the `fftshift` of the
    /// spectrum into the input.
    Checkerboard,
    /// Unnormalised 2-D FFT.
    ForwardFft,
    /// 2-D inverse FFT, carrying the `1/N` factor (`N = width · height`).
    InverseFft,
    /// Multiply by the real scalar `1/sqrt(N)`.
    UnitaryScale,
    /// Multiply pointwise by the transfer function `H`.
    MultiplyKernel,
    /// Multiply pointwise by `conj(H)`.
    MultiplyConjKernel,
    /// Multiply pointwise by the phase mask `e^{iθ}` of cascade plane `p`.
    MultiplyPhase(usize),
    /// Multiply pointwise by `e^{-iθ}` of cascade plane `p`.
    MultiplyConjPhase(usize),
}

/// Operator that a propagation model selects.
pub open spec fn kind_of(mode: PropagationMode) -> PropKind {
    match mode {
        PropagationMode::Fraunhofer => PropKind::Fraunhofer,
        PropagationMode::Fresnel => PropKind::Transfer(TransferKind::Fresnel),
        PropagationMode::AngularSpectrum => PropKind::Transfer(TransferKind::AngularSpectrum),
    }
}

/// Stages of the forward operator, first applied first.
pub open spec fn forward_plan(kind: PropKind) -> Seq<Stage> {
    match kind {
        PropKind::Fraunhofer => seq![Stage::Checkerboard, Stage::ForwardFft, Stage::UnitaryScale],
        PropKind::Transfer(_) => seq![Stage::ForwardFft, Stage::MultiplyKernel, Stage::InverseFft],
    }
}

/// Stages of the adjoint of a transfer-function operator:
/// `IFFT(conj(H) ⊙ FFT(r))`.
pub open spec fn transfer_backward_plan() -> Seq<Stage> {
    seq![Stage::ForwardFft, Stage::MultiplyConjKernel, Stage::InverseFft]
}

/// Adjoint of one stage, as a power of `N` times a stage. With the unnormalised
/// forward FFT and the `1/N` inverse, `FFT^H = N · IFFT` and
/// `IFFT^H = N^-1 · FFT`; the checkerboard and the real scale are self-adjoint,
/// and the adjoint of multiplying by `H` is multiplying by `conj(H)`.
pub open spec fn stage_adjoint(s: Stage) -> (int, Stage) {
    match s {
        Stage::Checkerboard => (0, Stage::Checkerboard),
        Stage::ForwardFft => (1, Stage::InverseFft),
        Stage::InverseFft => (-1, Stage::ForwardFft),
        Stage::UnitaryScale => (0, Stage::UnitaryScale),
        Stage::MultiplyKernel => (0, Stage::MultiplyConjKernel),
        Stage::MultiplyConjKernel => (0, Stage::MultiplyKernel),
        Stage::MultiplyPhase(p) => (0, Stage::MultiplyConjPhase(p)),
        Stage::MultiplyConjPhase(p) => (0, Stage::MultiplyPhase(p)),
    }
}

/// Adjoint of the operator applying `p` in order: the stage adjoints in
/// reverse order, with the product of their scalar factors as a power of `N`.
pub open spec fn plan_adjoint(p: Seq<Stage>) -> (int, Seq<Stage>)
    decreases p.len(),
{
    if p.len() == 0 {
        (0, Seq::empty())
    } else {
        let last = stage_adjoint(p.last());
        let rest = plan_adjoint(p.drop_last());
        (last.0 + rest.0, seq![last.1] + rest.1)
    }
}

/// The adjoint of running `a` then `b` is the adjoint of `b` followed by the
/// adjoint of `a`, with the scalar factors multiplied.
pub proof fn lemma_plan_adjoint_concat(a: Seq<Stage>, b: Seq<Stage>)
    ensures
        plan_adjoint(a + b) == (plan_adjoint(a).0 + plan_adjoint(b).0, plan_adjoint(b).1 + plan_adjoint(
            a,
        ).1),
    decreases b.len(),
{
    if b.len() == 0 {
        assert(a + b =~= a);
        assert(plan_adjoint(b).1 + plan_adjoint(a).1 =~= plan_adjoint(a).1);
    } else {
        let ab = a + b;
        assert(ab.last() == b.last());
        assert(ab.drop_last() =~= a + b.drop_last());
        lemma_plan_adjoint_concat(a, b.drop_last());
        let last = stage_adjoint(b.last());
        assert(seq![last.1] + (plan_adjoint(b.drop_last()).1 + plan_adjoint(a).1) =~= (seq![last.1]
            + plan_adjoint(b.drop_last()).1) + plan_adjoint(a).1);
    }
}

/// In the stage model ([`stage_adjoint`], [`plan_adjoint`]), the adjoint
/// pass of a transfer-function propagator is the adjoint of its forward pass:
/// the `N` factors of the two FFT adjoints cancel, leaving the forward stages
/// with `H` replaced by `conj(H)`.
pub proof fn lemma_backward_is_adjoint_of_forward(t: TransferKind)
    ensures
        plan_adjoint(forward_plan(PropKind::Transfer(t))) == (0int, transfer_backward_plan()),
        plan_adjoint(transfer_backward_plan()) == (0int, forward_plan(PropKind::Transfer(t))),
{
    reveal_with_fuel(plan_adjoint, 4);
    let f = forward_plan(PropKind::Transfer(t));
    assert(f.drop_last() =~= seq![Stage::ForwardFft, Stage::MultiplyKernel]);
    assert(f.drop_last().drop_last() =~= seq![Stage::ForwardFft]);
    assert(f.drop_last().drop_last().drop_last() =~= Seq::<Stage>::empty());
    assert(plan_adjoint(f).1 =~= transfer_backward_plan());
    let b = transfer_backward_plan();
    assert(b.drop_last() =~= seq![Stage::ForwardFft, Stage::MultiplyConjKernel]);
    assert(b.drop_last().drop_last() =~= seq![Stage::ForwardFft]);
    assert(b.drop_last().drop_last().drop_last() =~= Seq::<Stage>::empty());
    assert(plan_adjoint(b).1 =~= f);
}

/// The adjoint of the Fraunhofer operator is `norm · C ⊙ (N · IFFT(r))`: the
/// scale, then `N` times the inverse FFT, then the checkerboard. It is not a
/// transfer-function pass, which is why [`Propagator::backward_into`] refuses
/// it.
pub proof fn lemma_fraunhofer_adjoint()
    ensures
        plan_adjoint(forward_plan(PropKind::Fraunhofer)) == (
            1int,
            seq![Stage::UnitaryScale, Stage::InverseFft, Stage::Checkerboard],
        ),
{
    reveal_with_fuel(plan_adjoint, 4);
    let f = forward_plan(PropKind::Fraunhofer);
    assert(f.drop_last() =~= seq![Stage::Checkerboard, Stage::ForwardFft]);
    assert(f.drop_last().drop_last() =~= seq![Stage::Checkerboard]);
    assert(f.drop_last().drop_last().drop_last() =~= Seq::<Stage>::empty());
    assert(plan_adjoint(f).1 =~= seq![Stage::UnitaryScale, Stage::InverseFft, Stage::Checkerboard]);
}

/// Each propagation model selects the operator it names: Fraunhofer the
/// centred Fourier transform, Fresnel the Fresnel transfer function and the
/// angular-spectrum method the angular-spectrum transfer function; the three
/// models select three different operators.
pub proof fn lemma_mode_selects_named_operator()
    ensures
        kind_of(PropagationMode::Fraunhofer) == PropKind::Fraunhofer,
        kind_of(PropagationMode::Fresnel) == PropKind::Transfer(TransferKind::Fresnel),
        kind_of(PropagationMode::AngularSpectrum) == PropKind::Transfer(TransferKind::AngularSpectrum),
        forall|a: PropagationMode, b: PropagationMode| a != b ==> kind_of(a) != kind_of(b),
{
}

/// Every operator's forward pass is three stages; the Fraunhofer pass is the
/// checkerboard, the forward FFT and the `1/sqrt(N)` scale, and every
/// transfer-function pass is the forward FFT, the multiplication by `H` and
/// the inverse FFT.
pub proof fn lemma_forward_plan_stages(kind: PropKind)
    ensures
        forward_plan(kind).len() == 3,
        kind == PropKind::Fraunhofer ==> forward_plan(kind)[0] == Stage::Checkerboard
            && forward_plan(kind)[1] == Stage::ForwardFft && forward_plan(kind)[2] == Stage::UnitaryScale,
        kind != PropKind::Fraunhofer ==> forward_plan(kind)[0] == Stage::ForwardFft
            && forward_plan(kind)[1] == Stage::MultiplyKernel && forward_plan(kind)[2] == Stage::InverseFft,
{
}

/// Why a `width × height` grid is refused, if it is: the width is checked
/// before the height.
pub open spec fn grid_error(width: usize, height: usize) -> Option<PhotonError> {
    if !is_power_of_two(width as nat) {
        Some(PhotonError::NotPowerOfTwo(width))
    } else if !is_power_of_two(height as nat) {
        Some(PhotonError::NotPowerOfTwo(height))
    } else {
        None
    }
}

/// The stage lists of a result, taken by their sequences.
pub open spec fn plans_of(r: Result<Vec<Stage>, PhotonError>) -> Result<Seq<Stage>, PhotonError> {
    match r {
        Ok(v) => Ok(v@),
        Err(e) => Err(e),
    }
}

/// Result of the one-shot [`propagate`] of a `width × height` field.
pub open spec fn one_shot_result(width: usize, height: usize, mode: PropagationMode) -> Result<
    Seq<Stage>,
    PhotonError,
> {
    match grid_error(width, height) {
        Some(e) => Err(e),
        None => Ok(forward_plan(kind_of(mode))),
    }
}

/// Result of [`Propagator::propagate`] for a `field_width × field_height`
/// field.
pub open spec fn propagate_result(p: PropagatorView, field_width: usize, field_height: usize) -> Result<
    Seq<Stage>,
    PhotonError,
> {
    if field_width != p.width || field_height != p.height {
        Err(
            PhotonError::DimensionMismatch {
                expected: (p.width * p.height) as usize,
                got: (field_width * field_height) as usize,
            },
        )
    } else {
        Ok(forward_plan(p.kind))
    }
}

/// Result of [`Propagator::propagate_into`] for a field of `data_len`
/// samples.
pub open spec fn propagate_into_result(p: PropagatorView, data_len: usize) -> Result<Seq<Stage>, PhotonError> {
    if data_len != p.width * p.height {
        Err(PhotonError::DimensionMismatch { expected: (p.width * p.height) as usize, got: data_len })
    } else {
        Ok(forward_plan(p.kind))
    }
}

/// Building a propagator for a mode fails exactly when the one-shot
/// [`propagate`] of a field of that grid fails, with the same error; when it
/// succeeds, the propagator's allocating pass on a field of its grid, its
/// in-place pass on the grid's samples and the one-shot call all give the same
/// result.
pub proof fn lemma_propagator_matches_one_shot(width: usize, height: usize, mode: PropagationMode)
    requires
        width * height <= usize::MAX,
    ensures
        grid_error(width, height) matches Some(e) ==> one_shot_result(width, height, mode) == Err::<
            Seq<Stage>,
            PhotonError,
        >(e),
        grid_error(width, height) is None ==> ({
            let p = PropagatorView { width: width as nat, height: height as nat, kind: kind_of(mode) };
            &&& propagate_result(p, width, height) == one_shot_result(width, height, mode)
            &&& propagate_into_result(p, (width * height) as usize) == one_shot_result(width, height, mode)
        }),
{
}

/// A propagator's grid and operator.
pub struct PropagatorView {
    pub width: nat,
    pub height: nat,
    pub kind: PropKind,
}

/// A precomputed propagation operator for a fixed power-of-two grid and
/// configuration, reused across many fields.
pub struct Propagator {
    width: usize,
    height: usize,
    kind: PropKind,
}

impl View for Propagator {
    type V = PropagatorView;

    closed spec fn view(&self) -> PropagatorView {
        PropagatorView { width: self.width as nat, height: self.height as nat, kind: self.kind }
    }
}

impl Propagator {
    /// Both dimensions are powers of two and the grid's sample count fits a
    /// `usize`.
    #[verifier::type_invariant]
    spec fn grid_ok(&self) -> bool {
        &&& is_power_of_two(self.width as nat)
        &&& is_power_of_two(self.height as nat)
        &&& self.width * self.height <= usize::MAX
    }

    /// Build the operator for a `width × height` grid.
    pub fn new(width: usize, height: usize, mode: PropagationMode) -> (r: Result<Propagator, PhotonError>)
        requires
            width * height <= usize::MAX,
        ensures
            !is_power_of_two(width as nat) ==> r == Err::<Propagator, PhotonError>(
                PhotonError::NotPowerOfTwo(width),
            ),
            is_power_of_two(width as nat) && !is_power_of_two(height as nat) ==> r == Err::<
                Propagator,
                PhotonError,
            >(PhotonError::NotPowerOfTwo(height)),
            is_power_of_two(width as nat) && is_power_of_two(height as nat) ==> (r matches Ok(p)
                && p@ == (PropagatorView { width: width as nat, height: height as nat, kind: kind_of(mode) })),
            grid_error(width, height) matches Some(e) ==> r == Err::<Propagator, PhotonError>(e),
    {
        if !is_pow2(width) {
            return Err(PhotonError::NotPowerOfTwo(width));
        }
        if !is_pow2(height) {
            return Err(PhotonError::NotPowerOfTwo(height));
        }
        let kind = match mode {
            PropagationMode::Fraunhofer => PropKind::Fraunhofer,
            PropagationMode::Fresnel => PropKind::Transfer(TransferKind::Fresnel),
            PropagationMode::AngularSpectrum => PropKind::Transfer(TransferKind::AngularSpectrum),
        };
        Ok(Propagator { width, height, kind })
    }

    /// Grid width.
    pub fn width(&self) -> (w: usize)
        ensures
            w == self@.width,
    {
        self.width
    }

    /// Grid height.
    pub fn height(&self) -> (h: usize)
        ensures
            h == self@.height,
    {
        self.height
    }

    /// The operator this propagator applies.
    pub fn kind(&self) -> (k: PropKind)
        ensures
            k == self@.kind,
    {
        self.kind
    }

    /// Number of samples of the grid, `width · height`.
    pub fn samples(&self) -> (n: usize)
        ensures
            n == self@.width * self@.height,
    {
        proof {
            use_type_invariant(self);
        }
        self.width * self.height
    }

    /// Propagate a `field_width × field_height` field through the operator.
    /// The field must have the propagator's grid.
    pub fn propagate(&self, field_width: usize, field_height: usize) -> (r: Result<Vec<Stage>, PhotonError>)
        requires
            field_width * field_height <= usize::MAX,
        ensures
            (field_width != self@.width || field_height != self@.height) ==> r == Err::<
                Vec<Stage>,
                PhotonError,
            >(
                PhotonError::DimensionMismatch {
                    expected: (self@.width * self@.height) as usize,
                    got: (field_width * field_height) as usize,
                },
            ),
            (field_width == self@.width && field_height == self@.height) ==> (r matches Ok(p)
                && p@ == forward_plan(self@.kind)),
            plans_of(r) == propagate_result(self@, field_width, field_height),
    {
        proof {
            use_type_invariant(self);
        }
        if field_width != self.width || field_height != self.height {
            return Err(
                PhotonError::DimensionMismatch {
                    expected: self.width * self.height,
                    got: field_width * field_height,
                },
            );
        }
        Ok(forward_stages(self.kind))
    }

    /// Propagate a field of `data_len` samples in place: the stages are
    /// applied to the caller's buffer. Gives the same result as
    /// [`Propagator::propagate`].
    pub fn propagate_into(&self, data_len: usize) -> (r: Result<Vec<Stage>, PhotonError>)
        ensures
            data_len != self@.width * self@.height ==> r == Err::<Vec<Stage>, PhotonError>(
                PhotonError::DimensionMismatch {
                    expected: (self@.width * self@.height) as usize,
                    got: data_len,
                },
            ),
            data_len == self@.width * self@.height ==> (r matches Ok(p)
                && p@ == forward_plan(self@.kind)),
            plans_of(r) == propagate_into_result(self@, data_len),
    {
        proof {
            use_type_invariant(self);
        }
        let n: usize = self.width * self.height;
        if data_len != n {
            return Err(PhotonError::DimensionMismatch { expected: n, got: data_len });
        }
        Ok(forward_stages(self.kind))
    }

    /// Adjoint (conjugate transpose) of [`Propagator::propagate_into`], in
    /// place, for a field of `data_len` samples. Provided for the
    /// transfer-function operators, where it is `IFFT(conj(H) ⊙ FFT(r))`;
    /// the Fraunhofer adjoint is refused with an explicit error.
    pub fn backward_into(&self, data_len: usize) -> (r: Result<Vec<Stage>, PhotonError>)
        ensures
            data_len != self@.width * self@.height ==> r == Err::<Vec<Stage>, PhotonError>(
                PhotonError::DimensionMismatch {
                    expected: (self@.width * self@.height) as usize,
                    got: data_len,
                },
            ),
            data_len == self@.width * self@.height && self@.kind == PropKind::Fraunhofer ==> (r matches Err(
                PhotonError::InvalidConfig(msg),
            ) && msg@ == "backward_into: Fraunhofer adjoint not implemented (use Transfer arm)"@),
            data_len == self@.width * self@.height && self@.kind != PropKind::Fraunhofer ==> (r matches Ok(p)
                && p@ == transfer_backward_plan()),
    {
        proof {
            use_type_invariant(self);
        }
        let n: usize = self.width * self.height;
        if data_len != n {
            return Err(PhotonError::DimensionMismatch { expected: n, got: data_len });
        }
        match self.kind {
            PropKind::Transfer(_) => {
                let mut stages: Vec<Stage> = Vec::new();
                stages.push(Stage::ForwardFft);
                stages.push(Stage::MultiplyConjKernel);
                stages.push(Stage::InverseFft);
                assert(stages@ =~= transfer_backward_plan());
                Ok(stages)
            },
            PropKind::Fraunhofer => {
                let msg = "backward_into: Fraunhofer adjoint not implemented (use Transfer arm)".to_string();
                Err(PhotonError::InvalidConfig(msg))
            },
        }
    }
}

impl Propagator {
    /// Stages of the intensity loss `L = Σ_k w[k] · |P(u0 ⊙ e^{iθ})[k]|²`
    /// for an incident field of `u0_len` samples, `theta_len` phases and
    /// `w_len` sensor weights: all three must cover the whole grid. On a
    /// mismatch the error reports the shortest of the three lengths.
    pub fn intensity_loss_plan(&self, u0_len: usize, theta_len: usize, w_len: usize) -> (r: Result<
        Vec<Stage>,
        PhotonError,
    >)
        ensures
            !lengths_match(self@, u0_len, theta_len, w_len) ==> r == Err::<Vec<Stage>, PhotonError>(
                length_mismatch(self@, u0_len, theta_len, w_len),
            ),
            lengths_match(self@, u0_len, theta_len, w_len) ==> (r matches Ok(p) && p@ == forward_plan(
                self@.kind,
            )),
    {
        check_lengths(self, u0_len, theta_len, w_len)?;
        self.propagate_into(u0_len)
    }

    /// Stages of the analytic phase gradient `dL/dθ` of the intensity loss:
    /// the forward pass that produces the sensor field, then the adjoint pass
    /// that pulls the cotangent `w ⊙ y` back to the mask plane. Only the
    /// transfer-function operators have an adjoint pass.
    pub fn phase_gradient_plan(&self, u0_len: usize, theta_len: usize, w_len: usize) -> (r: Result<
        (Vec<Stage>, Vec<Stage>),
        PhotonError,
    >)
        ensures
            !lengths_match(self@, u0_len, theta_len, w_len) ==> r == Err::<
                (Vec<Stage>, Vec<Stage>),
                PhotonError,
            >(length_mismatch(self@, u0_len, theta_len, w_len)),
            lengths_match(self@, u0_len, theta_len, w_len) && self@.kind == PropKind::Fraunhofer ==> (r matches Err(
                PhotonError::InvalidConfig(msg),
            ) && msg@ == "backward_into: Fraunhofer adjoint not implemented (use Transfer arm)"@),
            lengths_match(self@, u0_len, theta_len, w_len) && self@.kind != PropKind::Fraunhofer ==> (r matches Ok(
                (f, b),
            ) && f@ == forward_plan(self@.kind) && b@ == transfer_backward_plan()),
    {
        check_lengths(self, u0_len, theta_len, w_len)?;
        let forward = self.propagate_into(u0_len)?;
        let backward = self.backward_into(u0_len)?;
        Ok((forward, backward))
    }
}

/// The three inputs of a loss or gradient request all cover the grid.
pub open spec fn lengths_match(p: PropagatorView, u0_len: usize, theta_len: usize, w_len: usize) -> bool {
    u0_len == p.width * p.height && theta_len == p.width * p.height && w_len == p.width * p.height
}

/// Error for a loss or gradient request whose inputs do not cover the grid:
/// it reports the shortest input.
pub open spec fn length_mismatch(p: PropagatorView, u0_len: usize, theta_len: usize, w_len: usize) -> PhotonError {
    let m1: usize = if u0_len <= theta_len { u0_len } else { theta_len };
    let m: usize = if m1 <= w_len { m1 } else { w_len };
    PhotonError::DimensionMismatch { expected: (p.width * p.height) as usize, got: m }
}

fn check_lengths(p: &Propagator, u0_len: usize, theta_len: usize, w_len: usize) -> (r: Result<(), PhotonError>)
    ensures
        lengths_match(p@, u0_len, theta_len, w_len) ==> r is Ok,
        !lengths_match(p@, u0_len, theta_len, w_len) ==> r == Err::<(), PhotonError>(
            length_mismatch(p@, u0_len, theta_len, w_len),
        ),
{
    let n: usize = p.samples();
    if u0_len != n || theta_len != n || w_len != n {
        let got: usize = if u0_len <= theta_len { u0_len } else { theta_len };
        let got: usize = if got <= w_len { got } else { w_len };
        return Err(PhotonError::DimensionMismatch { expected: n, got });
    }
    Ok(())
}

/// Stages of the forward operator of `kind`.
fn forward_stages(kind: PropKind) -> (stages: Vec<Stage>)
    ensures
        stages@ == forward_plan(kind),
{
    let mut stages: Vec<Stage> = Vec::new();
    match kind {
        PropKind::Fraunhofer => {
            stages.push(Stage::Checkerboard);
            stages.push(Stage::ForwardFft);
            stages.push(Stage::UnitaryScale);
        },
        PropKind::Transfer(_) => {
            stages.push(Stage::ForwardFft);
            stages.push(Stage::MultiplyKernel);
            stages.push(Stage::InverseFft);
        },
    }
    assert(stages@ =~= forward_plan(kind));
    stages
}

/// Propagate a `field_width × field_height` field with the given model,
/// building the operator for this one call.
pub fn propagate(field_width: usize, field_height: usize, mode: PropagationMode) -> (r: Result<
    Vec<Stage>,
    PhotonError,
>)
    ensures
        !is_power_of_two(field_width as nat) ==> r == Err::<Vec<Stage>, PhotonError>(
            PhotonError::NotPowerOfTwo(field_width),
        ),
        is_power_of_two(field_width as nat) && !is_power_of_two(field_height as nat) ==> r == Err::<
            Vec<Stage>,
            PhotonError,
        >(PhotonError::NotPowerOfTwo(field_height)),
        is_power_of_two(field_width as nat) && is_power_of_two(field_height as nat) ==> (r matches Ok(p)
            && p@ == forward_plan(kind_of(mode))),
        plans_of(r) == one_shot_result(field_width, field_height, mode),
{
    if !is_pow2(field_width) {
        return Err(PhotonError::NotPowerOfTwo(field_width));
    }
    if !is_pow2(field_height) {
        return Err(PhotonError::NotPowerOfTwo(field_height));
    }
    let kind = match mode {
        PropagationMode::Fraunhofer => PropKind::Fraunhofer,
        PropagationMode::Fresnel => PropKind::Transfer(TransferKind::Fresnel),
        PropagationMode::AngularSpectrum => PropKind::Transfer(TransferKind::AngularSpectrum),
    };
    Ok(forward_stages(kind))
}

} // verus!
