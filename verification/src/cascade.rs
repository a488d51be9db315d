//! Multi-plane diffractive cascades.
//!
//! A `K`-plane cascade applies, for each plane in turn, the plane's phase mask
//! and then one free-space propagation with a shared transfer-function
//! [`Propagator`]. Training differentiates through the whole stack by walking
//! the planes backwards with the adjoint pass, reading each plane's phase
//! gradient off the back-propagated field right after its adjoint pass.
use vstd::prelude::*;
use crate::propagate::forward_plan;
use crate::propagate::lemma_backward_is_adjoint_of_forward;
use crate::propagate::lemma_plan_adjoint_concat;
use crate::propagate::plan_adjoint;
use crate::propagate::transfer_backward_plan;
use crate::propagate::PropKind;
use crate::propagate::Propagator;
use crate::propagate::Stage;

verus! {

/// Stages of the forward pass of a `k`-plane cascade: for each plane
/// `0, ..., k - 1`, its mask, then the propagation.
pub open spec fn cascade_forward(kind: PropKind, k: nat) -> Seq<Stage>
    decreases k,
{
    if k == 0 {
        Seq::empty()
    } else {
        cascade_forward(kind, (k - 1) as nat) + seq![Stage::MultiplyPhase((k - 1) as usize)]
            + forward_plan(kind)
    }
}

/// Stages of the backward pass of a `k`-plane transfer-function cascade:
/// for each plane `k - 1, ..., 0`, the adjoint propagation, then (except after
/// the first plane) the conjugate of the plane's mask.
pub open spec fn cascade_backward(k: nat) -> Seq<Stage>
    decreases k,
{
    if k == 0 {
        Seq::empty()
    } else if k == 1 {
        transfer_backward_plan()
    } else {
        transfer_backward_plan() + seq![Stage::MultiplyConjPhase((k - 1) as usize)] + cascade_backward(
            (k - 1) as nat,
        )
    }
}

impl Propagator {
    /// Stages of the forward pass of a cascade of `planes` phase planes that
    /// share this propagator.
    pub fn cascade_forward_plan(&self, planes: usize) -> (p: Vec<Stage>)
        ensures
            p@ == cascade_forward(self@.kind, planes as nat),
    {
        let kind = self.kind();
        let mut p: Vec<Stage> = Vec::new();
        let mut i: usize = 0;
        while i < planes
            invariant
                i <= planes,
                kind == self@.kind,
                p@ == cascade_forward(kind, i as nat),
            decreases planes - i,
        {
            p.push(Stage::MultiplyPhase(i));
            match kind {
                PropKind::Fraunhofer => {
                    p.push(Stage::Checkerboard);
                    p.push(Stage::ForwardFft);
                    p.push(Stage::UnitaryScale);
                },
                PropKind::Transfer(_) => {
                    p.push(Stage::ForwardFft);
                    p.push(Stage::MultiplyKernel);
                    p.push(Stage::InverseFft);
                },
            }
            i = i + 1;
            assert(p@ =~= cascade_forward(kind, i as nat));
        }
        p
    }

    /// Stages of the backward pass of a cascade of `planes` phase planes that
    /// share this transfer-function propagator. Plane `i`'s phase gradient is
    /// read right after its adjoint propagation.
    pub fn cascade_backward_plan(&self, planes: usize) -> (p: Vec<Stage>)
        requires
            planes == 0 || self@.kind != PropKind::Fraunhofer,
        ensures
            p@ == cascade_backward(planes as nat),
    {
        let mut p: Vec<Stage> = Vec::new();
        let mut j: usize = planes;
        while j > 0
            invariant
                j <= planes,
                p@ + cascade_backward(j as nat) == cascade_backward(planes as nat),
            decreases j,
        {
            let ghost before = p@;
            p.push(Stage::ForwardFft);
            p.push(Stage::MultiplyConjKernel);
            p.push(Stage::InverseFft);
            if j > 1 {
                p.push(Stage::MultiplyConjPhase(j - 1));
                assert(p@ + cascade_backward((j - 1) as nat) =~= before + cascade_backward(j as nat));
            } else {
                assert(p@ + cascade_backward((j - 1) as nat) =~= before + cascade_backward(j as nat));
            }
            j = j - 1;
        }
        assert(p@ + cascade_backward(0) =~= p@);
        p
    }
}

/// Layout of a cascade's forward pass, for every operator (Fraunhofer
/// included): four stages per plane, plane `j` occupying stages
/// `4j .. 4j + 4`: its mask `MultiplyPhase(j)`, then exactly the propagator's
/// own single-plane forward pass (the stages of
/// [`Propagator::propagate_into`]).
pub proof fn lemma_cascade_forward_layout(kind: PropKind, k: nat)
    requires
        k <= usize::MAX + 1,
    ensures
        cascade_forward(kind, k).len() == 4 * k,
        forall|j: int|
            0 <= j < k ==> #[trigger] cascade_forward(kind, k)[4 * j] == Stage::MultiplyPhase(j as usize),
        forall|j: int, m: int|
            0 <= j < k && 0 <= m < 3 ==> #[trigger] cascade_forward(kind, k)[4 * j + 1 + m] == forward_plan(
                kind,
            )[m],
    decreases k,
{
    crate::propagate::lemma_forward_plan_stages(kind);
    if k > 0 {
        lemma_cascade_forward_layout(kind, (k - 1) as nat);
        let prev = cascade_forward(kind, (k - 1) as nat);
        let cur = cascade_forward(kind, k);
        assert(cur.len() == 4 * k);
        assert forall|j: int| 0 <= j < k implies #[trigger] cur[4 * j] == Stage::MultiplyPhase(
            j as usize,
        ) by {
            if j < k - 1 {
                assert(cur[4 * j] == prev[4 * j]);
            }
        }
        assert forall|j: int, m: int| 0 <= j < k && 0 <= m < 3 implies #[trigger] cur[4 * j + 1 + m]
            == forward_plan(kind)[m] by {
            if j < k - 1 {
                assert(cur[4 * j + 1 + m] == prev[4 * j + 1 + m]);
            }
        }
    }
}

/// The full adjoint of a `k`-plane transfer-function cascade: for each plane
/// `k - 1, ..., 0`, the adjoint propagation, then the conjugate mask.
pub open spec fn cascade_adjoint(k: nat) -> Seq<Stage>
    decreases k,
{
    if k == 0 {
        Seq::empty()
    } else {
        transfer_backward_plan() + seq![Stage::MultiplyConjPhase((k - 1) as usize)] + cascade_adjoint(
            (k - 1) as nat,
        )
    }
}

/// The adjoint composes: in the stage model, the adjoint of a
/// transfer-function cascade's forward pass is, plane by plane in reverse, the single-plane adjoint pass
/// followed by the conjugate mask. The backward pass is that adjoint without
/// its final conjugate mask (which no gradient needs), and for one plane it is
/// the single-plane adjoint pass.
pub proof fn lemma_cascade_adjoint_composes(t: crate::propagate::TransferKind, k: nat)
    requires
        k <= usize::MAX + 1,
    ensures
        plan_adjoint(cascade_forward(PropKind::Transfer(t), k)) == (0int, cascade_adjoint(k)),
        k > 0 ==> cascade_backward(k) + seq![Stage::MultiplyConjPhase(0)] == cascade_adjoint(k),
        cascade_backward(1) == transfer_backward_plan(),
    decreases k,
{
    let kind = PropKind::Transfer(t);
    if k > 0 {
        lemma_cascade_adjoint_composes(t, (k - 1) as nat);
        let prev = cascade_forward(kind, (k - 1) as nat);
        let mask = seq![Stage::MultiplyPhase((k - 1) as usize)];
        lemma_plan_adjoint_concat(prev, mask);
        lemma_plan_adjoint_concat(prev + mask, forward_plan(kind));
        lemma_backward_is_adjoint_of_forward(t);
        reveal_with_fuel(plan_adjoint, 2);
        assert(mask.drop_last() =~= Seq::<Stage>::empty());
        assert(plan_adjoint(mask) == (0int, seq![Stage::MultiplyConjPhase((k - 1) as usize)]));
        assert(plan_adjoint(cascade_forward(kind, k)).1 =~= cascade_adjoint(k));
        if k == 1 {
            assert(cascade_backward(1) + seq![Stage::MultiplyConjPhase(0)] =~= cascade_adjoint(1));
        } else {
            assert(cascade_backward(k) + seq![Stage::MultiplyConjPhase(0)] =~= transfer_backward_plan()
                + seq![Stage::MultiplyConjPhase((k - 1) as usize)] + (cascade_backward((k - 1) as nat)
                + seq![Stage::MultiplyConjPhase(0)]));
        }
    }
}

} // verus!
