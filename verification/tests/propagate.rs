use photonlayer::error::PhotonError;
use photonlayer::propagate::{propagate, PropagationMode, Propagator, Stage};

#[test]
fn new_rejects_non_power_of_two_width_first() {
    assert_eq!(
        Propagator::new(12, 6, PropagationMode::Fresnel).err(),
        Some(PhotonError::NotPowerOfTwo(12))
    );
    assert_eq!(
        Propagator::new(16, 6, PropagationMode::Fresnel).err(),
        Some(PhotonError::NotPowerOfTwo(6))
    );
    assert_eq!(
        Propagator::new(0, 8, PropagationMode::Fraunhofer).err(),
        Some(PhotonError::NotPowerOfTwo(0))
    );
}

#[test]
fn one_shot_propagate_checks_grid() {
    assert_eq!(
        propagate(24, 32, PropagationMode::AngularSpectrum),
        Err(PhotonError::NotPowerOfTwo(24))
    );
    assert_eq!(
        propagate(32, 3, PropagationMode::AngularSpectrum),
        Err(PhotonError::NotPowerOfTwo(3))
    );
}

#[test]
fn fraunhofer_is_centred_normalised_fft() {
    let plan = propagate(16, 16, PropagationMode::Fraunhofer).unwrap();
    assert_eq!(plan, vec![Stage::Checkerboard, Stage::ForwardFft, Stage::UnitaryScale]);
}

#[test]
fn propagator_matches_one_shot_propagate() {
    for mode in [
        PropagationMode::Fresnel,
        PropagationMode::Fraunhofer,
        PropagationMode::AngularSpectrum,
    ] {
        let p = Propagator::new(32, 32, mode).unwrap();
        let one_shot = propagate(32, 32, mode).unwrap();
        assert_eq!(p.propagate(32, 32).unwrap(), one_shot);
        assert_eq!(p.propagate_into(1024).unwrap(), one_shot);
    }
}

#[test]
fn propagate_rejects_field_of_other_grid() {
    let p = Propagator::new(32, 32, PropagationMode::Fresnel).unwrap();
    assert_eq!(
        p.propagate(16, 32),
        Err(PhotonError::DimensionMismatch { expected: 1024, got: 512 })
    );
    assert_eq!(
        p.propagate_into(1000),
        Err(PhotonError::DimensionMismatch { expected: 1024, got: 1000 })
    );
}
