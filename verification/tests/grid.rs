use photonlayer::grid::{fft_bins, is_pow2};

#[test]
fn powers_of_two() {
    for n in [1usize, 2, 4, 8, 1024, 1 << 20, 1usize << (usize::BITS - 1)] {
        assert!(is_pow2(n), "{n}");
    }
    for n in [0usize, 3, 6, 12, 1000, usize::MAX] {
        assert!(!is_pow2(n), "{n}");
    }
}

#[test]
fn fft_bins_even_and_odd() {
    assert_eq!(fft_bins(8), vec![0, 1, 2, 3, -4, -3, -2, -1]);
    assert_eq!(fft_bins(5), vec![0, 1, 2, -2, -1]);
    assert_eq!(fft_bins(1), vec![0]);
    assert_eq!(fft_bins(0), Vec::<i64>::new());
}

#[test]
fn fft_bins_are_centred_residues() {
    for n in [1usize, 2, 7, 16, 33] {
        let bins = fft_bins(n);
        let (lo, hi) = (-((n / 2) as i64), ((n + 1) / 2) as i64);
        for (i, &b) in bins.iter().enumerate() {
            assert!(lo <= b && b < hi);
            assert_eq!((b - i as i64).rem_euclid(n as i64), 0);
        }
    }
}
