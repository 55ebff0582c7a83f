use toolbox::spek::fft_backend::{check_size, real_spectrum_len, FftError, IFftBackend};
use toolbox::spek::pad::{IPad, PadError, PadMode};
use toolbox::spek::phastft::PhastftBackend;
use toolbox::spek::strided::{ISpectrogram, Spectrogram as StridedSpectrogram, SpectrogramError};
use toolbox::spek::spectrogram::Spectrogram;
use toolbox::spek::stft::{check_sizes, Stft, StftError};
use toolbox::spek::windows::{extended_size, kaiser_bessel_derived_shape, WindowError};
use toolbox::spek::SpekError;

const SIGNAL: [i32; 4] = [1, 2, 3, 4];

#[test]
fn pad_constant_surrounds_signal() {
    let r = PadMode::Constant(9).pad(&SIGNAL, 1, 2).unwrap();
    assert_eq!(r, vec![9, 1, 2, 3, 4, 9, 9]);
}

#[test]
fn pad_constant_helper_matches_mode() {
    let r = PadMode::pad_constant(&SIGNAL, 0, 2, 1).unwrap();
    assert_eq!(r, vec![0, 0, 1, 2, 3, 4, 0]);
}

#[test]
fn pad_edge_repeats_first_and_last() {
    let r = PadMode::<i32>::Edge.pad(&SIGNAL, 2, 1).unwrap();
    assert_eq!(r, vec![1, 1, 1, 2, 3, 4, 4]);
}

#[test]
fn pad_reflect_mirrors_without_edge() {
    let r = PadMode::<i32>::Reflect.pad(&SIGNAL, 2, 2).unwrap();
    assert_eq!(r, vec![3, 2, 1, 2, 3, 4, 3, 2]);
}

#[test]
fn pad_symmetric_mirrors_with_edge() {
    let r = PadMode::<i32>::Symmetric.pad(&SIGNAL, 2, 2).unwrap();
    assert_eq!(r, vec![2, 1, 1, 2, 3, 4, 4, 3]);
}

#[test]
fn pad_symmetric_longer_than_signal_clamps() {
    let r = PadMode::<i32>::Symmetric.pad(&[5, 6], 3, 3).unwrap();
    assert_eq!(r, vec![6, 6, 5, 5, 6, 6, 5, 5]);
}

#[test]
fn pad_wrap_is_periodic() {
    let r = PadMode::<i32>::Wrap.pad(&SIGNAL, 2, 6).unwrap();
    assert_eq!(r, vec![3, 4, 1, 2, 3, 4, 1, 2, 3, 4, 1, 2]);
}

#[test]
fn pad_zero_amounts_return_signal() {
    for mode in [PadMode::Edge, PadMode::Reflect, PadMode::Symmetric, PadMode::Wrap, PadMode::Constant(7)] {
        assert_eq!(mode.pad(&SIGNAL, 0, 0).unwrap(), SIGNAL.to_vec());
    }
}

#[test]
fn pad_empty_signal_errors() {
    let empty: [i32; 0] = [];
    assert_eq!(PadMode::<i32>::Edge.pad(&empty, 1, 1), Err(PadError::EmptySignal));
    assert_eq!(PadMode::Constant(1).pad(&empty, 0, 0), Err(PadError::EmptySignal));
}

#[test]
fn pad_reflect_too_short_before_errors() {
    assert_eq!(
        PadMode::<i32>::Reflect.pad(&SIGNAL, 4, 0),
        Err(PadError::SignalSizeTooSmall { min_size: 5, actual: 4 })
    );
}

#[test]
fn pad_reflect_too_short_after_errors() {
    assert_eq!(
        PadMode::<i32>::Reflect.pad(&SIGNAL, 1, 5),
        Err(PadError::SignalSizeTooSmall { min_size: 6, actual: 4 })
    );
}

#[test]
fn positional_modes() {
    assert!(PadMode::Constant(0).positional());
    assert!(PadMode::<i32>::Wrap.positional());
    assert!(!PadMode::<i32>::Mean.positional());
    assert!(!PadMode::<i32>::LinearRamp.positional());
    assert!(!PadMode::<i32>::Empty.positional());
}

#[test]
fn spek_error_wraps() {
    assert_eq!(SpekError::from_pad(PadError::EmptySignal), SpekError::Pad(PadError::EmptySignal));
    assert_eq!(
        SpekError::from_window(WindowError::ExponentialTau),
        SpekError::Window(WindowError::ExponentialTau)
    );
}

#[test]
fn kaiser_bessel_derived_rules() {
    assert_eq!(kaiser_bessel_derived_shape(0, false), Ok(()));
    assert_eq!(kaiser_bessel_derived_shape(8, false), Err(WindowError::KaiserBesselDerivedAsymmetric));
    assert_eq!(kaiser_bessel_derived_shape(7, true), Err(WindowError::KaiserBesselDerivedSize));
    assert_eq!(kaiser_bessel_derived_shape(8, true), Ok(()));
}

#[test]
fn periodic_windows_are_one_longer() {
    assert_eq!(extended_size(16, true), 16);
    assert_eq!(extended_size(16, false), 17);
}

#[test]
fn check_size_reports_mismatch() {
    assert_eq!(check_size("signal", 8, 8), Ok(()));
    assert_eq!(
        check_size("signal", 7, 8),
        Err(FftError::SizeNotEqual { name: "signal", a: 7, b: 8 })
    );
}

#[test]
fn check_sizes_accepts_valid() {
    assert_eq!(check_sizes(256, 1024, 2048), Ok(()));
    assert_eq!(check_sizes(1, 1, 2), Ok(()));
}

#[test]
fn check_sizes_each_error_in_order() {
    assert_eq!(
        check_sizes(0, 0, 0),
        Err(StftError::InvalidSize { name: "hop_size", size: 0, reason: "must be greater than 0, got 0" })
    );
    assert_eq!(
        check_sizes(1, 0, 0),
        Err(StftError::InvalidSize { name: "win_size", size: 0, reason: "must be greater than 0, got 0" })
    );
    assert_eq!(
        check_sizes(1, 1, 1),
        Err(StftError::InvalidSize { name: "fft_size", size: 1, reason: "must be greater than 1" })
    );
    assert_eq!(
        check_sizes(1, 8, 4),
        Err(StftError::Invalid2Size {
            name_a: "win_size",
            name_b: "fft_size",
            size_a: 8,
            size_b: 4,
            reason: "must be less than or equal to fft_size",
        })
    );
    assert_eq!(
        check_sizes(8, 4, 4),
        Err(StftError::Invalid2Size {
            name_a: "hop_size",
            name_b: "win_size",
            size_a: 8,
            size_b: 4,
            reason: "must be less than or equal to win_size",
        })
    );
}

struct FixedBackend {
    size: usize,
}

impl IFftBackend<i32> for FixedBackend {
    type Spectrum = i32;

    /// The transform size, as the library's contracts name it.
    fn spec_fft_size(&self) -> usize {
        self.fft_size()
    }

    fn fft_size(&self) -> usize {
        self.size
    }
    fn signal_size(&self) -> usize {
        self.size
    }
    fn spectrum_size(&self) -> usize {
        self.size / 2 + 1
    }
    fn forward_scratch_size(&self) -> usize {
        0
    }
    fn inverse_scratch_size(&self) -> usize {
        0
    }
    fn new_signal(&self) -> Vec<i32> {
        vec![0; self.size]
    }
    fn new_spectrum(&self) -> Vec<i32> {
        vec![0; self.size / 2 + 1]
    }
    fn new_forward_scratch(&self) -> Vec<i32> {
        Vec::new()
    }
    fn new_inverse_scratch(&self) -> Vec<i32> {
        Vec::new()
    }
    fn fft(&self, _signal: &mut [i32], _spectrum: &mut [i32], _scratch: &mut [i32]) -> Result<(), FftError> {
        Ok(())
    }
    fn ifft(&self, _spectrum: &mut [i32], _signal: &mut [i32], _scratch: &mut [i32]) -> Result<(), FftError> {
        Ok(())
    }
}

#[test]
fn stft_new_takes_backend_size() {
    let stft = Stft::new(2, 4, Ok(vec![1, 1, 1, 1]), FixedBackend { size: 8 }).unwrap();
    assert_eq!(stft.hop_size(), 2);
    assert_eq!(stft.win_size(), 4);
    assert_eq!(stft.fft_size(), 8);
    assert_eq!(stft.window(), &[1, 1, 1, 1]);
    assert_eq!(stft.fft_backend().size, 8);
}

#[test]
fn stft_new_rejects_window_larger_than_backend() {
    let r = Stft::new(2, 16, Ok(vec![0; 16]), FixedBackend { size: 8 });
    assert!(matches!(r, Err(StftError::Invalid2Size { size_a: 16, size_b: 8, .. })));
}

#[test]
fn stft_reports_window_error_after_sizes() {
    let r = Stft::<i32, _>::with_fft_size(2, 4, Err(WindowError::ExponentialTau), FixedBackend { size: 8 }, 8);
    assert!(matches!(r, Err(StftError::Window(WindowError::ExponentialTau))));
    let r = Stft::<i32, _>::with_fft_size(0, 4, Err(WindowError::ExponentialTau), FixedBackend { size: 8 }, 8);
    assert!(matches!(r, Err(StftError::InvalidSize { name: "hop_size", .. })));
}

#[test]
fn stft_frame_count_and_reconstruction() {
    let stft = Stft::with_fft_size(3, 4, Ok(vec![0; 4]), FixedBackend { size: 8 }, 8).unwrap();
    assert_eq!(stft.frame_count(2), 1);
    assert_eq!(stft.frame_count(4), 1);
    assert_eq!(stft.frame_count(10), 3);
    assert_eq!(stft.frame_count(12), 3);
    assert_eq!(stft.frame_count(13), 4);
    assert_eq!(stft.reconstructed_len(0), 0);
    assert_eq!(stft.reconstructed_len(1), 4);
    assert_eq!(stft.reconstructed_len(3), 10);
    assert_eq!(stft.frame_range(0), (0, 4));
    assert_eq!(stft.frame_range(2), (6, 10));
}

#[test]
fn stft_reconstruction_covers_all_but_a_hop() {
    let stft = Stft::with_fft_size(3, 4, Ok(vec![0; 4]), FixedBackend { size: 8 }, 8).unwrap();
    for len in 4..40usize {
        let n = stft.frame_count(len);
        let rebuilt = stft.reconstructed_len(n);
        assert!(rebuilt <= len);
        assert!(len - rebuilt < stft.hop_size());
        let (_, end) = stft.frame_range(n - 1);
        assert!(end <= len);
    }
}

#[test]
fn spectrogram_frames_are_rows() {
    let s = Spectrogram::new(vec![1, 2, 3, 4, 5, 6], 2, 3);
    assert_eq!(s.frame_count(), 2);
    assert_eq!(s.bin_count(), 3);
    assert_eq!(s.data(), &[1, 2, 3, 4, 5, 6]);
    assert_eq!(s.frame(0), &[1, 2, 3]);
    assert_eq!(s.frame(1), &[4, 5, 6]);
    let all: Vec<i32> = s.iter().copied().collect();
    assert_eq!(all, vec![1, 2, 3, 4, 5, 6]);
    let frames = s.iter_frame();
    assert_eq!(frames, vec![&[1, 2, 3][..], &[4, 5, 6][..]]);
}

#[test]
fn spectrogram_bins_are_columns() {
    let s = Spectrogram::new(vec![1, 2, 3, 4, 5, 6, 7], 2, 3);
    let bins = s.iter_bin();
    assert_eq!(bins.len(), 3);
    assert_eq!(bins[0], vec![&1, &4]);
    assert_eq!(bins[1], vec![&2, &5]);
    assert_eq!(bins[2], vec![&3, &6]);
    assert_eq!(s.par_iter_bin(), bins);
}

#[test]
fn spectrogram_frame_mut_writes_only_that_frame() {
    let mut s = Spectrogram::new(vec![1, 2, 3, 4, 5, 6], 2, 3);
    s.frame_mut(1)[0] = 40;
    assert_eq!(s.data(), &[1, 2, 3, 40, 5, 6]);
    s.iter_mut()[2] = 30;
    assert_eq!(s.data(), &[1, 2, 30, 40, 5, 6]);
    for frame in s.iter_frame_mut() {
        frame[0] = 0;
    }
    assert_eq!(s.data(), &[0, 2, 30, 0, 5, 6]);
}

#[test]
fn strided_spectrogram_frames() {
    let mut s: StridedSpectrogram<i32, 2> = ISpectrogram::new(2, 3);
    assert!(s.data.is_empty());
    assert_eq!((s.frames, s.bins), (2, 3));
    let mut s: StridedSpectrogram<i32, 2> = StridedSpectrogram::filled(2, 2, 0);
    assert_eq!(s.data, vec![0; 8]);
    s.data = vec![1, 2, 3, 4, 5, 6, 7, 8];
    assert_eq!(s.frame(0).unwrap(), &[1, 2, 3, 4]);
    assert_eq!(s.frame_unchecked(1), &[5, 6, 7, 8]);
    assert_eq!(s.frame(2), Err(SpectrogramError::FrameIndexOutOfBounds { index: 2, frames: 2 }));
    s.frame_mut(1).unwrap()[3] = 80;
    s.frame_mut_unchecked(0)[0] = 10;
    assert_eq!(s.data, vec![10, 2, 3, 4, 5, 6, 7, 80]);
    assert!(s.frame_mut(5).is_err());
    assert_eq!(s.data, vec![10, 2, 3, 4, 5, 6, 7, 80]);
}

#[test]
fn spectrogram_bins_mut_write_columns() {
    let mut s = Spectrogram::new(vec![1, 2, 3, 4, 5, 6, 7], 2, 3);
    {
        let mut bins = s.iter_bin_mut();
        assert_eq!(bins.len(), 3);
        assert_eq!(bins[1].len(), 2);
        assert_eq!((*bins[1][0], *bins[1][1]), (2, 5));
        *bins[2][1] = 60;
        *bins[0][0] = 10;
    }
    assert_eq!(s.data(), &[10, 2, 3, 4, 5, 60, 7]);
    for bin in s.par_iter_bin_mut() {
        for x in bin {
            *x += 100;
        }
    }
    assert_eq!(s.data(), &[110, 102, 103, 104, 105, 160, 7]);
}

#[test]
fn phastft_backend_sizes() {
    let single = PhastftBackend::<phastft::planner::PlannerR2c32>::new(8);
    assert_eq!(single.fft_size(), 8);
    assert_eq!(single.signal_size(), 8);
    assert_eq!(single.spectrum_size(), 10);
    assert_eq!(single.scratch_size(), 8);
    let double = PhastftBackend::<phastft::planner::PlannerR2c64>::new(4);
    assert_eq!(double.fft_size(), 4);
    assert_eq!(double.spectrum_size(), 6);
    assert_eq!(double.scratch_size(), 4);
}

#[test]
fn real_spectrum_has_half_plus_one_bins() {
    assert_eq!(real_spectrum_len(8), 5);
    assert_eq!(real_spectrum_len(7), 4);
    assert_eq!(real_spectrum_len(0), 1);
}

#[test]
fn pad_refusals_need_no_length_bound() {
    let empty: [i32; 0] = [];
    assert_eq!(PadMode::<i32>::Edge.pad(&empty, usize::MAX, usize::MAX), Err(PadError::EmptySignal));
    assert_eq!(
        PadMode::<i32>::Reflect.pad(&SIGNAL, usize::MAX, usize::MAX),
        Err(PadError::SignalSizeTooSmall { min_size: usize::MAX, actual: 4 })
    );
    assert_eq!(
        PadMode::<i32>::Reflect.pad(&SIGNAL, 2, usize::MAX - 1),
        Err(PadError::SignalSizeTooSmall { min_size: usize::MAX, actual: 4 })
    );
}
