use biquad::{Biquad, ToHertz};
use dsp_toolkit::biquad_state::BiquadState;
use dsp_toolkit::coefficients::Coefficients;
use dsp_toolkit::filter_spec::FilterSpecification;
use dsp_toolkit::math::Math;
use dsp_toolkit::series::RawData;

fn bits(values: &[f32]) -> Vec<u32> {
    values.iter().map(|x| x.to_bits()).collect()
}

#[test]
fn recurrence_matches_direct_form_one() {
    // Driving the verified delay line with a coefficient set taken from
    // the biquad crate must reproduce DirectForm1 bit for bit: the
    // recurrence is the same chain of single-precision operations.
    let c = biquad::Coefficients::<f32>::from_params(
        biquad::Type::LowPass,
        100.hz(),
        20.hz(),
        biquad::Q_BUTTERWORTH_F32,
    )
    .unwrap();
    let mut reference = biquad::DirectForm1::<f32>::new(c);
    let mut state = BiquadState::new(Coefficients {
        b0: c.b0.to_bits(),
        b1: c.b1.to_bits(),
        b2: c.b2.to_bits(),
        a1: c.a1.to_bits(),
        a2: c.a2.to_bits(),
    });
    let samples = [1.0f32, -2.5, 0.125, 4.0, -0.75, 3.5, 0.0, -1.0, 2.25, 0.5];
    for x in samples {
        let expected = reference.run(x);
        let got = state.step(x.to_bits());
        assert_eq!(got, expected.to_bits(), "diverged at input {}", x);
    }
}

#[test]
fn derived_coefficients_track_biquad() {
    // The verified derivation follows the same formulas as the biquad
    // crate; only the sine evaluation differs (correctly rounded here),
    // so each coefficient agrees to within a few parts in ten million.
    let cases: [(biquad::Type<f32>, f32, f32); 3] = [
        (biquad::Type::LowPass, 20.0, 0.70710678f32),
        (biquad::Type::HighPass, 5.0, 0.70710678f32),
        (biquad::Type::LowPass, 49.0, 0.70710678f32),
    ];
    for (kind, cutoff, q) in cases {
        let expected =
            biquad::Coefficients::<f32>::from_params(kind, 100.0.hz(), cutoff.hz(), q).unwrap();
        let spec = match kind {
            biquad::Type::LowPass => {
                FilterSpecification::lowpass(cutoff.to_bits(), 100.0f32.to_bits()).unwrap()
            },
            _ => FilterSpecification::highpass(cutoff.to_bits(), 100.0f32.to_bits()).unwrap(),
        };
        let got = Coefficients::derive(&spec).unwrap();
        let close = |a: u32, b: f32| {
            let a = f32::from_bits(a);
            (a - b).abs() <= 1e-6 * b.abs().max(1.0)
        };
        assert!(close(got.b0, expected.b0), "b0 {} vs {}", f32::from_bits(got.b0), expected.b0);
        assert!(close(got.b1, expected.b1), "b1 {} vs {}", f32::from_bits(got.b1), expected.b1);
        assert!(close(got.b2, expected.b2), "b2 {} vs {}", f32::from_bits(got.b2), expected.b2);
        assert!(close(got.a1, expected.a1), "a1 {} vs {}", f32::from_bits(got.a1), expected.a1);
        assert!(close(got.a2, expected.a2), "a2 {} vs {}", f32::from_bits(got.a2), expected.a2);
    }
}

#[test]
fn band_coefficients_track_biquad() {
    // Band and notch requests center the filter at the mean of the two
    // cutoffs with quality center/bandwidth, as the crate formulas do.
    let (low, high, rate) = (10.0f32, 20.0f32, 100.0f32);
    let center = (low + high) / 2.0;
    let q = center / (high - low);
    for notch in [false, true] {
        let kind: biquad::Type<f32> = if notch {
            biquad::Type::Notch
        } else {
            biquad::Type::BandPass
        };
        let expected =
            biquad::Coefficients::<f32>::from_params(kind, rate.hz(), center.hz(), q).unwrap();
        let spec = if notch {
            FilterSpecification::notch(low.to_bits(), high.to_bits(), rate.to_bits()).unwrap()
        } else {
            FilterSpecification::bandpass(low.to_bits(), high.to_bits(), rate.to_bits()).unwrap()
        };
        let got = Coefficients::derive(&spec).unwrap();
        let close = |a: u32, b: f32| {
            let a = f32::from_bits(a);
            (a - b).abs() <= 1e-6 * b.abs().max(1.0)
        };
        assert!(close(got.b0, expected.b0), "b0 {} vs {}", f32::from_bits(got.b0), expected.b0);
        assert!(close(got.b1, expected.b1), "b1 {} vs {}", f32::from_bits(got.b1), expected.b1);
        assert!(close(got.b2, expected.b2), "b2 {} vs {}", f32::from_bits(got.b2), expected.b2);
        assert!(close(got.a1, expected.a1), "a1 {} vs {}", f32::from_bits(got.a1), expected.a1);
        assert!(close(got.a2, expected.a2), "a2 {} vs {}", f32::from_bits(got.a2), expected.a2);
    }
}

#[test]
fn min_max_follow_std_fold_semantics() {
    // The fold contracts mirror the standard iterator min_by / max_by
    // with NaN comparisons treated as equality: first minimum kept, last
    // maximum kept.
    let tricky: [&[f32]; 4] = [
        &[3.0, 1.0, 1.0, 2.0],
        &[-0.0, 0.0],
        &[5.0, f32::NAN, -1.0, f32::NAN, 7.0],
        &[f32::NAN, 2.0, 2.0],
    ];
    for series in tricky {
        let expected_min = series
            .iter()
            .cloned()
            .min_by(|a, b| a.partial_cmp(b).unwrap_or(std::cmp::Ordering::Equal))
            .unwrap();
        let expected_max = series
            .iter()
            .cloned()
            .max_by(|a, b| a.partial_cmp(b).unwrap_or(std::cmp::Ordering::Equal))
            .unwrap();
        let got = Math::min_and_max(&RawData::FloatVec(bits(series)));
        assert_eq!(got[0], expected_min.to_bits(), "min of {:?}", series);
        assert_eq!(got[1], expected_max.to_bits(), "max of {:?}", series);
    }
}

#[test]
fn nan_propagates_through_the_recurrence() {
    // Exceptional values are not trapped: a NaN sample yields NaN
    // outputs from its position on, and the output length still matches.
    let spec = FilterSpecification::lowpass(20.0f32.to_bits(), 100.0f32.to_bits()).unwrap();
    let mut filter = dsp_toolkit::streaming::StreamingFilter::new(&spec).unwrap();
    let out = filter
        .process(&RawData::FloatVec(bits(&[1.0, f32::NAN, 2.0, 3.0])))
        .unwrap();
    assert_eq!(out.len(), 4);
    assert!(!f32::from_bits(out[0]).is_nan());
    for y in &out[1..] {
        assert!(f32::from_bits(*y).is_nan());
    }
}
