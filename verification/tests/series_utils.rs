#![allow(non_snake_case)]

use dsp_toolkit::math::Math;
use dsp_toolkit::moving_average::{moving_average_filter, MovingAverageFilter};
use dsp_toolkit::resampling::DataResampling;
use dsp_toolkit::series::RawData;
use dsp_toolkit::windowing::Windowing;
use dsp_toolkit::peaks::Peak_Finder;

fn bits(values: &[f32]) -> Vec<u32> {
    values.iter().map(|x| x.to_bits()).collect()
}

fn floats(values: &[u32]) -> Vec<f32> {
    values.iter().map(|x| f32::from_bits(*x)).collect()
}

fn float_data(values: &[f32]) -> RawData {
    RawData::FloatVec(bits(values))
}

#[test]
fn Math_test_average() {
    //testing with positives
    let float_vector1 = float_data(&[6.2, 7.1, 6.2]);
    let int_vector1 = RawData::IntVec(vec![1, 2, 3]);

    //testing with zeros
    let float_vector2 = float_data(&[0.0, 0.0, 0.0]);
    let int_vector2 = RawData::IntVec(vec![0, 0, 0]);

    //testing with negatives and positives
    let float_vector3 = float_data(&[-1.0, 2.0, -2.3]);
    let int_vector3 = RawData::IntVec(vec![-1, 2, -1]);

    assert_eq!(f32::from_bits(Math::average(&float_vector1)), 6.5);
    assert_eq!(f32::from_bits(Math::average(&int_vector1)), 2.0);
    assert_eq!(f32::from_bits(Math::average(&float_vector2)), 0.0);
    assert_eq!(f32::from_bits(Math::average(&int_vector2)), 0.0);
    assert_eq!(f32::from_bits(Math::average(&float_vector3)), -0.433);
    assert_eq!(f32::from_bits(Math::average(&int_vector3)), 0.0);
}

#[test]
fn test_normalizing_avg() {
    //testing with positives
    let float_vector1 = float_data(&[6.2, 7.1, 6.2]);
    let int_vector1 = RawData::IntVec(vec![1, 2, 3]);

    //testing with zeros
    let float_vector2 = float_data(&[0.0, 0.0, 0.0]);
    let int_vector2 = RawData::IntVec(vec![0, 0, 0]);

    //testing with negatives and negatives
    let float_vector3 = float_data(&[-1.0, -2.0, -2.3]);
    let int_vector3 = RawData::IntVec(vec![-1, -2, -1]);

    //testing with zero averages
    let float_vector4 = float_data(&[-1.2, 1.2, 0.0]);
    let int_vector4 = RawData::IntVec(vec![0, -2, 2]);

    assert_eq!(floats(&Math::normalizing_avg(&float_vector1)), vec![0.954, 1.092, 0.954]);
    assert_eq!(floats(&Math::normalizing_avg(&int_vector1)), vec![0.500, 1.000, 1.500]);
    assert_eq!(floats(&Math::normalizing_avg(&float_vector2)), vec![0.000, 0.000, 0.000]);
    assert_eq!(floats(&Math::normalizing_avg(&int_vector2)), vec![0.000, 0.000, 0.000]);
    assert_eq!(floats(&Math::normalizing_avg(&float_vector3)), vec![0.566, 1.132, 1.302]);
    assert_eq!(floats(&Math::normalizing_avg(&int_vector3)), vec![0.750, 1.500, 0.750]);
    assert_eq!(floats(&Math::normalizing_avg(&float_vector4)), vec![-1.2, 1.2, 0.0]);
    assert_eq!(floats(&Math::normalizing_avg(&int_vector4)), vec![0.000, -2.000, 2.000]);
}

#[test]
fn test_normalizing_first_sample() {
    //testing with positives
    let float_vector1 = float_data(&[6.2, 7.1, 6.2]);
    let int_vector1 = RawData::IntVec(vec![1, 2, 3]);

    //testing with zeros
    let float_vector2 = float_data(&[0.0, 0.0, 0.0]);
    let int_vector2 = RawData::IntVec(vec![0, 0, 0]);

    //testing with negatives
    let float_vector3 = float_data(&[-1.0, -2.0, -2.3]);
    let int_vector3 = RawData::IntVec(vec![-1, -2, -1]);

    assert_eq!(
        floats(&Math::normalizing_first_sample(&float_vector1)),
        vec![1.0, 1.145, 1.0]
    );
    assert_eq!(floats(&Math::normalizing_first_sample(&int_vector1)), vec![1.0, 2.0, 3.0]);
    assert_eq!(
        floats(&Math::normalizing_first_sample(&float_vector2)),
        vec![0.000, 0.000, 0.000]
    );
    assert_eq!(
        floats(&Math::normalizing_first_sample(&int_vector2)),
        vec![0.000, 0.000, 0.000]
    );
    assert_eq!(
        floats(&Math::normalizing_first_sample(&float_vector3)),
        vec![1.0, 2.0, 2.3]
    );
    assert_eq!(floats(&Math::normalizing_first_sample(&int_vector3)), vec![1.0, 2.0, 1.0]);
}

#[test]
fn test_calculate_zscore() {
    //testing with positives
    let float_vector1 = float_data(&[6.2, 7.1, 6.2]);
    let int_vector1 = RawData::IntVec(vec![1, 2, 3]);

    //testing with zeros
    let float_vector2 = float_data(&[0.0, 0.0, 0.0]);
    let int_vector2 = RawData::IntVec(vec![0, 0, 0]);

    assert_eq!(
        floats(&Math::calculate_zscore(&float_vector1)),
        vec![-0.707, 1.414, -0.707]
    );
    assert_eq!(floats(&Math::calculate_zscore(&int_vector1)), vec![-1.225, 0.0, 1.225]);
    assert_eq!(
        floats(&Math::calculate_zscore(&float_vector2)),
        vec![0.000, 0.000, 0.000]
    );
    assert_eq!(floats(&Math::calculate_zscore(&int_vector2)), vec![0.000, 0.000, 0.000]);
}

#[test]
fn test_min_and_max() {
    //testing with positives
    let float_vector1 = float_data(&[6.2, 7.1, 6.2]);
    let int_vector1 = RawData::IntVec(vec![1, 2, 3]);

    //testing with zeros and no min/max
    let float_vector2 = float_data(&[0.0, 0.0, 0.0]);
    let int_vector2 = RawData::IntVec(vec![0, 0, 0]);

    //testing with negatives
    let float_vector3 = float_data(&[-1.0, -2.0, -2.3]);
    let int_vector3 = RawData::IntVec(vec![-1, -2, -1]);

    //testing with negatives and positives
    let float_vector4 = float_data(&[-1.0, 2.0, -2.3]);
    let int_vector4 = RawData::IntVec(vec![-1, -2, 1]);

    assert_eq!(floats(&Math::min_and_max(&float_vector1)), vec![6.2, 7.1]);
    assert_eq!(floats(&Math::min_and_max(&int_vector1)), vec![1.0, 3.0]);
    assert_eq!(floats(&Math::min_and_max(&float_vector2)), vec![0.0, 0.0]);
    assert_eq!(floats(&Math::min_and_max(&int_vector2)), vec![0.0, 0.0]);
    assert_eq!(floats(&Math::min_and_max(&float_vector3)), vec![-2.3, -1.0]);
    assert_eq!(floats(&Math::min_and_max(&int_vector3)), vec![-2.0, -1.0]);
    assert_eq!(floats(&Math::min_and_max(&float_vector4)), vec![-2.3, 2.0]);
    assert_eq!(floats(&Math::min_and_max(&int_vector4)), vec![-2.0, 1.0]);
}

#[test]
fn test_windowing() {
    let float_vector1 = float_data(&[6.2, 7.1, 6.2]);
    let int_vector1 = RawData::IntVec(vec![1, 2, 3]);

    let w = Windowing::windowing(&float_vector1, 2);
    let w: Vec<Vec<f32>> = w.iter().map(|c| floats(c)).collect();
    assert_eq!(w, vec![vec![6.2, 7.1], vec![6.2]]);

    let w = Windowing::windowing(&int_vector1, 2);
    let w: Vec<Vec<f32>> = w.iter().map(|c| floats(c)).collect();
    assert_eq!(w, vec![vec![1.0, 2.0], vec![3.0]]);
}

#[test]
fn three_tap_average_keeps_length() {
    let mut fir = moving_average_filter::new();
    let out = floats(&fir.process(&bits(&[1.0, 2.0, 3.0, 4.0, 5.0])));
    assert_eq!(out, vec![1.0, 2.0, 3.0, 4.0, 3.0]);

    let mut filter = MovingAverageFilter::new();
    let out = floats(&filter.process(&RawData::IntVec(vec![3, 3, 3])));
    assert_eq!(out, vec![2.0, 3.0, 2.0]);

    let out = floats(&filter.process(&float_data(&[6.0, 0.0])));
    assert_eq!(out, vec![2.0, 2.0]);
}

#[test]
fn resampling_by_increment_picks_every_step() {
    let data = DataResampling::new();
    let series = float_data(&[0.0, 1.0, 2.0, 3.0, 4.0, 5.0, 6.0]);
    // 100 / 33 truncates to an increment of 3.
    let out = data.resampling_by_increment(&series, 33.0f32.to_bits(), 100.0f32.to_bits());
    assert_eq!(floats(&out), vec![0.0, 3.0, 6.0]);
    // An output frequency above the input one yields nothing.
    let out = data.resampling_by_increment(&series, 200.0f32.to_bits(), 100.0f32.to_bits());
    assert!(out.is_empty());
    let out = data.resampling_by_average(&series, 200.0f32.to_bits(), 100.0f32.to_bits());
    assert!(out.is_empty());
}

#[test]
fn approx_equal_vec_compares_with_tolerance() {
    let a = bits(&[1.0, 2.0]);
    let b = bits(&[1.00005, 1.99995]);
    assert!(DataResampling::assert_approx_equal_vec(&a, &b, 0.001f32.to_bits()));
    assert!(!DataResampling::assert_approx_equal_vec(&a, &b, 0.00001f32.to_bits()));
    let short = bits(&[1.0]);
    assert!(!DataResampling::assert_approx_equal_vec(&a, &short, 0.001f32.to_bits()));
}

#[test]
fn raw_data_view_widens_integers() {
    let series = RawData::new_int_vector(vec![1, -1, 0, 7]);
    assert_eq!(floats(&series.return_vector_clone()), vec![1.0, -1.0, 0.0, 7.0]);
    let series = RawData::new_float_vector(bits(&[0.5, -0.25]));
    assert_eq!(floats(&series.return_vector_clone()), vec![0.5, -0.25]);
    let _finder = Peak_Finder::new();
}
