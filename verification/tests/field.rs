use art_engine::error::EngineError;
use art_engine::field::{cell_count, Field};

fn bits(v: f64) -> u64 {
    v.to_bits()
}

fn val(b: u64) -> f64 {
    f64::from_bits(b)
}

fn new(width: usize, height: usize) -> Result<Field, EngineError> {
    Field::new(width, height)
}

fn filled(width: usize, height: usize, value: f64) -> Result<Field, EngineError> {
    Field::filled(width, height, bits(value))
}

fn get(field: &Field, x: isize, y: isize) -> f64 {
    val(field.get(x, y))
}

fn set(field: &mut Field, x: isize, y: isize, value: f64) {
    field.set(x, y, bits(value));
}

fn values(field: &Field) -> Vec<f64> {
    field.data().iter().map(|&b| val(b)).collect()
}

fn add(a: &Field, b: &Field) -> Result<Field, EngineError> {
    a.zip_with(b, |x: u64, y: u64| bits(val(x) + val(y)))
}

fn multiply(a: &Field, b: &Field) -> Result<Field, EngineError> {
    a.zip_with(b, |x: u64, y: u64| bits(val(x) * val(y)))
}

fn add_assign(a: &mut Field, b: &Field) -> Result<(), EngineError> {
    a.zip_assign(b, |x: u64, y: u64| bits(val(x) + val(y)))
}

fn multiply_assign(a: &mut Field, b: &Field) -> Result<(), EngineError> {
    a.zip_assign(b, |x: u64, y: u64| bits(val(x) * val(y)))
}

fn scale(a: &Field, factor: f64) -> Field {
    a.map(|x: u64| bits(val(x) * factor))
}

fn scale_assign(a: &mut Field, factor: f64) {
    a.map_assign(|x: u64| bits(val(x) * factor))
}

#[test]
fn new_creates_zero_filled_field() {
    let field = new(4, 3).unwrap();
    assert_eq!(field.width(), 4);
    assert_eq!(field.height(), 3);
    assert_eq!(field.data().len(), 12);
    assert!(values(&field).iter().all(|&v| v == 0.0));
}

#[test]
fn new_with_zero_width_returns_error() {
    let result = new(0, 5);
    assert!(result.is_err());
    assert!(matches!(result.unwrap_err(), EngineError::InvalidDimensions));
}

#[test]
fn new_with_zero_height_returns_error() {
    let result = new(5, 0);
    assert!(result.is_err());
    assert!(matches!(result.unwrap_err(), EngineError::InvalidDimensions));
}

#[test]
fn new_with_both_zero_returns_error() {
    let result = new(0, 0);
    assert!(result.is_err());
}

#[test]
fn filled_creates_correct_values() {
    let field = filled(3, 2, 0.7).unwrap();
    assert!(values(&field).iter().all(|&v| (v - 0.7).abs() < f64::EPSILON));
}

#[test]
fn filled_clamps_value_above_one() {
    let field = filled(2, 2, 1.5).unwrap();
    assert!(values(&field).iter().all(|&v| (v - 1.0).abs() < f64::EPSILON));
}

#[test]
fn filled_clamps_value_below_zero() {
    let field = filled(2, 2, -0.3).unwrap();
    assert!(values(&field).iter().all(|&v| v == 0.0));
}

#[test]
fn filled_with_zero_dimension_returns_error() {
    assert!(filled(0, 3, 0.5).is_err());
    assert!(filled(3, 0, 0.5).is_err());
}

#[test]
fn get_and_set_with_positive_indices() {
    let mut field = new(4, 4).unwrap();
    set(&mut field, 2, 3, 0.42);
    assert!((get(&field, 2, 3) - 0.42).abs() < f64::EPSILON);
}

#[test]
fn set_at_origin() {
    let mut field = new(3, 3).unwrap();
    set(&mut field, 0, 0, 0.99);
    assert!((get(&field, 0, 0) - 0.99).abs() < f64::EPSILON);
}

#[test]
fn set_at_max_valid_index() {
    let mut field = new(5, 5).unwrap();
    set(&mut field, 4, 4, 0.5);
    assert!((get(&field, 4, 4) - 0.5).abs() < f64::EPSILON);
}

#[test]
fn get_wraps_negative_x() {
    let mut field = new(4, 4).unwrap();
    set(&mut field, 3, 0, 0.8);
    assert!((get(&field, -1, 0) - 0.8).abs() < f64::EPSILON);
}

#[test]
fn get_wraps_negative_y() {
    let mut field = new(4, 4).unwrap();
    set(&mut field, 0, 3, 0.6);
    assert!((get(&field, 0, -1) - 0.6).abs() < f64::EPSILON);
}

#[test]
fn get_wraps_overflow_x() {
    let mut field = new(4, 4).unwrap();
    set(&mut field, 1, 0, 0.3);
    assert!((get(&field, 5, 0) - 0.3).abs() < f64::EPSILON);
}

#[test]
fn get_wraps_overflow_y() {
    let mut field = new(4, 4).unwrap();
    set(&mut field, 0, 2, 0.9);
    assert!((get(&field, 0, 6) - 0.9).abs() < f64::EPSILON);
}

#[test]
fn set_with_negative_indices_wraps() {
    let mut field = new(3, 3).unwrap();
    set(&mut field, -1, -1, 0.77);
    assert!((get(&field, 2, 2) - 0.77).abs() < f64::EPSILON);
}

#[test]
fn set_with_large_negative_wraps() {
    let mut field = new(4, 4).unwrap();
    set(&mut field, -5, -9, 0.33);
    assert!((get(&field, 3, 3) - 0.33).abs() < f64::EPSILON);
}

#[test]
fn set_clamps_value_above_one() {
    let mut field = new(2, 2).unwrap();
    set(&mut field, 0, 0, 2.5);
    assert!((get(&field, 0, 0) - 1.0).abs() < f64::EPSILON);
}

#[test]
fn set_clamps_value_below_zero() {
    let mut field = new(2, 2).unwrap();
    set(&mut field, 0, 0, -0.5);
    assert!(get(&field, 0, 0) == 0.0);
}

#[test]
fn add_two_fields_element_wise() {
    let a = filled(2, 2, 0.3).unwrap();
    let b = filled(2, 2, 0.4).unwrap();
    let c = add(&a, &b).unwrap();
    assert!(values(&c).iter().all(|&v| (v - 0.7).abs() < f64::EPSILON));
}

#[test]
fn add_clamps_to_one() {
    let a = filled(2, 2, 0.8).unwrap();
    let b = filled(2, 2, 0.5).unwrap();
    let c = add(&a, &b).unwrap();
    assert!(values(&c).iter().all(|&v| (v - 1.0).abs() < f64::EPSILON));
}

#[test]
fn add_returns_error_on_dimension_mismatch() {
    let a = new(2, 3).unwrap();
    let b = new(3, 2).unwrap();
    let result = add(&a, &b);
    assert!(matches!(result, Err(EngineError::DimensionMismatch { .. })));
}

#[test]
fn multiply_two_fields_element_wise() {
    let a = filled(2, 2, 0.5).unwrap();
    let b = filled(2, 2, 0.6).unwrap();
    let c = multiply(&a, &b).unwrap();
    assert!(values(&c).iter().all(|&v| (v - 0.3).abs() < f64::EPSILON));
}

#[test]
fn multiply_with_zero_field_yields_zero() {
    let a = filled(2, 2, 0.8).unwrap();
    let b = new(2, 2).unwrap();
    let c = multiply(&a, &b).unwrap();
    assert!(values(&c).iter().all(|&v| v == 0.0));
}

#[test]
fn multiply_returns_error_on_dimension_mismatch() {
    let a = new(2, 2).unwrap();
    let b = new(3, 3).unwrap();
    let result = multiply(&a, &b);
    assert!(matches!(result, Err(EngineError::DimensionMismatch { .. })));
}

#[test]
fn scale_multiplies_all_values() {
    let field = filled(2, 2, 0.4).unwrap();
    let scaled = scale(&field, 0.5);
    assert!(values(&scaled).iter().all(|&v| (v - 0.2).abs() < f64::EPSILON));
}

#[test]
fn scale_clamps_above_one() {
    let field = filled(2, 2, 0.8).unwrap();
    let scaled = scale(&field, 2.0);
    assert!(values(&scaled).iter().all(|&v| (v - 1.0).abs() < f64::EPSILON));
}

#[test]
fn scale_clamps_below_zero_for_negative_factor() {
    let field = filled(2, 2, 0.5).unwrap();
    let scaled = scale(&field, -1.0);
    assert!(values(&scaled).iter().all(|&v| v == 0.0));
}

#[test]
fn scale_does_not_mutate_original() {
    let field = filled(2, 2, 0.4).unwrap();
    let _scaled = scale(&field, 2.0);
    assert!(values(&field).iter().all(|&v| (v - 0.4).abs() < f64::EPSILON));
}

#[test]
fn iter_yields_all_triples_in_row_major_order() {
    let mut field = new(3, 2).unwrap();
    set(&mut field, 0, 0, 0.1);
    set(&mut field, 1, 0, 0.2);
    set(&mut field, 2, 0, 0.3);
    set(&mut field, 0, 1, 0.4);
    set(&mut field, 1, 1, 0.5);
    set(&mut field, 2, 1, 0.6);

    let triples: Vec<(usize, usize, f64)> =
        field.iter().into_iter().map(|(x, y, b)| (x, y, val(b))).collect();
    assert_eq!(triples.len(), 6);
    assert_eq!(triples[0], (0, 0, 0.1));
    assert_eq!(triples[1], (1, 0, 0.2));
    assert_eq!(triples[2], (2, 0, 0.3));
    assert_eq!(triples[3], (0, 1, 0.4));
    assert_eq!(triples[4], (1, 1, 0.5));
    assert_eq!(triples[5], (2, 1, 0.6));
}

#[test]
fn iter_on_empty_field_yields_nothing_for_1x1() {
    let field = new(1, 1).unwrap();
    let triples: Vec<(usize, usize, f64)> =
        field.iter().into_iter().map(|(x, y, b)| (x, y, val(b))).collect();
    assert_eq!(triples.len(), 1);
    assert_eq!(triples[0], (0, 0, 0.0));
}

#[test]
fn clone_produces_independent_copy() {
    let mut original = new(3, 3).unwrap();
    set(&mut original, 1, 1, 0.5);
    let clone = original.clone();
    assert!((get(&clone, 1, 1) - 0.5).abs() < f64::EPSILON);

    set(&mut original, 1, 1, 0.9);
    assert!((get(&clone, 1, 1) - 0.5).abs() < f64::EPSILON);
}

#[test]
fn new_with_overflow_dimensions_returns_error() {
    let result = new(usize::MAX, 2);
    assert!(result.is_err());
}

#[test]
fn filled_with_overflow_dimensions_returns_error() {
    let result = filled(usize::MAX, 2, 0.5);
    assert!(result.is_err());
}

#[test]
fn add_assign_modifies_in_place() {
    let mut a = filled(2, 2, 0.3).unwrap();
    let b = filled(2, 2, 0.4).unwrap();
    add_assign(&mut a, &b).unwrap();
    assert!(values(&a).iter().all(|&v| (v - 0.7).abs() < f64::EPSILON));
}

#[test]
fn add_assign_returns_error_on_mismatch() {
    let mut a = new(2, 2).unwrap();
    let b = new(3, 3).unwrap();
    assert!(matches!(add_assign(&mut a, &b), Err(EngineError::DimensionMismatch { .. })));
}

#[test]
fn multiply_assign_modifies_in_place() {
    let mut a = filled(2, 2, 0.5).unwrap();
    let b = filled(2, 2, 0.6).unwrap();
    multiply_assign(&mut a, &b).unwrap();
    assert!(values(&a).iter().all(|&v| (v - 0.3).abs() < f64::EPSILON));
}

#[test]
fn multiply_assign_returns_error_on_mismatch() {
    let mut a = new(2, 2).unwrap();
    let b = new(3, 3).unwrap();
    assert!(matches!(multiply_assign(&mut a, &b), Err(EngineError::DimensionMismatch { .. })));
}

#[test]
fn scale_assign_modifies_in_place() {
    let mut field = filled(2, 2, 0.4).unwrap();
    scale_assign(&mut field, 0.5);
    assert!(values(&field).iter().all(|&v| (v - 0.2).abs() < f64::EPSILON));
}

#[test]
fn data_mut_allows_direct_write() {
    let mut field = new(2, 2).unwrap();
    field.data_mut()[0] = bits(0.42);
    assert!((get(&field, 0, 0) - 0.42).abs() < f64::EPSILON);
}

#[test]
fn from_data_creates_field_from_vec() {
    let data: Vec<u64> = vec![0.1, 0.2, 0.3, 0.4, 0.5, 0.6].into_iter().map(bits).collect();
    let field = Field::from_data(3, 2, data).unwrap();
    assert_eq!(field.width(), 3);
    assert_eq!(field.height(), 2);
    assert!((get(&field, 0, 0) - 0.1).abs() < f64::EPSILON);
}

#[test]
fn from_data_rejects_wrong_length() {
    let data: Vec<u64> = vec![0.1, 0.2, 0.3].into_iter().map(bits).collect();
    let result = Field::from_data(2, 2, data);
    assert!(result.is_err());
}

#[test]
fn from_data_rejects_zero_dimensions() {
    let result = Field::from_data(0, 5, vec![]);
    assert!(result.is_err());
}

#[test]
fn from_data_reports_the_lengths_that_differ() {
    let result = Field::from_data(2, 2, vec![0, 0, 0]);
    match result {
        Err(EngineError::DimensionMismatch { lhs_w, lhs_h, rhs_w, rhs_h }) => {
            assert_eq!((lhs_w, lhs_h, rhs_w, rhs_h), (2, 2, 3, 1));
        }
        other => panic!("expected a dimension mismatch, got {other:?}"),
    }
}

#[test]
fn from_data_does_not_clamp() {
    let field = Field::from_data(2, 1, vec![bits(7.0), bits(-3.0)]).unwrap();
    assert_eq!(values(&field), vec![7.0, -3.0]);
}

#[test]
fn from_data_rejects_overflowing_dimensions() {
    let result = Field::from_data(usize::MAX, 2, vec![0, 0]);
    assert!(matches!(result, Err(EngineError::InvalidDimensions)));
}

#[test]
fn mismatch_error_carries_both_shapes() {
    let a = new(2, 3).unwrap();
    let b = new(5, 7).unwrap();
    match add(&a, &b) {
        Err(EngineError::DimensionMismatch { lhs_w, lhs_h, rhs_w, rhs_h }) => {
            assert_eq!((lhs_w, lhs_h, rhs_w, rhs_h), (2, 3, 5, 7));
        }
        other => panic!("expected a dimension mismatch, got {other:?}"),
    }
}

#[test]
fn zip_assign_leaves_field_alone_on_mismatch() {
    let mut a = filled(2, 2, 0.25).unwrap();
    let b = new(3, 3).unwrap();
    assert!(add_assign(&mut a, &b).is_err());
    assert_eq!(values(&a), vec![0.25; 4]);
}

#[test]
fn cell_count_is_the_product_or_nothing() {
    assert_eq!(cell_count(4, 3), Some(12));
    assert_eq!(cell_count(1, 1), Some(1));
    assert_eq!(cell_count(0, 3), None);
    assert_eq!(cell_count(3, 0), None);
    assert_eq!(cell_count(usize::MAX, 2), None);
    assert_eq!(cell_count(usize::MAX, 1), Some(usize::MAX));
}

#[test]
fn index_is_row_major_and_wraps() {
    let field = new(4, 3).unwrap();
    assert_eq!(field.index(0, 0), 0);
    assert_eq!(field.index(3, 0), 3);
    assert_eq!(field.index(0, 1), 4);
    assert_eq!(field.index(3, 2), 11);
    assert_eq!(field.index(-1, 0), 3);
    assert_eq!(field.index(0, -1), 8);
    assert_eq!(field.index(4, 3), 0);
    assert_eq!(field.index(-5, -4), 11);
    assert_eq!(field.index(isize::MIN, isize::MAX), 4);
}

#[test]
fn toroidal_equivalence_on_samples() {
    for (w, h) in [(1usize, 1usize), (3, 5), (7, 2), (64, 64)] {
        let mut field = new(w, h).unwrap();
        for x in -20isize..20 {
            for y in -20isize..20 {
                set(&mut field, x, y, 0.001 * (x * 41 + y) as f64);
                let here = field.get(x, y);
                assert_eq!(here, field.get(x + w as isize, y + h as isize));
                assert_eq!(here, field.get(x - w as isize, y));
                assert_eq!(here, field.get(x, y - h as isize));
            }
        }
    }
}

#[test]
fn get_after_set_returns_clamped_value() {
    let mut field = new(5, 4).unwrap();
    for (i, v) in [-1e9, -1.0, -0.0, 0.0, 0.3, 1.0, 1.0000001, 1e9, f64::INFINITY].iter().enumerate() {
        let x = i as isize * 3 - 7;
        let y = 11 - i as isize * 2;
        set(&mut field, x, y, *v);
        let got = get(&field, x, y);
        assert_eq!(got.to_bits(), v.clamp(0.0, 1.0).to_bits());
        assert!((0.0..=1.0).contains(&got));
    }
}

#[test]
fn add_is_commutative() {
    let mut a = new(6, 5).unwrap();
    let mut b = new(6, 5).unwrap();
    for i in 0..30isize {
        set(&mut a, i % 6, i / 6, (i as f64 * 0.037) % 1.0);
        set(&mut b, i % 6, i / 6, (i as f64 * 0.291) % 1.0);
    }
    let ab = add(&a, &b).unwrap();
    let ba = add(&b, &a).unwrap();
    assert_eq!(ab.data(), ba.data());
}

#[test]
fn zip_with_applies_the_operation_cell_by_cell() {
    let a = Field::from_data(2, 2, vec![bits(0.1), bits(0.2), bits(0.3), bits(0.4)]).unwrap();
    let b = Field::from_data(2, 2, vec![bits(0.5), bits(0.5), bits(0.9), bits(-2.0)]).unwrap();
    let c = add(&a, &b).unwrap();
    assert_eq!(c.width(), 2);
    assert_eq!(c.height(), 2);
    assert_eq!(values(&c), vec![0.1 + 0.5, 0.2 + 0.5, 1.0, 0.0]);
}

#[test]
fn map_applies_the_operation_to_every_cell() {
    let a = Field::from_data(3, 1, vec![bits(0.1), bits(0.2), bits(0.9)]).unwrap();
    let doubled = scale(&a, 2.0);
    assert_eq!(values(&doubled), vec![0.2, 0.4, 1.0]);
    assert_eq!(values(&a), vec![0.1, 0.2, 0.9]);
}
