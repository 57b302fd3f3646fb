use game_simulations::blend::{
    baseline_weight, blend_fits, blend_rows, weighted_avg, BlendedRow, BLEND_DENOMINATOR,
};

fn numerators(row: Option<BlendedRow>) -> Vec<i64> {
    row.unwrap().numerators
}

#[test]
fn equal_rows_and_unit_weights_come_back_unchanged() {
    let row = [1i64, 1, 1];
    let blended = weighted_avg(&row, &row, &row, 1, 1, 1).unwrap();
    assert!(blended.equals_row(&[1, 1, 1]));
    assert!(!blended.equals_row(&[1, 1]));
    assert!(!blended.equals_row(&[1, 1, 2]));
    assert_eq!(BLEND_DENOMINATOR, 300);
    assert_eq!(blended.numerators, vec![300, 300, 300]);
    let row = [4i64, 0, 9];
    assert!(weighted_avg(&row, &row, &row, 1, 1, 1).unwrap().equals_row(&row));
}

#[test]
fn rows_of_different_lengths_do_not_blend() {
    assert_eq!(weighted_avg(&[1, 2], &[1, 2, 3], &[1, 2], 1, 1, 1), None);
    assert_eq!(weighted_avg(&[1, 2], &[1, 2], &[1], 1, 1, 1), None);
}

#[test]
fn dominant_baseline_weight_is_damped_to_a_hundredth() {
    // 600 > 5 * (1 + 1): the league row enters with weight 600/100.
    assert!(blend_fits(&[0, 0], &[3, 6], &[0, 0], 1, 600, 1));
    let blended = weighted_avg(&[0, 0], &[3, 6], &[0, 0], 1, 600, 1).unwrap();
    assert!(blended.equals_row(&[6, 12]));
    assert_eq!(blended.numerators, vec![3 * 600, 6 * 600]);
    let blended = weighted_avg(&[3, 0], &[3, 6], &[0, 9], 1, 600, 1).unwrap();
    assert!(blended.equals_row(&[7, 15]));
}

#[test]
fn baseline_weight_at_the_threshold_is_not_damped() {
    // 10 is not more than 5 * (1 + 1): the league row enters with weight 10.
    let blended = weighted_avg(&[0, 0], &[3, 6], &[0, 0], 1, 10, 1).unwrap();
    assert!(blended.equals_row(&[10, 20]));
    // 11 is: the league row enters with weight 11/100.
    assert_eq!(numerators(weighted_avg(&[0, 0], &[3, 6], &[0, 0], 1, 11, 1)), vec![33, 66]);
}

#[test]
fn blend_is_exact() {
    // (2 * 1 + 7 * 1.5 + 1 * 1) / 3 = 13.5 / 3 = 1350 / 300
    assert_eq!(numerators(weighted_avg(&[2], &[7], &[1], 1, 150, 1)), vec![1350]);
    // (2 * 4 + 7 * 3 + 1 * 2) / 3 = 31 / 3 = 3100 / 300
    assert_eq!(numerators(weighted_avg(&[2], &[7], &[1], 4, 3, 2)), vec![3100]);
}

#[test]
fn no_positive_weight_is_lost_in_the_blend() {
    // The league weight of two empty rows is 20, damped to 0.2.
    assert_eq!(baseline_weight(0, 0), Some(20));
    assert_eq!(numerators(weighted_avg(&[0], &[1], &[0], 0, 20, 0)), vec![20]);
    assert_eq!(numerators(blend_rows(&vec![0], &vec![1], &vec![0])), vec![20]);
    // 14 and 16 stay in the proportion 14 to 16.
    assert_eq!(numerators(blend_rows(&vec![0, 0], &vec![14, 16], &vec![0, 0])), vec![280, 320]);
    // Three rows of 24 zeros and a one: (1 * 1 + 1 * 0.4 + 1 * 1) / 3 = 0.8.
    let mut row = vec![0i64; 25];
    row[24] = 1;
    let blended = numerators(blend_rows(&row, &row, &row));
    assert_eq!(blended[24], 240);
    assert!(blended[..24].iter().all(|&n| n == 0));
}

#[test]
fn blend_rows_weighs_each_row_by_its_total() {
    // Totals 6 and 4: the league weight is (7 + 5) * 10 = 120, damped to 1.2.
    let batter = vec![1i64, 2, 3];
    let league = vec![5i64, 0, 1];
    let pitcher = vec![4i64, 0, 0];
    // 1*6 + 5*1.2 + 4*4 = 28, 2*6 = 12, 3*6 + 1*1.2 = 19.2, each over 3
    assert_eq!(numerators(blend_rows(&batter, &league, &pitcher)), vec![2800, 1200, 1920]);
    assert_eq!(blend_rows(&batter, &league, &vec![4i64, 0]), None);
    assert_eq!(blend_rows(&vec![1i64, -2, 3], &league, &pitcher), None);
    assert_eq!(blend_rows(&vec![i64::MAX, 1, 0], &league, &pitcher), None);
    assert_eq!(blend_rows(&vec![i64::MAX / 2, 0, 0], &league, &pitcher), None);
}

#[test]
fn baseline_weight_is_ten_times_the_raised_totals() {
    assert_eq!(baseline_weight(0, 0), Some(20));
    assert_eq!(baseline_weight(6, 4), Some(120));
    assert_eq!(baseline_weight(i64::MAX, 0), None);
    assert_eq!(baseline_weight(i64::MAX / 10 - 2, 0), Some(i64::MAX / 10 * 10));
}

#[test]
fn blend_out_of_range_is_detected() {
    let most = i64::MAX / 100;
    assert!(blend_fits(&[most], &[0], &[0], 1, 0, 0));
    assert_eq!(numerators(weighted_avg(&[most], &[0], &[0], 1, 0, 0)), vec![most * 100]);
    assert!(!blend_fits(&[most + 1], &[0], &[0], 1, 0, 0));
    assert!(!blend_fits(&[most], &[most], &[0], 1, 1, 0));
    assert!(!blend_fits(&[i64::MAX], &[i64::MAX], &[i64::MAX], 3, 3, 3));
    assert!(!blend_fits(&[1, 1], &[1, i64::MAX], &[1, 1], 1, 200, 1));
    // Positions that only some rows have are not blended.
    assert!(blend_fits(&[1], &[1, i64::MAX], &[1, 1], 1, 200, 1));
}

#[test]
fn blend_takes_entries_of_either_sign() {
    assert!(blend_fits(&[1], &[-1], &[1], 1, 1, 1));
    assert_eq!(numerators(weighted_avg(&[1], &[-1], &[1], 1, 1, 1)), vec![100]);
    // 1 > 5 * (-1 + 1): damped. 100 * (2 * -1 + 5 * 1) + 3 * 1
    assert_eq!(numerators(weighted_avg(&[2], &[3], &[5], -1, 1, 1)), vec![303]);
    // 1 is not more than 5 * (-1 + 2). 100 * (2 * -1 + 3 * 1 + 5 * 2)
    assert_eq!(numerators(weighted_avg(&[2], &[3], &[5], -1, 1, 2)), vec![1100]);
}
