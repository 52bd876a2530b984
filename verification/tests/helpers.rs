use samsynk::helpers::{group_consecutive, signed, slug_name};
use samsynk::server::origin_url;

#[test]
fn test_group_consecutive() {
    let input = vec![1, 2, 3, 5, 6, 9];
    let expected_out = [(1, 3), (5, 2), (9, 1)];
    let out = group_consecutive(input);
    assert_eq!(out, expected_out);
}

#[test]
fn test_group_consecutive_unsorted() {
    let input = vec![3, 1, 6, 2, 9, 5];
    let expected_out = [(1, 3), (5, 2), (9, 1)];
    let out = group_consecutive(input);
    assert_eq!(out, expected_out);
}

#[test]
fn group_consecutive_all_permutations_agree() {
    // Order-independence on a couple more permutations of the same input.
    let expected = vec![(1, 3), (5, 2), (9, 1)];
    assert_eq!(group_consecutive(vec![9, 6, 5, 3, 2, 1]), expected);
    assert_eq!(group_consecutive(vec![5, 9, 1, 3, 6, 2]), expected);
    assert_eq!(group_consecutive(vec![2, 1, 9, 5, 6, 3]), expected);
}

#[test]
fn group_consecutive_duplicates_count_once() {
    // A duplicated address is already covered by its run.
    assert_eq!(group_consecutive(vec![1, 1, 2, 3, 3]), vec![(1, 3)]);
    assert_eq!(group_consecutive(vec![7, 7, 7]), vec![(7, 1)]);
}

#[test]
fn group_consecutive_long_duplicate_input() {
    // Far more entries than there are addresses: duplicates cost nothing.
    let mut input: Vec<u16> = Vec::new();
    for i in 0..70000u32 {
        input.push((i % 3) as u16 + 7);
    }
    assert_eq!(group_consecutive(input), vec![(7, 3)]);
}

#[test]
fn group_consecutive_empty() {
    assert_eq!(group_consecutive(vec![]), vec![]);
}

#[test]
fn group_consecutive_single() {
    assert_eq!(group_consecutive(vec![42]), vec![(42, 1)]);
}

#[test]
fn signed_conversion_boundaries() {
    assert_eq!(signed(0x7FFF), 0x7FFF);
    assert_eq!(signed(0x8000), 0x8000 - 0xFFFF);
    assert_eq!(signed(0), 0);
    assert_eq!(signed(0xFFFF), 0);
    // The whole i64 domain is admitted.
    assert_eq!(signed(i64::MIN), i64::MIN);
    assert_eq!(signed(i64::MAX), i64::MAX - 0xFFFF);
}

#[test]
fn slug_name_normalizes() {
    assert_eq!(slug_name("Battery Voltage"), "battery_voltage");
    assert_eq!(slug_name("  Grid-Power "), "grid_power");
    assert_eq!(slug_name("Sunsynk Fault Codes"), "sunsynk_fault_codes");
    assert_eq!(slug_name(""), "");
}

#[test]
fn origin_url_renders_address() {
    assert_eq!(origin_url(([127, 0, 0, 1], 8080)), "http://127.0.0.1:8080");
    assert_eq!(origin_url(([192, 168, 1, 10], 80)), "http://192.168.1.10:80");
}
