use chaos::aggregate::process_data;
use chaos::data::{DataRequest, DataType};

fn text(s: &str) -> DataType {
    DataType::Text(String::from(s))
}

#[test]
fn scenario_mixed() {
    let request = DataRequest {
        data: vec![text("ab"), DataType::Num(3), text("c"), DataType::Num(4)],
    };
    let response = process_data(request);
    assert_eq!(response.string_len, 3);
    assert_eq!(response.int_sum, 7);
}

#[test]
fn scenario_empty() {
    let request = DataRequest { data: vec![] };
    let response = process_data(request);
    assert_eq!(response.string_len, 0);
    assert_eq!(response.int_sum, 0);
}

#[test]
fn scenario_numbers_only() {
    let request = DataRequest {
        data: vec![DataType::Num(1), DataType::Num(2), DataType::Num(3)],
    };
    let response = process_data(request);
    assert_eq!(response.string_len, 0);
    assert_eq!(response.int_sum, 6);
}

#[test]
fn scenario_strings_only() {
    let request = DataRequest {
        data: vec![text("hello"), text("world")],
    };
    let response = process_data(request);
    assert_eq!(response.string_len, 10);
    assert_eq!(response.int_sum, 0);
}

#[test]
fn negative_numbers() {
    let request = DataRequest {
        data: vec![DataType::Num(-5), DataType::Num(2)],
    };
    let response = process_data(request);
    assert_eq!(response.string_len, 0);
    assert_eq!(response.int_sum, -3);
}

#[test]
fn multibyte_text_counts_scalar_values() {
    // "h\u{e9}llo" holds five Unicode scalar values but six bytes.
    let request = DataRequest {
        data: vec![text("h\u{e9}llo")],
    };
    let response = process_data(request);
    assert_eq!(response.string_len, 5);
}

#[test]
fn idempotent_on_equal_requests() {
    let build = || DataRequest {
        data: vec![text("ab"), DataType::Num(3), text("c"), DataType::Num(4)],
    };
    let first = process_data(build());
    let second = process_data(build());
    assert_eq!(first, second);
}

#[test]
fn order_independent() {
    let forward = DataRequest {
        data: vec![text("ab"), DataType::Num(3), text("c"), DataType::Num(4)],
    };
    let backward = DataRequest {
        data: vec![DataType::Num(4), text("c"), DataType::Num(3), text("ab")],
    };
    assert_eq!(process_data(forward), process_data(backward));
}

#[test]
fn int_sum_wraps_above_max() {
    let request = DataRequest {
        data: vec![DataType::Num(i32::MAX), DataType::Num(1)],
    };
    let response = process_data(request);
    assert_eq!(response.int_sum, i32::MIN);
}

#[test]
fn int_sum_wraps_below_min() {
    let request = DataRequest {
        data: vec![DataType::Num(i32::MIN), DataType::Num(-1)],
    };
    let response = process_data(request);
    assert_eq!(response.int_sum, i32::MAX);
}

#[test]
fn int_sum_wraps_back_into_range() {
    let request = DataRequest {
        data: vec![DataType::Num(i32::MAX), DataType::Num(1), DataType::Num(-1)],
    };
    let response = process_data(request);
    assert_eq!(response.int_sum, i32::MAX);
}
