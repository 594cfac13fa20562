use ecocode::record::{parse_fixed, parse_signed, parse_unsigned, Record};

fn sample_record() -> Record {
    Record::new(
        7,
        -3,
        4242,
        "2024-05-01T12:00:00+00:00".to_string(),
        5_000,
        300_000,
        1_250,
        80_000,
        Some(42),
        Some(1_500_000),
        None,
        None,
    )
}

#[test]
fn missing_optional_fields_are_zero() {
    let r = sample_record();
    assert_eq!(r.mem_usage, 42);
    assert_eq!(r.mem_energy, 1_500_000);
    assert_eq!(r.igpu_usage, 0);
    assert_eq!(r.igpu_energy, 0);
}

#[test]
fn fields_are_written_at_declared_precision() {
    let f = sample_record().to_vec();
    assert_eq!(
        f,
        vec![
            "7",
            "-3",
            "4242",
            "2024-05-01T12:00:00+00:00",
            "50.00",
            "0.300000",
            "12.50",
            "0.080000",
            "0.42",
            "1.500000",
            "0.00",
            "0.000000",
        ]
    );
}

#[test]
fn record_round_trips_through_its_fields() {
    let r = sample_record();
    assert_eq!(Record::from_fields(&r.to_vec()), Some(r));
    let big = Record::new(
        u64::MAX,
        i64::MIN,
        u32::MAX,
        String::new(),
        10_000,
        u128::MAX,
        0,
        0,
        None,
        None,
        Some(1),
        Some(1),
    );
    assert_eq!(Record::from_fields(&big.to_vec()), Some(big));
}

#[test]
fn malformed_fields_are_rejected() {
    let mut f = sample_record().to_vec();
    f[4] = "50.0".to_string();
    assert_eq!(Record::from_fields(&f), None);
    let mut g = sample_record().to_vec();
    g.pop();
    assert_eq!(Record::from_fields(&g), None);
    let mut h = sample_record().to_vec();
    h[2] = "4294967296".to_string();
    assert_eq!(Record::from_fields(&h), None);
}

#[test]
fn fixed_point_text_is_read() {
    assert_eq!(parse_fixed("50.00", 2), Some(5_000));
    assert_eq!(parse_fixed("0.300000", 6), Some(300_000));
    assert_eq!(parse_fixed(".50", 2), None);
    assert_eq!(parse_fixed("5.5", 2), None);
    assert_eq!(parse_fixed("1,00", 2), None);
}

#[test]
fn integer_text_is_read() {
    assert_eq!(parse_signed("-9223372036854775808"), Some(i64::MIN));
    assert_eq!(parse_signed("9223372036854775808"), None);
    assert_eq!(parse_signed("-"), None);
    assert_eq!(parse_unsigned("255", 255), Some(255));
    assert_eq!(parse_unsigned("256", 255), None);
}
