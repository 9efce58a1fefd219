use meshtnc::rxlog::{is_float_text, parse_rxlog, RxRecord};

fn must_parse(line: &[u8]) -> RxRecord {
    parse_rxlog(&line.to_vec()).expect("expected a well-formed RXLOG record")
}

#[test]
fn rxlog_happy_path() {
    let rec = must_parse(b"12345,RXLOG,-92.5,7.25,DEADBEEF\n");
    assert_eq!(rec.timestamp, 12345);
    assert_eq!(rec.rssi, Some(b"-92.5".to_vec()));
    assert_eq!(rec.snr, Some(b"7.25".to_vec()));
    assert_eq!(rec.payload, vec![0xDE, 0xAD, 0xBE, 0xEF]);
}

#[test]
fn rxlog_bad_hex_drops_the_record() {
    assert_eq!(parse_rxlog(&b"99,RXLOG,-80,5,ZZ\n".to_vec()), None);
}

#[test]
fn rxlog_odd_hex_drops_the_record() {
    assert_eq!(parse_rxlog(&b"99,RXLOG,-80,5,ABC\n".to_vec()), None);
}

#[test]
fn rxlog_missing_rssi_is_absent_not_dropped() {
    let rec = must_parse(b"99,RXLOG,,5,AA\n");
    assert_eq!(rec.timestamp, 99);
    assert_eq!(rec.rssi, None);
    assert_eq!(rec.snr, Some(b"5".to_vec()));
    assert_eq!(rec.payload, vec![0xAA]);
}

#[test]
fn rxlog_non_numeric_rssi_is_absent_not_dropped() {
    let rec = must_parse(b"99,RXLOG,loud,5,AA\n");
    assert_eq!(rec.rssi, None);
    assert_eq!(rec.snr, Some(b"5".to_vec()));
}

#[test]
fn rxlog_wrong_arity_drops_the_record() {
    assert_eq!(parse_rxlog(&b"99,RXLOG,1,2\n".to_vec()), None);
    assert_eq!(parse_rxlog(&b"99,RXLOG,1,2,AA,extra\n".to_vec()), None);
    assert_eq!(parse_rxlog(&b"99\n".to_vec()), None);
    assert_eq!(parse_rxlog(&b"\n".to_vec()), None);
}

#[test]
fn rxlog_wrong_tag_drops_the_record() {
    assert_eq!(parse_rxlog(&b"99,TXLOG,1,2,AA\n".to_vec()), None);
}

#[test]
fn rxlog_bad_timestamp_drops_the_record() {
    assert_eq!(parse_rxlog(&b"soon,RXLOG,1,2,AA\n".to_vec()), None);
    assert_eq!(parse_rxlog(&b"-1,RXLOG,1,2,AA\n".to_vec()), None);
    assert_eq!(parse_rxlog(&b"+1,RXLOG,1,2,AA\n".to_vec()), None);
    assert_eq!(parse_rxlog(&b",RXLOG,1,2,AA\n".to_vec()), None);
    // One past u64::MAX overflows and drops the record.
    assert_eq!(parse_rxlog(&b"18446744073709551616,RXLOG,1,2,AA\n".to_vec()), None);
}

#[test]
fn rxlog_timestamp_at_the_limit_is_kept() {
    let rec = must_parse(b"18446744073709551615,RXLOG,1,2,AA\n");
    assert_eq!(rec.timestamp, u64::MAX);
}

#[test]
fn rxlog_hex_is_case_insensitive_and_may_be_empty() {
    let rec = must_parse(b"7,RXLOG,1,2,deadBEEF\n");
    assert_eq!(rec.payload, vec![0xDE, 0xAD, 0xBE, 0xEF]);
    let rec = must_parse(b"7,RXLOG,1,2,\n");
    assert_eq!(rec.payload, Vec::<u8>::new());
}

#[test]
fn rxlog_fields_are_trimmed() {
    let rec = must_parse(b"  12345 , RXLOG , -92.5 , 7.25 , AA \n");
    assert_eq!(rec.timestamp, 12345);
    assert_eq!(rec.rssi, Some(b"-92.5".to_vec()));
    assert_eq!(rec.payload, vec![0xAA]);
}

#[test]
fn float_recognizer_agrees_with_f32_parsing() {
    let cases: &[&str] = &[
        "-92.5", "7.25", "", "abc", "1e5", "1E5", "+3", "-.5", "5.", ".", "1.", "0",
        "inf", "-INF", "Infinity", "+infinity", "nan", "NaN", "-nan", "1e", "1e+", "1e+5",
        "--1", "1.2.3", " 1", "1 ", "0x12", "12e-3", "1_000", "e5", ".e5", "+", "-",
        "infinityy", "na", "3.14159", "-0.0", "1e99999",
    ];
    for c in cases {
        let ours = is_float_text(&c.as_bytes().to_vec());
        let std_says = c.parse::<f32>().is_ok();
        assert_eq!(ours, std_says, "disagreement on {:?}", c);
    }
}
