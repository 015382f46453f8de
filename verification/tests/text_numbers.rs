use ares_options::config_types::{is_nil_text, OrcaBool, OrcaInt, OrcaUInt, PrinterTechnology};
use ares_options::key_order::key_lt;
use ares_options::number_format::{format_exponent, number_layout, trim_fraction, NumberLayout};
use ares_options::text::{
    char_is_white_space, i64_text, join_strings, parse_i64, parse_u64, split_list, str_eq,
    trim_str, u64_text,
};

#[test]
fn parse_i64_reads_signs_and_limits() {
    assert_eq!(parse_i64("42"), Some(42));
    assert_eq!(parse_i64("+42"), Some(42));
    assert_eq!(parse_i64("-42"), Some(-42));
    assert_eq!(parse_i64("-9223372036854775808"), Some(i64::MIN));
    assert_eq!(parse_i64("9223372036854775807"), Some(i64::MAX));
    assert_eq!(parse_i64("9223372036854775808"), None);
    assert_eq!(parse_i64(""), None);
    assert_eq!(parse_i64("-"), None);
    assert_eq!(parse_i64("1.5"), None);
    assert_eq!(parse_i64(" 1"), None);
}

#[test]
fn parse_u64_reads_the_whole_range() {
    assert_eq!(parse_u64("0"), Some(0));
    assert_eq!(parse_u64("+7"), Some(7));
    assert_eq!(parse_u64("18446744073709551615"), Some(u64::MAX));
    assert_eq!(parse_u64("18446744073709551616"), None);
    assert_eq!(parse_u64("-1"), None);
}

#[test]
fn decimal_text_round_trips() {
    for n in [0i64, 7, -7, 1234567890, i64::MIN, i64::MAX] {
        assert_eq!(i64_text(n), n.to_string());
        assert_eq!(parse_i64(&i64_text(n)), Some(n));
    }
    for n in [0u64, 9, 10, u64::MAX] {
        assert_eq!(u64_text(n), n.to_string());
        assert_eq!(parse_u64(&u64_text(n)), Some(n));
    }
}

#[test]
fn trimming_and_splitting_text() {
    assert_eq!(trim_str("  a b \t\n"), "a b");
    assert_eq!(trim_str("   "), "");
    assert!(char_is_white_space(' '));
    assert!(char_is_white_space('\u{3000}'));
    assert!(!char_is_white_space('x'));
    let pieces: Vec<String> = split_list("a;b,c").into_iter().map(|v| v.into_iter().collect()).collect();
    assert_eq!(pieces, vec!["a".to_owned(), "b".to_owned(), "c".to_owned()]);
    assert!(str_eq("abc", "abc"));
    assert!(!str_eq("abc", "abd"));
    let parts = vec!["x".to_owned(), "y".to_owned(), "z".to_owned()];
    assert_eq!(join_strings(&parts, ", "), "x, y, z");
    assert_eq!(join_strings(&Vec::new(), ";"), "");
}

#[test]
fn fraction_trimming_drops_zeros_then_point() {
    let mut a = "1.2300".to_owned();
    trim_fraction(&mut a);
    assert_eq!(a, "1.23");
    let mut b = "5.000".to_owned();
    trim_fraction(&mut b);
    assert_eq!(b, "5");
    let mut c = "120".to_owned();
    trim_fraction(&mut c);
    assert_eq!(c, "120");
    let mut d = "0.5".to_owned();
    trim_fraction(&mut d);
    assert_eq!(d, "0.5");
    // trimming twice changes nothing more
    trim_fraction(&mut a);
    assert_eq!(a, "1.23");
}

#[test]
fn exponents_are_signed_with_two_digits() {
    assert_eq!(format_exponent(5), "+05");
    assert_eq!(format_exponent(0), "+00");
    assert_eq!(format_exponent(-12), "-12");
    assert_eq!(format_exponent(-3), "-03");
    assert_eq!(format_exponent(123), "+123");
}

#[test]
fn number_layout_picks_scientific_outside_the_fixed_range() {
    match number_layout("1.23450e7") {
        NumberLayout::Scientific(t) => assert_eq!(t, "1.2345e+07"),
        other => panic!("unexpected layout {:?}", other),
    }
    match number_layout("1.00000e-5") {
        NumberLayout::Scientific(t) => assert_eq!(t, "1e-05"),
        other => panic!("unexpected layout {:?}", other),
    }
    match number_layout("1.50000e0") {
        NumberLayout::Fixed(d) => assert_eq!(d, 5),
        other => panic!("unexpected layout {:?}", other),
    }
    match number_layout("9.99000e5") {
        NumberLayout::Fixed(d) => assert_eq!(d, 0),
        other => panic!("unexpected layout {:?}", other),
    }
    match number_layout("2.00000e-4") {
        NumberLayout::Fixed(d) => assert_eq!(d, 9),
        other => panic!("unexpected layout {:?}", other),
    }
}

#[test]
fn key_order_is_code_point_order() {
    assert!(key_lt("a", "b"));
    assert!(key_lt("a", "ab"));
    assert!(!key_lt("ab", "a"));
    assert!(!key_lt("a", "a"));
    assert!(key_lt("Z", "a"));
    assert!(key_lt("wipe_tower_x", "wipe_tower_y"));
}

#[test]
fn orca_scalars_round_trip_through_their_text() {
    for b in [true, false] {
        let t = OrcaBool(b).token();
        assert_eq!(OrcaBool::from_text(t).map(|v| v.0), Some(b));
    }
    assert_eq!(OrcaBool(true).token(), "1");
    assert_eq!(OrcaBool(false).token(), "0");
    for v in [0i32, -5, i32::MAX, i32::MIN] {
        let t = OrcaInt(v).token();
        assert_eq!(t, v.to_string());
        assert_eq!(OrcaInt::from_text(&t).map(|x| x.0), Some(v));
    }
    for v in [0u32, 17, u32::MAX] {
        let t = OrcaUInt(v).token();
        assert_eq!(t, v.to_string());
        assert_eq!(OrcaUInt::from_text(&t).map(|x| x.0), Some(v));
    }
    assert_eq!(OrcaInt::from_i64(i64::from(i32::MAX) + 1).map(|x| x.0), None);
    assert_eq!(OrcaInt::from_i64(-3).map(|x| x.0), Some(-3));
    assert_eq!(OrcaInt::from_u64(7).map(|x| x.0), Some(7));
    assert_eq!(OrcaUInt::from_i64(-1).map(|x| x.0), None);
    assert_eq!(OrcaUInt::from_u64(u64::from(u32::MAX) + 1).map(|x| x.0), None);
    assert_eq!(OrcaUInt::from_u64(9).map(|x| x.0), Some(9));
}

#[test]
fn nil_text_and_printer_technology_names() {
    assert!(is_nil_text("nil"));
    assert!(is_nil_text(" nil "));
    assert!(!is_nil_text("0"));
    assert_eq!(PrinterTechnology::Fff.name(), "FFF");
    assert_eq!(PrinterTechnology::Sla.name(), "SLA");
    assert!(matches!(PrinterTechnology::from_name("FFF"), Some(PrinterTechnology::Fff)));
    assert!(matches!(PrinterTechnology::from_name("SLA"), Some(PrinterTechnology::Sla)));
    assert!(PrinterTechnology::from_name("fff").is_none());
}
