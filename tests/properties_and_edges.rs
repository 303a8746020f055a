use ebml_schema::bytes::{binary_v, from_hex, string_v};
use ebml_schema::constraints::{IntRangeItem, UintRangeItem};
use ebml_schema::date::{date_v, DateTime};
use ebml_schema::decl::{dtype, update_newtype_with_property, NewType};
use ebml_schema::element_id::{id, ElementId};
use ebml_schema::header::{hblock, HeaderStatement};
use ebml_schema::lexer::{name, separator, Span};
use ebml_schema::numbers::{float_v, int_v, uint_v};
use ebml_schema::properties::{date_def, int_range, string_def, uint_def, Property};

fn dt(year: i32, month: u32, day: u32, hour: u32, minute: u32, second: u32, nanosecond: u32) -> DateTime {
    DateTime { year, month, day, hour, minute, second, nanosecond }
}

fn to_hex(b: &[u8]) -> Vec<u8> {
    let digits = b"0123456789abcdef";
    let mut out = Vec::new();
    for x in b {
        out.push(digits[(x >> 4) as usize]);
        out.push(digits[(x & 15) as usize]);
    }
    out
}

#[test]
fn identifier_then_other_byte() {
    let input = b"abc_9;rest";
    let (sp, q) = name(input, 0).unwrap();
    assert_eq!(sp, Span { start: 0, end: 5 });
    assert_eq!(&input[q..], b";rest");
    let (sp, q) = name(b"x", 0).unwrap();
    assert_eq!((sp, q), (Span { start: 0, end: 1 }, 1));
    assert!(name(b"", 0).is_none());
}

#[test]
fn hex_decodes_hello() {
    assert_eq!(from_hex(b"68656c6c6f"), Some(vec![0x68, 0x65, 0x6c, 0x6c, 0x6f]));
    assert_eq!(from_hex(b"68 65\n6C\t6c\r6F"), Some(vec![0x68, 0x65, 0x6c, 0x6c, 0x6f]));
    assert_eq!(from_hex(b""), Some(vec![]));
}

#[test]
fn hex_odd_digit_count_fails() {
    assert_eq!(from_hex(b"68656"), None);
    assert_eq!(from_hex(b"6 8 6"), None);
}

#[test]
fn hex_non_hex_byte_fails() {
    assert_eq!(from_hex(b"68g5"), None);
    assert!(binary_def_fails(b"def: 0x12G4;"));
}

fn binary_def_fails(input: &[u8]) -> bool {
    ebml_schema::properties::binary_def(input, 0).is_none()
}

#[test]
fn hex_round_trip() {
    let text = b"0xFADEf00d0123456789";
    let (b, q) = binary_v(text, 0).unwrap();
    assert_eq!(q, text.len());
    assert_eq!(to_hex(&b), b"fadef00d0123456789".to_vec());
}

#[test]
fn absolute_and_offset_dates() {
    assert_eq!(date_v(b"20170101T00:00:00", 0).unwrap(), (dt(2017, 1, 1, 0, 0, 0, 0), 17));
    assert_eq!(date_v(b"1234", 0).unwrap().0, dt(2001, 1, 1, 0, 0, 0, 1234));
    assert_eq!(date_v(b"-1", 0).unwrap().0, dt(2000, 12, 31, 23, 59, 59, 999_999_999));
    assert_eq!(date_v(b"86400000000000", 0).unwrap().0, dt(2001, 1, 2, 0, 0, 0, 0));
    assert_eq!(date_v(b"20170101T00:00:00.1234567891", 0).unwrap().0, dt(2017, 1, 1, 0, 0, 0, 123_456_789));
}

#[test]
fn calendar_and_clock_checked() {
    assert!(date_def(b"def: 20170229T00:00:00;", 0).is_none());
    assert_eq!(date_def(b"def: 20160229T00:00:00;", 0).unwrap().0, Property::DateDefault(dt(2016, 2, 29, 0, 0, 0, 0)));
    assert!(date_def(b"def: 20170101T24:00:00;", 0).is_none());
    assert!(date_def(b"def: 20170101T23:60:00;", 0).is_none());
}

#[test]
fn range_items_in_order() {
    assert_eq!(
        int_range(b"range: -1..4,5,66..;", 0).unwrap().0,
        Property::IntRange(vec![
            IntRangeItem::Bounded { start: -1, end: 4 },
            IntRangeItem::Single(5),
            IntRangeItem::From { start: 66 },
        ])
    );
}

#[test]
fn header_block_keeps_order() {
    let input = b"declare header { Foo := 1; Bar := \"x\"; }";
    let (v, q) = hblock(input, 0).unwrap();
    assert_eq!(q, input.len());
    assert_eq!(v.len(), 2);
    match &v[0] {
        HeaderStatement::Uint { name, value } => {
            assert_eq!(&input[name.start..name.end], b"Foo");
            assert_eq!(*value, 1);
        }
        other => panic!("unexpected {:?}", other),
    }
    match &v[1] {
        HeaderStatement::String { name, value } => {
            assert_eq!(&input[name.start..name.end], b"Bar");
            assert_eq!(value, "x");
        }
        other => panic!("unexpected {:?}", other),
    }
}

#[test]
fn header_block_needs_a_statement() {
    assert!(hblock(b"declare header { }", 0).is_none());
    assert!(hblock(b"declare header { Foo := 1;", 0).is_none());
}

#[test]
fn header_statement_named_value() {
    let input = b"declare header { Doc := webm; }";
    let (v, _) = hblock(input, 0).unwrap();
    match &v[0] {
        HeaderStatement::Named { value, .. } => assert_eq!(&input[value.start..value.end], b"webm"),
        other => panic!("unexpected {:?}", other),
    }
}

#[test]
fn uint_declaration_with_properties() {
    let input = b"Foo := uint [ range: 1..10; def: 5; ];";
    let (nt, q) = dtype(input, 0).unwrap();
    assert_eq!(q, input.len());
    assert_eq!(
        nt,
        NewType::Uint {
            name: Span { start: 0, end: 3 },
            default: Some(5),
            range: Some(vec![UintRangeItem::Bounded { start: 1, end: 10 }]),
        }
    );
}

#[test]
fn repeated_property_keeps_last() {
    let input = b"Foo := int [ def: 1; range: 2..3; def: -4; range: 5; ]";
    let (nt, _) = dtype(input, 0).unwrap();
    assert_eq!(
        nt,
        NewType::Int {
            name: Span { start: 0, end: 3 },
            default: Some(-4),
            range: Some(vec![IntRangeItem::Single(5)]),
        }
    );
}

#[test]
fn other_types_give_empty_int_declaration() {
    let input = b"Title := string";
    let (nt, q) = dtype(input, 0).unwrap();
    assert_eq!(q, input.len());
    assert_eq!(nt, NewType::Int { name: Span { start: 0, end: 5 }, default: None, range: None });
    let (nt, q) = dtype(b"Bar := uint ;", 0).unwrap();
    assert_eq!(nt, NewType::Uint { name: Span { start: 0, end: 3 }, default: None, range: None });
    assert_eq!(q, 13);
    let (_, q) = dtype(b"Baz := date\nQux := int;", 0).unwrap();
    assert_eq!(q, 11);
}

#[test]
fn update_fills_slots() {
    let nt = NewType::Uint { name: Span { start: 0, end: 1 }, default: None, range: None };
    let nt = update_newtype_with_property(nt, Property::UintDefault(3));
    let nt = update_newtype_with_property(nt, Property::UintDefault(7));
    let nt = update_newtype_with_property(nt, Property::IntDefault(9));
    assert_eq!(nt, NewType::Uint { name: Span { start: 0, end: 1 }, default: Some(7), range: None });
}

#[test]
fn malformed_inputs_fail() {
    assert!(string_v(b"\"abc", 0).is_none());
    assert!(binary_v(b"\"abc", 0).is_none());
    assert!(uint_v(b"18446744073709551616", 0).is_none());
    assert_eq!(uint_v(b"18446744073709551615", 0).unwrap().0, u64::MAX);
    assert!(uint_def(b"def: 18446744073709551616;", 0).is_none());
    assert!(int_v(b"-9223372036854775809", 0).is_none());
    assert!(int_v(b"1-2", 0).is_none());
    assert!(id(b"100000000", 0).is_none());
    assert!(id(b"7F", 0).is_none());
    assert!(id(b"4001FF", 0).is_none());
    assert!(float_v(b"1e", 0).is_none());
    assert!(float_v(b".", 0).is_none());
    assert!(float_v(b"1.2.3", 0).is_none());
}

#[test]
fn element_id_classes() {
    assert_eq!(id(b"80", 0).unwrap().0, ElementId { encoded: 0x80 });
    assert_eq!(id(b"3FFFFE", 0).unwrap().0, ElementId::new_class_c(0x1F_FFFE).unwrap());
    assert!(id(b"3FFFFF", 0).is_none());
    assert!(id(b"1FFFFFFF", 0).is_none());
    assert!(ElementId::new_class_a(0x7F).is_none());
    assert_eq!(ElementId::from_encoded(0x4286), Some(ElementId { encoded: 0x4286 }));
}

#[test]
fn string_literal_text() {
    let input = "\"隣町\"".as_bytes();
    let (s, q) = string_v(input, 0).unwrap();
    assert_eq!(s, "隣町");
    assert_eq!(q, input.len());
    assert_eq!(string_def(b"def: 0x;", 0).unwrap().0, Property::StringDefault(String::new()));
}

#[test]
fn separator_stops_at_unclosed_comment() {
    let input = b"  /* open";
    assert_eq!(separator(input, 0), 2);
    let input = b" // no newline";
    assert_eq!(separator(input, 0), 1);
    assert_eq!(separator(b"", 0), 0);
}
