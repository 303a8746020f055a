use ebml_schema::constraints::{
    cardinality, level, parent, parents, Cardinality, DateRangeItem, FloatRangeItem, IntRangeItem,
    Level, UintRangeItem,
};
use ebml_schema::date::DateTime;
use ebml_schema::decl::{type_, Type};
use ebml_schema::element_id::{id, ElementId};
use ebml_schema::header::{hblock, header_statement, HeaderStatement};
use ebml_schema::lexer::{bcomment, comment, lcomment, name, separator, Span};
use ebml_schema::numbers::{float_v, int_v};
use ebml_schema::properties::{
    binary_def, binary_range, date_def, date_range, float_def, float_range, int_def, int_range,
    ordered, size, string_def, string_range, uint_def, uint_range, BinaryRangeItem, Property,
    StringRangeItem,
};

fn text<'a>(input: &'a [u8], sp: Span) -> &'a [u8] {
    &input[sp.start..sp.end]
}

fn float_of(input: &[u8], sp: Span) -> f64 {
    std::str::from_utf8(text(input, sp)).unwrap().parse::<f64>().unwrap()
}

fn dt(year: i32, month: u32, day: u32, hour: u32, minute: u32, second: u32, nanosecond: u32) -> DateTime {
    DateTime { year, month, day, hour, minute, second, nanosecond }
}

#[test]
fn test_lcomment() {
    let input = b"// comment\n";
    let (sp, _) = lcomment(input, 0).unwrap();
    assert_eq!(text(input, sp), b" comment");
}

#[test]
fn test_bcomment() {
    let input = b"/* comment */";
    let (sp, _) = bcomment(input, 0).unwrap();
    assert_eq!(text(input, sp), b" comment ");
}

#[test]
fn test_comment() {
    let input = b"// comment\n";
    let (sp, _) = comment(input, 0).unwrap();
    assert_eq!(text(input, sp), b" comment");
    let input = b"/* comment */";
    let (sp, _) = comment(input, 0).unwrap();
    assert_eq!(text(input, sp), b" comment ");
}

#[test]
fn test_separator() {
    let input = b"  // comment\n  /* block */\n\ttest\n";
    let q = separator(input, 0);
    assert_eq!(&input[q..], b"test\n");
    let input = b" /* a */ // b\n t\n";
    let q = separator(input, 0);
    assert_eq!(&input[q..], b"t\n");
}

#[test]
fn test_name() {
    let input = b"SimpleName";
    let (sp, _) = name(input, 0).unwrap();
    assert_eq!(text(input, sp), b"SimpleName");
    let input = b"_complexName1";
    let (sp, _) = name(input, 0).unwrap();
    assert_eq!(text(input, sp), b"_complexName1");
    let input = b"___name___ foo\n";
    let (sp, q) = name(input, 0).unwrap();
    assert_eq!(text(input, sp), b"___name___");
    assert_eq!(&input[q..], b" foo\n");
    assert!(name(b"1name", 0).is_none());
    assert!(name(b" name", 0).is_none());
}

#[test]
fn test_id() {
    assert_eq!(id(b"1A45DFA3", 0).unwrap().0, ElementId::new_class_d(0x0A45_DFA3).unwrap());
    assert_eq!(id(b"81", 0).unwrap().0, ElementId::new_class_a(0x1).unwrap());
    assert_eq!(id(b"FE", 0).unwrap().0, ElementId::new_class_a(0x7E).unwrap());
    assert!(id(b"FF", 0).is_none());
    assert_eq!(id(b"407F", 0).unwrap().0, ElementId::new_class_b(0x7F).unwrap());
}

#[test]
fn test_type() {
    assert_eq!(type_(b"int", 0).unwrap().0, Type::Int);
    assert_eq!(type_(b"uint", 0).unwrap().0, Type::Uint);
    assert_eq!(type_(b"float", 0).unwrap().0, Type::Float);
    assert_eq!(type_(b"string", 0).unwrap().0, Type::String);
    assert_eq!(type_(b"date", 0).unwrap().0, Type::Date);
    assert_eq!(type_(b"binary", 0).unwrap().0, Type::Binary);
    let input = b"foo_bar123";
    match type_(input, 0).unwrap().0 {
        Type::Name(sp) => assert_eq!(text(input, sp), b"foo_bar123"),
        other => panic!("unexpected {:?}", other),
    }
    assert!(type_(b"123", 0).is_none());
    assert_eq!(type_(b"container", 0).unwrap().0, Type::Container);
}

fn names(input: &[u8], v: &[Span]) -> Vec<Vec<u8>> {
    v.iter().map(|sp| text(input, *sp).to_vec()).collect()
}

#[test]
fn test_parents() {
    let input = b"name1";
    let (v, _) = parents(input, 0).unwrap();
    assert_eq!(names(input, &v), vec![b"name1".to_vec()]);
    let input = b"name1, name2 ,name3 , name4";
    let (v, _) = parents(input, 0).unwrap();
    assert_eq!(names(input, &v), vec![b"name1".to_vec(), b"name2".to_vec(), b"name3".to_vec(), b"name4".to_vec()]);
    let input = b"name1, 2notaname\n";
    let (v, q) = parents(input, 0).unwrap();
    assert_eq!(names(input, &v), vec![b"name1".to_vec()]);
    assert_eq!(&input[q..], b", 2notaname\n");
}

#[test]
fn test_parent() {
    let input = b"parent: name1;";
    let (v, _) = parent(input, 0).unwrap();
    assert_eq!(names(input, &v), vec![b"name1".to_vec()]);
    let input = b"parent : name1, name2, name3, name4 ;";
    let (v, _) = parent(input, 0).unwrap();
    assert_eq!(names(input, &v), vec![b"name1".to_vec(), b"name2".to_vec(), b"name3".to_vec(), b"name4".to_vec()]);
    assert!(parent(b"parent: name1, 2notaname;", 0).is_none());
}

#[test]
fn test_level() {
    assert_eq!(level(b"level: 1..;", 0).unwrap().0, Level::Open { start: 1 });
    assert_eq!(level(b"level: 1..3;", 0).unwrap().0, Level::Bounded { start: 1, end: 3 });
    assert_eq!(level(b"level : 4..5 ;", 0).unwrap().0, Level::Bounded { start: 4, end: 5 });
    assert_eq!(level(b"level: 2341..;", 0).unwrap().0, Level::Open { start: 2341 });
    assert!(level(b"level: ..3;", 0).is_none());
}

#[test]
fn test_cardinality() {
    assert_eq!(cardinality(b"card: *;", 0).unwrap().0, Cardinality::ZeroOrMany);
    assert_eq!(cardinality(b"card: ?;", 0).unwrap().0, Cardinality::ZeroOrOne);
    assert_eq!(cardinality(b"card: 1;", 0).unwrap().0, Cardinality::ExactlyOne);
    assert_eq!(cardinality(b"card: +;", 0).unwrap().0, Cardinality::OneOrMany);
    assert!(cardinality(b"card: 2;", 0).is_none());
}

#[test]
fn test_int_v() {
    assert_eq!(int_v(b"1234", 0).unwrap().0, 1234);
    assert_eq!(int_v(b"-1234", 0).unwrap().0, -1234);
    assert_eq!(int_v(b"9223372036854775807", 0).unwrap().0, 0x7FFF_FFFF_FFFF_FFFF);
    assert_eq!(int_v(b"-9223372036854775808", 0).unwrap().0, -9223372036854775808);
    assert!(int_v(b"9223372036854775808", 0).is_none());
    assert!(int_v(b"--1", 0).is_none());
}

#[test]
fn test_float_v() {
    let cases: [(&[u8], f64); 9] = [
        (b"1", 1f64),
        (b"-1", -1f64),
        (b"1.25132", 1.25132f64),
        (b"-1.25132", -1.25132f64),
        (b"1.32e7", 1.32e7f64),
        (b"-1.31e7", -1.31e7f64),
        (b"1e+3", 1e+3f64),
        (b"1e-3", 1e-3f64),
        (b"-1e-3", -1e-3f64),
    ];
    for (input, expected) in cases.iter() {
        let (sp, _) = float_v(input, 0).unwrap();
        assert_eq!(float_of(input, sp), *expected);
    }
    assert!(float_v(b"level: 1..3;", 0).is_none());
}

#[test]
fn test_int_def() {
    assert_eq!(int_def(b"def: 1234;", 0).unwrap().0, Property::IntDefault(1234));
}

#[test]
fn test_uint_def() {
    assert_eq!(uint_def(b"def: 1234;", 0).unwrap().0, Property::UintDefault(1234));
}

#[test]
fn test_float_def() {
    let input = b"def: 1.0;";
    match float_def(input, 0).unwrap().0 {
        Property::FloatDefault(sp) => assert_eq!(float_of(input, sp), 1f64),
        other => panic!("unexpected {:?}", other),
    }
}

#[test]
fn test_date_def() {
    assert_eq!(date_def(b"def: 20170101T00:00:00;", 0).unwrap().0, Property::DateDefault(dt(2017, 1, 1, 0, 0, 0, 0)));
    assert_eq!(
        date_def(b"def: 12341225T14:15:32.42;", 0).unwrap().0,
        Property::DateDefault(dt(1234, 12, 25, 14, 15, 32, 420_000_000))
    );
    assert!(date_def(b"def: 20171301T00:00:00;", 0).is_none());
    assert!(date_def(b"def: 2017-01-01;", 0).is_none());
    assert_eq!(date_def(b"def: 1234;", 0).unwrap().0, Property::DateDefault(dt(2001, 1, 1, 0, 0, 0, 1234)));
}

#[test]
fn test_string_def() {
    assert_eq!(string_def(b"def: \"hello\";", 0).unwrap().0, Property::StringDefault("hello".to_string()));
    assert_eq!(string_def(b"def: 0x54657374;", 0).unwrap().0, Property::StringDefault("Test".to_string()));
    assert_eq!(string_def(b"def: 0x5465737404;", 0).unwrap().0, Property::StringDefault("Test\x04".to_string()));
    assert!(string_def(b"def: 0x54657374808182;", 0).is_none());
    assert!(string_def(b"def: \"hello;", 0).is_none());
}

#[test]
fn test_binary_def() {
    assert_eq!(binary_def(b"def: \"hello\";", 0).unwrap().0, Property::BinaryDefault(vec![0x68, 0x65, 0x6c, 0x6c, 0x6f]));
    assert_eq!(binary_def(b"def: 0x54657374;", 0).unwrap().0, Property::BinaryDefault(vec![0x54, 0x65, 0x73, 0x74]));
    assert_eq!(
        binary_def(b"def: 0x5465737404;", 0).unwrap().0,
        Property::BinaryDefault(vec![0x54, 0x65, 0x73, 0x74, 0x04])
    );
    assert_eq!(
        binary_def(b"def: 0x54657374808182;", 0).unwrap().0,
        Property::BinaryDefault(vec![0x54, 0x65, 0x73, 0x74, 0x80, 0x81, 0x82])
    );
    assert!(binary_def(b"def: \"hello;", 0).is_none());
}

#[test]
fn test_int_range() {
    assert_eq!(int_range(b"range: -2..5;", 0).unwrap().0, Property::IntRange(vec![IntRangeItem::Bounded { start: -2, end: 5 }]));
    assert_eq!(int_range(b"range: 4..;", 0).unwrap().0, Property::IntRange(vec![IntRangeItem::From { start: 4 }]));
    assert_eq!(int_range(b"range: ..102;", 0).unwrap().0, Property::IntRange(vec![IntRangeItem::To { end: 102 }]));
    assert_eq!(int_range(b"range: 45;", 0).unwrap().0, Property::IntRange(vec![IntRangeItem::Single(45)]));
    assert_eq!(
        int_range(b"range: -1..4, 5, 66..;", 0).unwrap().0,
        Property::IntRange(vec![
            IntRangeItem::Bounded { start: -1, end: 4 },
            IntRangeItem::Single(5),
            IntRangeItem::From { start: 66 },
        ])
    );
    assert_eq!(
        int_range(b"range: -100..-99, 44, 55, 66..70;", 0).unwrap().0,
        Property::IntRange(vec![
            IntRangeItem::Bounded { start: -100, end: -99 },
            IntRangeItem::Single(44),
            IntRangeItem::Single(55),
            IntRangeItem::Bounded { start: 66, end: 70 },
        ])
    );
    assert!(int_range(b"range: 1..2, ;", 0).is_none());
}

#[test]
fn test_uint_range() {
    assert_eq!(uint_range(b"range: 2..5;", 0).unwrap().0, Property::UintRange(vec![UintRangeItem::Bounded { start: 2, end: 5 }]));
    assert_eq!(uint_range(b"range: 4..;", 0).unwrap().0, Property::UintRange(vec![UintRangeItem::From { start: 4 }]));
    assert_eq!(uint_range(b"range: 45;", 0).unwrap().0, Property::UintRange(vec![UintRangeItem::Single(45)]));
    assert_eq!(
        uint_range(b"range: 1..4, 5, 66..;", 0).unwrap().0,
        Property::UintRange(vec![
            UintRangeItem::Bounded { start: 1, end: 4 },
            UintRangeItem::Single(5),
            UintRangeItem::From { start: 66 },
        ])
    );
    assert_eq!(
        uint_range(b"range: 100..200, 44, 55, 66..70;", 0).unwrap().0,
        Property::UintRange(vec![
            UintRangeItem::Bounded { start: 100, end: 200 },
            UintRangeItem::Single(44),
            UintRangeItem::Single(55),
            UintRangeItem::Bounded { start: 66, end: 70 },
        ])
    );
    assert!(uint_range(b"range: -1..4;", 0).is_none());
}

/// The float items with their bounds read as numbers.
#[derive(Debug, PartialEq)]
enum Fr {
    Bounded(f64, bool, f64, bool),
    From(f64, bool),
    To(f64, bool),
}

fn floats(input: &[u8]) -> Vec<Fr> {
    match float_range(input, 0).unwrap().0 {
        Property::FloatRange(v) => v
            .iter()
            .map(|i| match *i {
                FloatRangeItem::Bounded { start, include_start, end, include_end } => {
                    Fr::Bounded(float_of(input, start), include_start, float_of(input, end), include_end)
                }
                FloatRangeItem::From { start, include_start } => Fr::From(float_of(input, start), include_start),
                FloatRangeItem::To { end, include_end } => Fr::To(float_of(input, end), include_end),
            })
            .collect(),
        other => panic!("unexpected {:?}", other),
    }
}

#[test]
fn test_float_range() {
    assert_eq!(floats(b"range: >0;"), vec![Fr::From(0f64, false)]);
    assert_eq!(floats(b"range: >=0;"), vec![Fr::From(0f64, true)]);
    assert_eq!(floats(b"range: <0;"), vec![Fr::To(0f64, false)]);
    assert_eq!(floats(b"range: <=1.2;"), vec![Fr::To(1.2f64, true)]);
    assert_eq!(floats(b"range: -1.34e4<..<=4.0;"), vec![Fr::Bounded(-1.34e4, false, 4.0f64, true)]);
    assert_eq!(
        floats(b"range: -4.4<=..<-4.2, 1.2e6<..<=1.3e7, >=2.4e8;"),
        vec![
            Fr::Bounded(-4.4f64, true, -4.2f64, false),
            Fr::Bounded(1.2e6f64, false, 1.3e7f64, true),
            Fr::From(2.4e8, true),
        ]
    );
}

#[test]
fn test_date_range() {
    assert_eq!(
        date_range(b"range: 19020102T00:00:24..;", 0).unwrap().0,
        Property::DateRange(vec![DateRangeItem::From { start: dt(1902, 1, 2, 0, 0, 24, 0) }])
    );
    assert_eq!(
        date_range(b"range: ..19950418T04:20:00.42;", 0).unwrap().0,
        Property::DateRange(vec![DateRangeItem::To { end: dt(1995, 4, 18, 4, 20, 0, 420_000_000) }])
    );
    assert_eq!(
        date_range(b"range: 1234..20170101T19:20:45.245, 20200101T00:00:00..;", 0).unwrap().0,
        Property::DateRange(vec![
            DateRangeItem::Bounded { start: dt(2001, 1, 1, 0, 0, 0, 1234), end: dt(2017, 1, 1, 19, 20, 45, 245_000_000) },
            DateRangeItem::From { start: dt(2020, 1, 1, 0, 0, 0, 0) },
        ])
    );
    assert!(date_range(b"range: 20170101T00:00:00;", 0).is_none());
}

#[test]
fn test_string_range() {
    assert_eq!(string_range(b"range: 32..;", 0).unwrap().0, vec![StringRangeItem::From { start: 32 }]);
    assert_eq!(
        string_range(b"range: 12352..12447;", 0).unwrap().0,
        vec![StringRangeItem::Bounded { start: 0x3040, end: 0x309F }]
    );
    assert_eq!(string_range(b"range: 42;", 0).unwrap().0, vec![StringRangeItem::Single(42)]);
    assert!(string_range(b"range: 1114112;", 0).is_none());
}

#[test]
fn test_binary_range() {
    assert_eq!(binary_range(b"range: 32..;", 0).unwrap().0, vec![BinaryRangeItem::From { start: 32 }]);
    assert_eq!(binary_range(b"range: 1..255;", 0).unwrap().0, vec![BinaryRangeItem::Bounded { start: 0x01, end: 0xFF }]);
    assert_eq!(binary_range(b"range: 42;", 0).unwrap().0, vec![BinaryRangeItem::Single(42)]);
    assert!(binary_range(b"range: 256;", 0).is_none());
}

#[test]
fn test_size() {
    assert_eq!(size(b"size: 2..5;", 0).unwrap().0, Property::Size(vec![UintRangeItem::Bounded { start: 2, end: 5 }]));
    assert_eq!(size(b"size: 4..;", 0).unwrap().0, Property::Size(vec![UintRangeItem::From { start: 4 }]));
    assert_eq!(size(b"size: 45;", 0).unwrap().0, Property::Size(vec![UintRangeItem::Single(45)]));
    assert_eq!(
        size(b"size: 1..4, 5, 66..;", 0).unwrap().0,
        Property::Size(vec![
            UintRangeItem::Bounded { start: 1, end: 4 },
            UintRangeItem::Single(5),
            UintRangeItem::From { start: 66 },
        ])
    );
    assert_eq!(
        size(b"size: 100..200, 44, 55, 66..70;", 0).unwrap().0,
        Property::Size(vec![
            UintRangeItem::Bounded { start: 100, end: 200 },
            UintRangeItem::Single(44),
            UintRangeItem::Single(55),
            UintRangeItem::Bounded { start: 66, end: 70 },
        ])
    );
    assert!(size(b"size: 1..x;", 0).is_none());
}

#[test]
fn test_ordered() {
    assert_eq!(ordered(b"ordered: yes;", 0).unwrap().0, Property::Ordered(true));
    assert_eq!(ordered(b"ordered: 1;", 0).unwrap().0, Property::Ordered(true));
    assert_eq!(ordered(b"ordered: no;", 0).unwrap().0, Property::Ordered(false));
    assert_eq!(ordered(b"ordered: 0;", 0).unwrap().0, Property::Ordered(false));
}

fn statement_name<'a>(input: &'a [u8], st: &HeaderStatement) -> &'a [u8] {
    match st {
        HeaderStatement::Uint { name, .. }
        | HeaderStatement::Int { name, .. }
        | HeaderStatement::Float { name, .. }
        | HeaderStatement::Date { name, .. }
        | HeaderStatement::String { name, .. }
        | HeaderStatement::Binary { name, .. }
        | HeaderStatement::Named { name, .. } => text(input, *name),
    }
}

#[test]
fn test_header_statement() {
    let input = b"FooBar := 1;";
    let (st, _) = header_statement(input, 0).unwrap();
    assert_eq!(statement_name(input, &st), b"FooBar");
    assert!(matches!(st, HeaderStatement::Uint { value: 1, .. }));

    let input = b"FooBar := -1;";
    let (st, _) = header_statement(input, 0).unwrap();
    assert_eq!(statement_name(input, &st), b"FooBar");
    assert!(matches!(st, HeaderStatement::Int { value: -1, .. }));

    let input = b"FooBarBaz := 1.25e-2;";
    let (st, _) = header_statement(input, 0).unwrap();
    assert_eq!(statement_name(input, &st), b"FooBarBaz");
    match st {
        HeaderStatement::Float { value, .. } => assert_eq!(float_of(input, value), 1.25e-2f64),
        other => panic!("unexpected {:?}", other),
    }

    let input = b"FooBar := 20140203T00:12:14.5;";
    let (st, _) = header_statement(input, 0).unwrap();
    assert_eq!(statement_name(input, &st), b"FooBar");
    match st {
        HeaderStatement::Date { value, .. } => assert_eq!(value, dt(2014, 2, 3, 0, 12, 14, 500_000_000)),
        other => panic!("unexpected {:?}", other),
    }

    let input = "FooBar := \"any unicode string 隣町\";".as_bytes();
    let (st, _) = header_statement(input, 0).unwrap();
    assert_eq!(statement_name(input, &st), b"FooBar");
    match st {
        HeaderStatement::String { value, .. } => assert_eq!(value, "any unicode string 隣町".to_string()),
        other => panic!("unexpected {:?}", other),
    }

    let input = b"FooBar := 0xFADEF00D;";
    let (st, _) = header_statement(input, 0).unwrap();
    assert_eq!(statement_name(input, &st), b"FooBar");
    match st {
        HeaderStatement::Binary { value, .. } => assert_eq!(value, vec![0xFA, 0xDE, 0xF0, 0x0D]),
        other => panic!("unexpected {:?}", other),
    }
}

#[test]
fn test_hblock() {
    let input = "declare header {\n  FooBar := 1;\n  Foo1 := \"test\";\n  FooBaz := 0xFADEF00D;\n  FooQux := 20000101T00:00:00;\n  Foo := \"隣町\";\n}\n".as_bytes();
    let (v, _) = hblock(input, 0).unwrap();
    assert_eq!(v.len(), 5);
    assert_eq!(statement_name(input, &v[0]), b"FooBar");
    assert!(matches!(v[0], HeaderStatement::Uint { value: 1, .. }));
    assert_eq!(statement_name(input, &v[1]), b"Foo1");
    match &v[1] {
        HeaderStatement::String { value, .. } => assert_eq!(value, "test"),
        other => panic!("unexpected {:?}", other),
    }
    assert_eq!(statement_name(input, &v[2]), b"FooBaz");
    match &v[2] {
        HeaderStatement::Binary { value, .. } => assert_eq!(value, &vec![0xFA, 0xDE, 0xF0, 0x0D]),
        other => panic!("unexpected {:?}", other),
    }
    assert_eq!(statement_name(input, &v[3]), b"FooQux");
    match &v[3] {
        HeaderStatement::Date { value, .. } => assert_eq!(*value, dt(2000, 1, 1, 0, 0, 0, 0)),
        other => panic!("unexpected {:?}", other),
    }
    assert_eq!(statement_name(input, &v[4]), b"Foo");
    match &v[4] {
        HeaderStatement::String { value, .. } => assert_eq!(value, "隣町"),
        other => panic!("unexpected {:?}", other),
    }
}
