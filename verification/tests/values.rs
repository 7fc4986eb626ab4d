use nandeck::text::chars_of;
use nandeck::value::{
    parse_border_type, parse_color, parse_effect, parse_horizontal_align, parse_i32_field,
    parse_link, parse_orientation, parse_quoted_path, parse_u32_field, parse_u8_field, parse_unit,
    parse_vertical_align,
};
use nandeck::{
    format_numeric, parse_name, parse_numeric_value, BorderType, Color, Directive, Effect,
    HorizontalAlign, Link, Numeric, Orientation, ParseError, Unit, VerticalAlign,
};

fn numeric(text: &str) -> Result<Numeric, ParseError> {
    parse_numeric_value(&chars_of(text), Directive::Image, 2)
}

fn malformed(text: &str) -> Result<Numeric, ParseError> {
    Err(ParseError::MalformedNumber { directive: Directive::Image, field: 2, text: text.into() })
}

#[test]
fn numeric_with_percent_sign_is_a_percentage() {
    assert_eq!(numeric("0%"), Ok(Numeric::Percentage(0)));
    assert_eq!(numeric("100%"), Ok(Numeric::Percentage(100)));
    assert_eq!(numeric("-12%"), Ok(Numeric::Percentage(-12)));
    assert_eq!(numeric("145%"), Ok(Numeric::Percentage(145)));
    assert_eq!(numeric("+7%"), Ok(Numeric::Percentage(7)));
    assert_eq!(numeric("  25%\t"), Ok(Numeric::Percentage(25)));
    assert_eq!(numeric("2147483647%"), Ok(Numeric::Percentage(i32::MAX)));
    assert_eq!(numeric("-2147483648%"), Ok(Numeric::Percentage(i32::MIN)));
}

#[test]
fn numeric_without_percent_sign_is_absolute() {
    assert_eq!(numeric("0"), Ok(Numeric::Absolute(0)));
    assert_eq!(numeric("42"), Ok(Numeric::Absolute(42)));
    assert_eq!(numeric("-42"), Ok(Numeric::Absolute(-42)));
    assert_eq!(numeric("+42"), Ok(Numeric::Absolute(42)));
    assert_eq!(numeric("007"), Ok(Numeric::Absolute(7)));
    assert_eq!(numeric("-0"), Ok(Numeric::Absolute(0)));
    assert_eq!(numeric(" 13 "), Ok(Numeric::Absolute(13)));
    assert_eq!(numeric("2147483647"), Ok(Numeric::Absolute(i32::MAX)));
    assert_eq!(numeric("-2147483648"), Ok(Numeric::Absolute(i32::MIN)));
}

#[test]
fn numeric_that_is_no_integer_is_malformed() {
    assert_eq!(numeric(""), malformed(""));
    assert_eq!(numeric("   "), malformed(""));
    assert_eq!(numeric("%"), malformed("%"));
    assert_eq!(numeric("-"), malformed("-"));
    assert_eq!(numeric("+"), malformed("+"));
    assert_eq!(numeric("-%"), malformed("-%"));
    assert_eq!(numeric("12%%"), malformed("12%%"));
    assert_eq!(numeric("5 %"), malformed("5 %"));
    assert_eq!(numeric("% 5"), malformed("% 5"));
    assert_eq!(numeric("1 2"), malformed("1 2"));
    assert_eq!(numeric(" abc "), malformed("abc"));
    assert_eq!(numeric("1.5"), malformed("1.5"));
    assert_eq!(numeric("--1"), malformed("--1"));
    assert_eq!(numeric("+-1"), malformed("+-1"));
    assert_eq!(numeric("0x10"), malformed("0x10"));
    assert_eq!(numeric("١٢"), malformed("١٢"));
    assert_eq!(numeric("2147483648"), malformed("2147483648"));
    assert_eq!(numeric("-2147483649"), malformed("-2147483649"));
    assert_eq!(numeric("99999999999999999999999999%"), malformed("99999999999999999999999999%"));
}

#[test]
fn numeric_agrees_with_the_standard_integer_parser() {
    let samples = [
        "0", "-0", "+0", "00", "1", "-1", "+1", "10", "0010", "2147483647", "2147483648",
        "-2147483648", "-2147483649", "4294967295", "4294967296", "", "+", "-", "++1", " 1", "1 ",
        "1_000", "1e3", "٣", "12a", "a12", "-+1",
    ];
    for s in samples {
        let cs = chars_of(s);
        assert_eq!(
            parse_i32_field(&cs, Directive::TextFont, 8).ok(),
            s.trim().parse::<i32>().ok(),
            "{s:?}"
        );
        assert_eq!(
            parse_u32_field(&cs, Directive::TextFont, 9).ok(),
            s.trim().parse::<u32>().ok(),
            "{s:?}"
        );
        assert_eq!(
            parse_u8_field(&cs, Directive::TextFont, 11).ok(),
            s.trim().parse::<u8>().ok(),
            "{s:?}"
        );
    }
}

#[test]
fn unsigned_fields() {
    assert_eq!(parse_u32_field(&chars_of(" 207"), Directive::Page, 0), Ok(207));
    assert_eq!(parse_u32_field(&chars_of("4294967295"), Directive::Page, 0), Ok(u32::MAX));
    assert_eq!(
        parse_u32_field(&chars_of("4294967296"), Directive::Page, 1),
        Err(ParseError::MalformedNumber {
            directive: Directive::Page,
            field: 1,
            text: "4294967296".into()
        })
    );
    assert_eq!(
        parse_u32_field(&chars_of("-1"), Directive::Visual, 2),
        Err(ParseError::MalformedNumber {
            directive: Directive::Visual,
            field: 2,
            text: "-1".into()
        })
    );
    assert_eq!(parse_u8_field(&chars_of("255"), Directive::Border, 2), Ok(255));
    assert_eq!(
        parse_u8_field(&chars_of(" 256 "), Directive::Border, 2),
        Err(ParseError::MalformedNumber {
            directive: Directive::Border,
            field: 2,
            text: "256".into()
        })
    );
    assert_eq!(parse_i32_field(&chars_of("-45"), Directive::TextFont, 8), Ok(-45));
    assert_eq!(
        parse_i32_field(&chars_of("45%"), Directive::TextFont, 8),
        Err(ParseError::MalformedNumber {
            directive: Directive::TextFont,
            field: 8,
            text: "45%".into()
        })
    );
}

#[test]
fn numeric_text_is_read_back() {
    let values = [0, 1, -1, 9, 10, -10, 99, 100, 101, 12345, -98765, i32::MAX, i32::MIN];
    for v in values {
        for n in [Numeric::Absolute(v), Numeric::Percentage(v)] {
            let text = format_numeric(&n);
            assert_eq!(numeric(&text), Ok(n), "{text}");
        }
    }
    assert_eq!(format_numeric(&Numeric::Absolute(0)), "0");
    assert_eq!(format_numeric(&Numeric::Absolute(-2147483648)), "-2147483648");
    assert_eq!(format_numeric(&Numeric::Percentage(2147483647)), "2147483647%");
    assert_eq!(format_numeric(&Numeric::Percentage(-5)), "-5%");
    assert_eq!(format_numeric(&Numeric::Absolute(1060)), "1060");
}

#[test]
fn bracketed_name() {
    assert_eq!(parse_name(&chars_of("[NAME]")), "NAME");
    assert_eq!(parse_name(&chars_of("  [NAME]  ")), "NAME");
    assert_eq!(parse_name(&chars_of("NAME")), "NAME");
    assert_eq!(parse_name(&chars_of("[NAME")), "NAME");
    assert_eq!(parse_name(&chars_of("NAME]")), "NAME");
    assert_eq!(parse_name(&chars_of("[[NAME]]")), "[NAME]");
    assert_eq!(parse_name(&chars_of("[ NAME ]")), " NAME ");
    assert_eq!(parse_name(&chars_of("[]")), "");
    assert_eq!(parse_name(&chars_of("[")), "");
    assert_eq!(parse_name(&chars_of("]")), "");
    assert_eq!(parse_name(&chars_of("")), "");
}

#[test]
fn quoted_path() {
    assert_eq!(parse_quoted_path(&chars_of("\"1-{(NAME)}\"")), "1-{(NAME)}");
    assert_eq!(parse_quoted_path(&chars_of(" \"a b\" ")), "a b");
    assert_eq!(parse_quoted_path(&chars_of("plain")), "plain");
    assert_eq!(parse_quoted_path(&chars_of("\"\"twice\"\"")), "twice");
    assert_eq!(parse_quoted_path(&chars_of("\"in\"side\"")), "in\"side");
    assert_eq!(parse_quoted_path(&chars_of("\"")), "");
    assert_eq!(parse_quoted_path(&chars_of("\"\"\"")), "");
    assert_eq!(parse_quoted_path(&chars_of("")), "");
}

#[test]
fn color_and_effect_are_trimmed_and_lowercased() {
    assert_eq!(parse_color(&chars_of("#CC9900")), Color("#cc9900".into()));
    assert_eq!(parse_color(&chars_of("  #00FFaa ")), Color("#00ffaa".into()));
    assert_eq!(parse_color(&chars_of("Red")), Color("red".into()));
    assert_eq!(parse_color(&chars_of("ÄÖÜ")), Color("äöü".into()));
    assert_eq!(parse_color(&chars_of("")), Color("".into()));
    assert_eq!(parse_effect(&chars_of("T")), Effect("t".into()));
    assert_eq!(parse_effect(&chars_of(" BI ")), Effect("bi".into()));
}

#[test]
fn link_split_rule() {
    let link = |s: &str| parse_link(&chars_of(s));
    assert_eq!(link("\"cards.xlsx\""), Link { file: "cards.xlsx".into(), sheet: None });
    assert_eq!(link("cards.xlsx"), Link { file: "cards.xlsx".into(), sheet: None });
    assert_eq!(link(" \"book!sheet\" "), Link { file: "book".into(), sheet: Some("sheet".into()) });
    assert_eq!(link("book!"), Link { file: "book".into(), sheet: Some("".into()) });
    assert_eq!(link("!sheet"), Link { file: "".into(), sheet: Some("sheet".into()) });
    assert_eq!(link("a!b!c"), Link { file: "a".into(), sheet: None });
    assert_eq!(link("\"\"a!b\"\""), Link { file: "\"a".into(), sheet: Some("b\"".into()) });
    assert_eq!(link(""), Link { file: "".into(), sheet: None });
}

#[test]
fn keywords_of_the_closed_sets() {
    let d = Directive::TextFont;
    assert_eq!(parse_unit(&chars_of("MM"), d, 0), Ok(Unit::MM));
    assert_eq!(parse_unit(&chars_of("SM"), d, 0), Ok(Unit::SM));
    assert_eq!(parse_unit(&chars_of(" DM "), d, 0), Ok(Unit::DM));
    assert_eq!(parse_orientation(&chars_of("PORTRAIT"), d, 0), Ok(Orientation::Portrait));
    assert_eq!(parse_orientation(&chars_of("ALBUM"), d, 0), Ok(Orientation::Album));
    assert_eq!(parse_border_type(&chars_of("RECTANGLE"), d, 0), Ok(BorderType::Rectangle));
    assert_eq!(parse_border_type(&chars_of("ROUNDED"), d, 0), Ok(BorderType::Rounded));
    assert_eq!(parse_horizontal_align(&chars_of("LEFT"), d, 0), Ok(HorizontalAlign::Left));
    assert_eq!(parse_horizontal_align(&chars_of("CENTER"), d, 0), Ok(HorizontalAlign::Center));
    assert_eq!(parse_horizontal_align(&chars_of("RIGHT"), d, 0), Ok(HorizontalAlign::Right));
    assert_eq!(parse_vertical_align(&chars_of("TOP"), d, 0), Ok(VerticalAlign::Top));
    assert_eq!(parse_vertical_align(&chars_of("CENTER"), d, 0), Ok(VerticalAlign::Center));
    assert_eq!(parse_vertical_align(&chars_of("BOTTOM"), d, 0), Ok(VerticalAlign::Bottom));
    assert_eq!(parse_vertical_align(&chars_of("WWTOP"), d, 0), Ok(VerticalAlign::WwTop));
    assert_eq!(parse_vertical_align(&chars_of("WWCENTER"), d, 0), Ok(VerticalAlign::WwCenter));
    assert_eq!(parse_vertical_align(&chars_of("WWBOTTOM"), d, 0), Ok(VerticalAlign::WwBottom));
}

#[test]
fn unknown_keywords_of_the_closed_sets() {
    let unknown = |directive: Directive, field: usize, value: &str| ParseError::UnknownEnumValue {
        directive,
        field,
        value: value.into(),
    };
    assert_eq!(
        parse_unit(&chars_of(" mm "), Directive::Unit, 0),
        Err(unknown(Directive::Unit, 0, "mm"))
    );
    assert_eq!(
        parse_unit(&chars_of("CM"), Directive::Unit, 0),
        Err(unknown(Directive::Unit, 0, "CM"))
    );
    assert_eq!(
        parse_unit(&chars_of(""), Directive::Unit, 0),
        Err(unknown(Directive::Unit, 0, ""))
    );
    assert_eq!(
        parse_orientation(&chars_of("LANDSCAPE"), Directive::Page, 2),
        Err(unknown(Directive::Page, 2, "LANDSCAPE"))
    );
    assert_eq!(
        parse_border_type(&chars_of("Rounded"), Directive::Border, 0),
        Err(unknown(Directive::Border, 0, "Rounded"))
    );
    assert_eq!(
        parse_horizontal_align(&chars_of("TOP"), Directive::TextFont, 6),
        Err(unknown(Directive::TextFont, 6, "TOP"))
    );
    assert_eq!(
        parse_vertical_align(&chars_of("LEFT"), Directive::TextFont, 7),
        Err(unknown(Directive::TextFont, 7, "LEFT"))
    );
    assert_eq!(
        parse_vertical_align(&chars_of("WW TOP"), Directive::TextFont, 7),
        Err(unknown(Directive::TextFont, 7, "WW TOP"))
    );
}
