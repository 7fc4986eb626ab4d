use nandeck::{
    nan_deck_parse, Border, BorderType, Color, Command, Directive, Effect, HorizontalAlign, Image,
    Link, Numeric, Orientation, Page, ParseError, TextFont, Unit, VerticalAlign, Visual,
};

#[test]
fn link() {
    let parsed = nan_deck_parse(
        r#"
			LINK= "cards.xlsx"
		"#,
    )
    .unwrap();
    assert_eq!(
        parsed[0],
        Command::Link(Link {
            file: "cards.xlsx".into(),
            sheet: None,
        })
    );
}

#[test]
fn link_with_sheet() {
    let parsed = nan_deck_parse(
        r#"
			LINK= "1SJdrYEP70GkcQ9vzmA7J-k4THJnsiQdGIxvZtUSJcwE!cards"
		"#,
    )
    .unwrap();
    assert_eq!(
        parsed[0],
        Command::Link(Link {
            file: "1SJdrYEP70GkcQ9vzmA7J-k4THJnsiQdGIxvZtUSJcwE".into(),
            sheet: Some("cards".into()),
        })
    );
}

#[test]
fn text_font() {
    let parsed = nan_deck_parse(
        r#"
			TEXTFONT="1-{(NAME)}",[NAME],0%,0%,100%,100%,CENTER,TOP,0,100,Arial,14,T,#CC9900
		"#,
    )
    .unwrap();
    assert_eq!(
        parsed[0],
        Command::TextFont(TextFont {
            col_path: "1-{(NAME)}".into(),
            name: "NAME".into(),
            left: Numeric::Percentage(0),
            top: Numeric::Percentage(0),
            width: Numeric::Percentage(100),
            height: Numeric::Percentage(100),
            horizontal_align: HorizontalAlign::Center,
            vertical_align: VerticalAlign::Top,
            rotation: 0,
            alpha: 100,
            font_name: "Arial".into(),
            font_size: 14,
            effect: Effect("t".into()),
            color: Color("#cc9900".into())
        })
    );
}

#[test]
fn text_font_without_color() {
    let parsed = nan_deck_parse(
        r#"
			TEXTFONT="1-{(NAME)}",[NAME],-5%,2%,125%,145%,LEFT,WWTOP,45,99,Arial,16,T
		"#,
    )
    .unwrap();
    assert_eq!(
        parsed[0],
        Command::TextFont(TextFont {
            col_path: "1-{(NAME)}".into(),
            name: "NAME".into(),
            left: Numeric::Percentage(-5),
            top: Numeric::Percentage(2),
            width: Numeric::Percentage(125),
            height: Numeric::Percentage(145),
            horizontal_align: HorizontalAlign::Left,
            vertical_align: VerticalAlign::WwTop,
            rotation: 45,
            alpha: 99,
            font_name: "Arial".into(),
            font_size: 16,
            effect: Effect("t".into()),
            color: Color("black".into())
        })
    );
}

#[test]
fn full_example() {
    let parsed = nan_deck_parse(
        r#"
			LINKMULTI="Quantity"
			LINK= "1SJdrYEP70GkcQ9vzmA7J-k4THJnsiQdGIxvZtUSJcwE!cards"
			UNIT= MM
			PAGE=207,297, PORTRAIT
			BORDER= RECTANGLE, #000000, 1
			VISUAL=, 10, 10
			IMAGE="1-{(IMAGE)}",[IMAGE],0%,0%,100%,100%
			;Имя
			TEXTFONT="1-{(NAME)}",[NAME],0%,0%,100%,100%,CENTER,TOP,0,100,Arial,14,T,#CC9900
			;Уровень
			TEXTFONT="1-{(LVL)}",[LVL],0%,0%,100%,100%,LEFT,TOP,0,100,Arial,32,T
			;Урон
			TEXTFONT="1-{(DAMAGE)}",[DAMAGE],0%,0%,100%,100%,LEFT,BOTTOM,0,100,Arial,32,T
			;Модификатор
			TEXTFONT="1-{(X)}",[X],0%,0%,100%,100%,CENTER,BOTTOM,0,100,Arial,32,T
			;Здоровье
			TEXTFONT="1-{(HEALTH)}",[HEALTH],0%,0%,100%,100%,RIGHT,BOTTOM,0,100,Arial,32,T
			;Броня
			TEXTFONT="1-{(BLOCK)}",[BLOCK],0%,0%,100%,100%,LEFT,CENTER,0,100,Arial,32,T
			;Тригер
			TEXTFONT="1-{(TRIGGER)}",[TRIGGER],0%,0%,100%,100%,RIGHT,TOP,0,100,Arial,10,T
			;Способность
			TEXTFONT="1-{(SPELL)}",[SPELL],0%,-12%,100%,100%,CENTER,WWBOTTOM,0,100,Arial,10,T
			ENDVISUAL
		"#,
    )
    .unwrap();
    println!("{parsed:#?}");
    assert_eq!(parsed.len(), 16);
}

const FULL: &str = r#"
	LINKMULTI="Quantity"
	LINK= "1SJdrYEP70GkcQ9vzmA7J-k4THJnsiQdGIxvZtUSJcwE!cards"
	UNIT= MM
	PAGE=207,297, PORTRAIT
	BORDER= RECTANGLE, #000000, 1
	VISUAL=, 10, 10
	IMAGE="1-{(IMAGE)}",[IMAGE],0%,0%,100%,100%
	;Имя
	TEXTFONT="1-{(NAME)}",[NAME],0%,0%,100%,100%,CENTER,TOP,0,100,Arial,14,T,#CC9900
	;Уровень
	TEXTFONT="1-{(LVL)}",[LVL],0%,0%,100%,100%,LEFT,TOP,0,100,Arial,32,T
	;Урон
	TEXTFONT="1-{(DAMAGE)}",[DAMAGE],0%,0%,100%,100%,LEFT,BOTTOM,0,100,Arial,32,T
	;Модификатор
	TEXTFONT="1-{(X)}",[X],0%,0%,100%,100%,CENTER,BOTTOM,0,100,Arial,32,T
	;Здоровье
	TEXTFONT="1-{(HEALTH)}",[HEALTH],0%,0%,100%,100%,RIGHT,BOTTOM,0,100,Arial,32,T
	;Броня
	TEXTFONT="1-{(BLOCK)}",[BLOCK],0%,0%,100%,100%,LEFT,CENTER,0,100,Arial,32,T
	;Тригер
	TEXTFONT="1-{(TRIGGER)}",[TRIGGER],0%,0%,100%,100%,RIGHT,TOP,0,100,Arial,10,T
	;Способность
	TEXTFONT="1-{(SPELL)}",[SPELL],0%,-12%,100%,100%,CENTER,WWBOTTOM,0,100,Arial,10,T
	ENDVISUAL
"#;

#[test]
fn full_example_keeps_the_order_of_the_lines() {
    let parsed = nan_deck_parse(FULL).unwrap();
    assert_eq!(parsed.len(), 16);
    assert_eq!(parsed[0], Command::LinkMulti("\"Quantity\"".into()));
    assert_eq!(
        parsed[1],
        Command::Link(Link {
            file: "1SJdrYEP70GkcQ9vzmA7J-k4THJnsiQdGIxvZtUSJcwE".into(),
            sheet: Some("cards".into()),
        })
    );
    assert_eq!(parsed[2], Command::Unit(Unit::MM));
    assert_eq!(
        parsed[3],
        Command::Page(Page { width: 207, height: 297, orientation: Orientation::Portrait })
    );
    assert_eq!(
        parsed[4],
        Command::Border(Border {
            border_type: BorderType::Rectangle,
            color: Color("#000000".into()),
            size: 1,
        })
    );
    assert_eq!(parsed[5], Command::Visual(Visual { horizontal_step: 10, vertical_step: 10 }));
    assert_eq!(
        parsed[6],
        Command::Image(Image {
            col_path: "1-{(IMAGE)}".into(),
            name: "IMAGE".into(),
            left: Numeric::Percentage(0),
            top: Numeric::Percentage(0),
            width: Numeric::Percentage(100),
            height: Numeric::Percentage(100),
        })
    );
    let names = ["NAME", "LVL", "DAMAGE", "X", "HEALTH", "BLOCK", "TRIGGER", "SPELL"];
    for (k, expected) in names.iter().enumerate() {
        match &parsed[7 + k] {
            Command::TextFont(text) => assert_eq!(text.name, *expected),
            other => panic!("line {} gave {:?}", 7 + k, other),
        }
    }
    match &parsed[14] {
        Command::TextFont(text) => {
            assert_eq!(text.top, Numeric::Percentage(-12));
            assert_eq!(text.vertical_align, VerticalAlign::WwBottom);
            assert_eq!(text.font_size, 10);
            assert_eq!(text.color, Color("black".into()));
        }
        other => panic!("{:?}", other),
    }
    assert_eq!(parsed[15], Command::EndVisual);
}

#[test]
fn unit_line() {
    assert_eq!(nan_deck_parse("UNIT= MM"), Ok(vec![Command::Unit(Unit::MM)]));
    assert_eq!(nan_deck_parse("UNIT=SM"), Ok(vec![Command::Unit(Unit::SM)]));
    assert_eq!(nan_deck_parse("  UNIT  =  DM  "), Ok(vec![Command::Unit(Unit::DM)]));
}

#[test]
fn page_line() {
    assert_eq!(
        nan_deck_parse("PAGE=207,297, PORTRAIT"),
        Ok(vec![Command::Page(Page {
            width: 207,
            height: 297,
            orientation: Orientation::Portrait
        })])
    );
    assert_eq!(
        nan_deck_parse("PAGE= 100 , 50 ,ALBUM"),
        Ok(vec![Command::Page(Page { width: 100, height: 50, orientation: Orientation::Album })])
    );
}

#[test]
fn link_line_with_sheet() {
    assert_eq!(
        nan_deck_parse("LINK= \"1SJdr!cards\""),
        Ok(vec![Command::Link(Link { file: "1SJdr".into(), sheet: Some("cards".into()) })])
    );
}

#[test]
fn border_without_size_is_a_missing_field() {
    assert_eq!(
        nan_deck_parse("BORDER= RECTANGLE, #000000"),
        Err(ParseError::MissingField {
            directive: Directive::Border,
            expected_count: 3,
            actual_count: 2
        })
    );
}

#[test]
fn lowercase_keyword_is_unknown() {
    assert_eq!(
        nan_deck_parse("unit"),
        Err(ParseError::UnknownDirective { keyword: "unit".into() })
    );
    assert_eq!(
        nan_deck_parse("unit= MM"),
        Err(ParseError::UnknownDirective { keyword: "unit".into() })
    );
    assert_eq!(
        nan_deck_parse("Unit= MM"),
        Err(ParseError::UnknownDirective { keyword: "Unit".into() })
    );
    assert_eq!(
        nan_deck_parse("UNITS= MM"),
        Err(ParseError::UnknownDirective { keyword: "UNITS".into() })
    );
    assert_eq!(
        nan_deck_parse("UNI= MM"),
        Err(ParseError::UnknownDirective { keyword: "UNI".into() })
    );
}

#[test]
fn comments_give_no_command() {
    assert_eq!(nan_deck_parse("; only a comment"), Ok(vec![]));
    assert_eq!(nan_deck_parse(";"), Ok(vec![]));
    assert_eq!(nan_deck_parse(";UNIT= MM"), Ok(vec![]));
    assert_eq!(nan_deck_parse("   ;Имя = , , ☃ \u{10FFFF}"), Ok(vec![]));
    let plain = nan_deck_parse("UNIT= MM\nENDVISUAL").unwrap();
    assert_eq!(plain, vec![Command::Unit(Unit::MM), Command::EndVisual]);
    assert_eq!(nan_deck_parse(";first\nUNIT= MM\nENDVISUAL").unwrap(), plain);
    assert_eq!(nan_deck_parse("UNIT= MM\n\t; between ;; \nENDVISUAL").unwrap(), plain);
    assert_eq!(nan_deck_parse("UNIT= MM\nENDVISUAL\n;last").unwrap(), plain);
    assert_eq!(nan_deck_parse(";a\n;b\nUNIT= MM\n;c\n;d\nENDVISUAL\n;e").unwrap(), plain);
}

#[test]
fn blank_line_has_no_known_keyword() {
    assert_eq!(nan_deck_parse(""), Err(ParseError::UnknownDirective { keyword: "".into() }));
    assert_eq!(nan_deck_parse("  \n "), Err(ParseError::UnknownDirective { keyword: "".into() }));
    assert_eq!(
        nan_deck_parse("UNIT= MM\n\nENDVISUAL"),
        Err(ParseError::UnknownDirective { keyword: "".into() })
    );
    assert_eq!(
        nan_deck_parse("\n\n  UNIT= MM\nENDVISUAL \n\n"),
        Ok(vec![Command::Unit(Unit::MM), Command::EndVisual])
    );
}

#[test]
fn line_without_equals_sign() {
    assert_eq!(
        nan_deck_parse("  PAGE 207,297,PORTRAIT "),
        Err(ParseError::UnknownDirective { keyword: "PAGE 207,297,PORTRAIT".into() })
    );
    assert_eq!(nan_deck_parse(" UNIT "), Err(ParseError::MalformedLine { text: "UNIT".into() }));
    assert_eq!(
        nan_deck_parse("LINKMULTI"),
        Err(ParseError::MalformedLine { text: "LINKMULTI".into() })
    );
    assert_eq!(nan_deck_parse("ENDVISUAL"), Ok(vec![Command::EndVisual]));
    assert_eq!(nan_deck_parse("ENDVISUAL= whatever, 1"), Ok(vec![Command::EndVisual]));
}

#[test]
fn payload_ends_at_the_second_equals_sign() {
    assert_eq!(
        nan_deck_parse("LINKMULTI= a=b=c"),
        Ok(vec![Command::LinkMulti("a".into())])
    );
    assert_eq!(
        nan_deck_parse("LINK= \"sheet?id=7!cards\""),
        Ok(vec![Command::Link(Link { file: "sheet?id".into(), sheet: None })])
    );
}

#[test]
fn first_error_in_line_order_is_reported() {
    assert_eq!(
        nan_deck_parse("UNIT= MM\nUNIT= XX\nPAGE=1\nbogus"),
        Err(ParseError::UnknownEnumValue {
            directive: Directive::Unit,
            field: 0,
            value: "XX".into()
        })
    );
    assert_eq!(
        nan_deck_parse("UNIT= MM\n;UNIT= XX\nPAGE=1\nbogus"),
        Err(ParseError::MissingField {
            directive: Directive::Page,
            expected_count: 3,
            actual_count: 1
        })
    );
}

#[test]
fn carriage_returns_are_trimmed_with_the_line() {
    assert_eq!(
        nan_deck_parse("UNIT= MM\r\nENDVISUAL\r\n"),
        Ok(vec![Command::Unit(Unit::MM), Command::EndVisual])
    );
}
