use rgc::parser::{
    parse_boolean, parse_hex_color, parse_number, parse_prop_assignment, parse_rgb_color,
    parse_str, parse_udim2,
};
use rgc::values::{Decimal, RgNode, RgProperty, Value};

fn dec(negative: bool, int_digits: &[u8], frac_digits: &[u8]) -> Decimal {
    Decimal { negative, int_digits: int_digits.to_vec(), frac_digits: frac_digits.to_vec() }
}

fn num(negative: bool, int_digits: &[u8], frac_digits: &[u8]) -> Value {
    Value::Number(dec(negative, int_digits, frac_digits))
}

#[test]
fn is_true() {
    assert_eq!(parse_boolean("true"), Ok(Value::Boolean(true)));
}

#[test]
fn is_false() {
    assert_eq!(parse_boolean("false"), Ok(Value::Boolean(false)));
}

#[test]
fn boolean_rejects_other_words() {
    assert!(parse_boolean("maybe").is_err());
}

#[test]
fn number_is_zero() {
    assert_eq!(parse_number("0"), Ok(num(false, &[0], &[])));
}

#[test]
fn number_positive_integer() {
    assert_eq!(parse_number("12"), Ok(num(false, &[1, 2], &[])));
}

#[test]
fn number_negative_integer() {
    assert_eq!(parse_number("-12"), Ok(num(true, &[1, 2], &[])));
}

#[test]
fn number_positive_decimal() {
    assert_eq!(parse_number("1.25"), Ok(num(false, &[1], &[2, 5])));
}

#[test]
fn number_negative_decimal() {
    assert_eq!(parse_number("-1.53239054"), Ok(num(true, &[1], &[5, 3, 2, 3, 9, 0, 5, 4])));
}

#[test]
fn number_no_mantissa() {
    assert!(parse_number("1.").is_err());
}

#[test]
fn number_weird_character() {
    assert!(parse_number("12a.3").is_err());
}

#[test]
fn string_empty() {
    assert_eq!(parse_string_helper(""), Ok(String::new()));
}

fn parse_string_helper(contents: &str) -> Result<String, ()> {
    let quoted = format!("\"{}\"", contents);
    match rgc::parser::parse_string(&quoted) {
        Ok(Value::StringLiteral(s)) => Ok(s),
        _ => Err(()),
    }
}

#[test]
fn string_escaped_double_quote() {
    assert_eq!(rgc::parser::parse_string("\"\\\"\""), Ok(Value::StringLiteral("\"".to_owned())));
}

#[test]
fn string_escaped_single_quote() {
    assert_eq!(rgc::parser::parse_string("\"'\""), Ok(Value::StringLiteral("'".to_owned())));
}

#[test]
fn string_random_characters() {
    assert_eq!(
        rgc::parser::parse_string("\"Hi t2..h'ere 123 ]d]sd['\""),
        Ok(Value::StringLiteral("Hi t2..h'ere 123 ]d]sd['".to_owned()))
    );
}

#[test]
fn unclosed_string_literal() {
    assert!(rgc::parser::parse_string("\"").is_err());
}

#[test]
fn unknown_escaped_character() {
    assert!(rgc::parser::parse_string("\"\\j\"").is_err());
}

#[test]
fn udim2_at_origin() {
    assert_eq!(
        parse_udim2("UDim2(0,0,0,0)"),
        Ok(Value::UDim2(
            dec(false, &[0], &[]),
            dec(false, &[0], &[]),
            dec(false, &[0], &[]),
            dec(false, &[0], &[])
        ))
    );
}

#[test]
fn udim2_all_numbers() {
    assert_eq!(
        parse_udim2("UDim2(0.75, 200, -0.5, -20)"),
        Ok(Value::UDim2(
            dec(false, &[0], &[7, 5]),
            dec(false, &[2, 0, 0], &[]),
            dec(true, &[0], &[5]),
            dec(true, &[2, 0], &[])
        ))
    );
}

#[test]
fn udim2_with_padding() {
    assert_eq!(
        parse_udim2("   UDim2 ( 100 , 0.2 , -25 ,  1.4 ) "),
        Ok(Value::UDim2(
            dec(false, &[1, 0, 0], &[]),
            dec(false, &[0], &[2]),
            dec(true, &[2, 5], &[]),
            dec(false, &[1], &[4])
        ))
    );
}

#[test]
fn hex_is_white() {
    assert_eq!(parse_hex_color("#FFFFFF"), Ok(Value::Color(255, 255, 255)));
}

#[test]
fn hex_is_black() {
    assert_eq!(parse_hex_color("#000000"), Ok(Value::Color(0, 0, 0)));
}

#[test]
fn hex_is_magenta() {
    assert_eq!(parse_hex_color("#FF00FF"), Ok(Value::Color(255, 0, 255)));
}

#[test]
fn hex_lowercase_digits() {
    assert_eq!(parse_hex_color("#a1b2c3"), Ok(Value::Color(161, 178, 195)));
}

#[test]
fn hex_digit_out_of_range() {
    assert!(parse_hex_color("#G0FF00").is_err());
}

#[test]
fn hex_too_short() {
    assert!(parse_hex_color("#FF00F").is_err());
}

#[test]
fn rgb_is_black() {
    assert_eq!(parse_rgb_color("RGB(0,0,0)"), Ok(Value::Color(0, 0, 0)));
}

#[test]
fn rgb_is_magenta() {
    assert_eq!(parse_rgb_color("RGB(255, 0, 255)"), Ok(Value::Color(255, 0, 255)));
}

#[test]
fn rgb_whitespace_insensitive() {
    assert_eq!(parse_rgb_color("RGB (0 , 0  ,  0  )  "), parse_rgb_color("RGB(0,0,0)"));
    assert_eq!(parse_rgb_color("RGB (0 , 0  ,  0  )  "), Ok(Value::Color(0, 0, 0)));
}

#[test]
fn negative_rgb_vals() {
    assert!(parse_rgb_color("RGB(-10, 0, 0)").is_err());
}

#[test]
fn rgb_channel_too_large() {
    assert!(parse_rgb_color("RGB(256, 0, 0)").is_err());
}

#[test]
fn assignment_has_number_value() {
    assert_eq!(
        parse_prop_assignment("BackgroundTransparency:0"),
        Ok(RgNode::Property(RgProperty::new(
            "BackgroundTransparency".to_owned(),
            num(false, &[0], &[])
        )))
    );
}

#[test]
fn assignment_has_boolean_value() {
    assert_eq!(
        parse_prop_assignment("Visible:false"),
        Ok(RgNode::Property(RgProperty::new("Visible".to_owned(), Value::Boolean(false))))
    );
}

#[test]
fn assignment_has_rgb_value() {
    assert_eq!(
        parse_prop_assignment("TextColor3:RGB(255,255,255)"),
        Ok(RgNode::Property(RgProperty::new("TextColor3".to_owned(), Value::Color(255, 255, 255))))
    );
}

#[test]
fn assignment_has_hex_value() {
    assert_eq!(
        parse_prop_assignment("TextColor3:#FF00FF"),
        Ok(RgNode::Property(RgProperty::new("TextColor3".to_owned(), Value::Color(255, 0, 255))))
    );
}

#[test]
fn assignment_has_string_value() {
    assert_eq!(
        parse_prop_assignment("Text:\"Hi there\""),
        Ok(RgNode::Property(RgProperty::new(
            "Text".to_owned(),
            Value::StringLiteral("Hi there".to_owned())
        )))
    );
}

#[test]
fn assignment_padding_between_text() {
    assert_eq!(
        parse_prop_assignment("   Text: \n \" Hi \n there \"   "),
        Ok(RgNode::Property(RgProperty::new(
            "Text".to_owned(),
            Value::StringLiteral(" Hi \n there ".to_owned())
        )))
    );
}

#[test]
fn assignment_enum_member_value() {
    assert_eq!(
        parse_prop_assignment("TextXAlignment: Center"),
        Ok(RgNode::Property(RgProperty::new(
            "TextXAlignment".to_owned(),
            Value::EnumMember("Center".to_owned())
        )))
    );
}

#[test]
fn assignment_no_value() {
    assert!(parse_prop_assignment("Text:").is_err());
}

#[test]
fn assignment_no_prop() {
    assert!(parse_prop_assignment(":Hi").is_err());
}

#[test]
fn empty_instance() {
    let node = parse_str("Instance {}").unwrap();
    match node {
        RgNode::Instance(inst) => {
            assert_eq!(inst.properties().len(), 1);
            assert_eq!(inst.properties()[0].get_name(), "_ClassName");
            assert_eq!(
                inst.properties()[0].get_value(),
                &Value::StringLiteral("Instance".to_owned())
            );
            assert_eq!(inst.children().len(), 0);
        }
        _ => panic!("expected an instance"),
    }
}

#[test]
fn nested_empty() {
    let node = parse_str("Instance{Instance{}}").unwrap();
    match node {
        RgNode::Instance(inst) => {
            assert_eq!(inst.properties().len(), 1);
            assert_eq!(inst.children().len(), 1);
            let child = &inst.children()[0];
            assert_eq!(child.properties().len(), 1);
            assert_eq!(child.properties()[0].get_name(), "_ClassName");
            assert_eq!(child.children().len(), 0);
        }
        _ => panic!("expected an instance"),
    }
}

#[test]
fn quoted_name_becomes_name_property() {
    let node = parse_str("TextButton \"Continue\" { Text: \"Continue\" }").unwrap();
    match node {
        RgNode::Instance(inst) => {
            assert_eq!(inst.properties().len(), 3);
            assert_eq!(inst.properties()[0].get_name(), "_ClassName");
            assert_eq!(inst.properties()[1].get_name(), "Name");
            assert_eq!(
                inst.properties()[1].get_value(),
                &Value::StringLiteral("Continue".to_owned())
            );
            assert_eq!(inst.properties()[2].get_name(), "Text");
            assert_eq!(inst.get_prop_value("Name"), Some(&Value::StringLiteral("Continue".to_owned())));
        }
        _ => panic!("expected an instance"),
    }
}

#[test]
fn welcome_gui_compiles() {
    let contents = r#"ScreenGui {
    Name: "WelcomeGui"
    Enabled: true

    TextLabel {
        Text: "Welcome"
        BackgroundColor3: #FF00FF
        TextStrokeTransparency: 0.2
        BorderSizePixel: 0
    }

    TextButton "Continue" {
        Text: "Continue"
        BackgroundTransparency: 1
        TextColor3: RGB(255, 20, 120)
    }

    Frame{}
}"#;
    assert!(parse_str(contents).is_ok());
}

#[test]
fn document_rejects_trailing_text() {
    assert!(parse_str("Instance {} extra").is_err());
}

#[test]
fn document_rejects_unbalanced_braces() {
    assert!(parse_str("Instance {").is_err());
}
