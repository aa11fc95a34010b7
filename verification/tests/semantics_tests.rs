use rgc::api::{Enum, Instance, Property, PropertyType, RobloxApi};
use rgc::parser::parse_str;
use rgc::semantics::{SemanticError, SemanticsChecker};
use rgc::values::{Decimal, RgInstance, RgNode, Value};

fn class(api: &mut RobloxApi, name: &str, tags: &[&str], superclass: Option<&str>) {
    let tags: Vec<String> = tags.iter().map(|t| (*t).to_owned()).collect();
    api.add_instance(Instance::new(name.to_owned(), tags, superclass.map(|s| s.to_owned())));
}

fn property(api: &mut RobloxApi, class: &str, name: &str, tags: &[&str], kind: PropertyType) {
    let tags: Vec<String> = tags.iter().map(|t| (*t).to_owned()).collect();
    api.get_instance_mut(class).unwrap().add_property(Property::new(name.to_owned(), tags, kind));
}

fn parse_instance(text: &str) -> RgInstance {
    match parse_str(text).unwrap() {
        RgNode::Instance(inst) => inst,
        _ => panic!("expected an instance"),
    }
}

#[test]
fn inherited_boolean_property_passes() {
    let mut api = RobloxApi::new();
    class(&mut api, "GuiObject", &[], None);
    property(&mut api, "GuiObject", "Enabled", &[], PropertyType::Boolean);
    class(&mut api, "ScreenGui", &[], Some("GuiObject"));
    let checker = SemanticsChecker::new(api);
    let inst = parse_instance("ScreenGui { Enabled: true }");
    assert_eq!(checker.check_instance(&inst), Ok(()));
}

#[test]
fn readonly_property_fails_even_when_kind_matches() {
    let mut api = RobloxApi::new();
    class(&mut api, "TextButton", &[], None);
    property(&mut api, "TextButton", "AbsoluteSize", &["readonly"], PropertyType::Number);
    let checker = SemanticsChecker::new(api);
    let inst = parse_instance("TextButton { AbsoluteSize: 10 }");
    assert_eq!(
        checker.check_instance(&inst),
        Err(SemanticError::ReadonlyProperty { property: "AbsoluteSize".to_owned() })
    );
}

#[test]
fn unknown_class_fails_before_properties() {
    let mut api = RobloxApi::new();
    class(&mut api, "Instance", &[], None);
    let checker = SemanticsChecker::new(api);
    let inst = parse_instance("Frobnicator {}");
    assert_eq!(
        checker.check_instance(&inst),
        Err(SemanticError::UnknownClass { class: "Frobnicator".to_owned() })
    );
}

#[test]
fn not_creatable_class_fails() {
    let mut api = RobloxApi::new();
    class(&mut api, "CoreGui", &["notCreatable"], None);
    let checker = SemanticsChecker::new(api);
    let inst = parse_instance("CoreGui {}");
    assert_eq!(
        checker.check_instance(&inst),
        Err(SemanticError::NotCreatable { class: "CoreGui".to_owned() })
    );
}

#[test]
fn enum_member_accepted_bare_and_as_member_string() {
    let mut api = RobloxApi::new();
    class(&mut api, "TextLabel", &[], None);
    property(
        &mut api,
        "TextLabel",
        "TextXAlignment",
        &[],
        PropertyType::Other("TextXAlignment".to_owned()),
    );
    let mut e = Enum::new("TextXAlignment".to_owned(), Vec::new());
    e.add_member("Center".to_owned());
    e.add_member("Left".to_owned());
    api.add_enum(e);
    let checker = SemanticsChecker::new(api);

    let bare = parse_instance("TextLabel { TextXAlignment: Center }");
    assert_eq!(checker.check_instance(&bare), Ok(()));

    let as_string = parse_instance("TextLabel { TextXAlignment: \"Left\" }");
    assert_eq!(checker.check_instance(&as_string), Ok(()));

    let non_member = parse_instance("TextLabel { TextXAlignment: \"Right\" }");
    assert_eq!(
        checker.check_instance(&non_member),
        Err(SemanticError::TypeMismatch { property: "TextXAlignment".to_owned() })
    );
}

#[test]
fn type_mismatch_on_concrete_kind() {
    let mut api = RobloxApi::new();
    class(&mut api, "Frame", &[], None);
    property(&mut api, "Frame", "Visible", &[], PropertyType::Boolean);
    let checker = SemanticsChecker::new(api);
    let inst = parse_instance("Frame { Visible: 1 }");
    assert_eq!(
        checker.check_instance(&inst),
        Err(SemanticError::TypeMismatch { property: "Visible".to_owned() })
    );
}

#[test]
fn unknown_property_reports_class_and_name() {
    let mut api = RobloxApi::new();
    class(&mut api, "Frame", &[], None);
    property(&mut api, "Frame", "Name", &[], PropertyType::String);
    let checker = SemanticsChecker::new(api);
    let inst = parse_instance("Frame \"MyFrame\" { Bogus: true }");
    assert_eq!(
        checker.check_instance(&inst),
        Err(SemanticError::UnknownProperty {
            class: "Frame".to_owned(),
            instance_name: Some("MyFrame".to_owned()),
            property: "Bogus".to_owned(),
        })
    );
}

#[test]
fn fail_fast_reports_first_error_only() {
    let mut api = RobloxApi::new();
    class(&mut api, "Frame", &[], None);
    property(&mut api, "Frame", "Visible", &[], PropertyType::Boolean);
    let checker = SemanticsChecker::new(api);
    // `Bogus` is unknown; the later `Visible: 1` would be a type mismatch.
    let inst = parse_instance("Frame { Bogus: true Visible: 1 }");
    assert_eq!(
        checker.check_instance(&inst),
        Err(SemanticError::UnknownProperty {
            class: "Frame".to_owned(),
            instance_name: None,
            property: "Bogus".to_owned(),
        })
    );
}

#[test]
fn child_error_propagates_unchanged() {
    let mut api = RobloxApi::new();
    class(&mut api, "ScreenGui", &[], None);
    let checker = SemanticsChecker::new(api);
    let inst = parse_instance("ScreenGui { Widget {} }");
    assert_eq!(
        checker.check_instance(&inst),
        Err(SemanticError::UnknownClass { class: "Widget".to_owned() })
    );
}

#[test]
fn superclass_chain_resolves_through_grandparent() {
    let mut api = RobloxApi::new();
    class(&mut api, "Instance", &[], None);
    property(&mut api, "Instance", "Archivable", &[], PropertyType::Boolean);
    class(&mut api, "GuiObject", &[], Some("Instance"));
    class(&mut api, "Frame", &[], Some("GuiObject"));
    let checker = SemanticsChecker::new(api);
    let inst = parse_instance("Frame { Archivable: false }");
    assert_eq!(checker.check_instance(&inst), Ok(()));
}

#[test]
fn enum_membership_via_api() {
    let mut api = RobloxApi::new();
    let mut e = Enum::new("Weather".to_owned(), Vec::new());
    e.add_member("Sunny".to_owned());
    e.add_member("Sunny".to_owned());
    api.add_enum(e);
    assert!(api.get_enum("Weather").unwrap().has_member("Sunny"));
    assert!(!api.get_enum("Weather").unwrap().has_member("Rainy"));
    assert!(api.get_enum("Missing").is_none());
}

#[test]
fn property_type_descriptor_mapping() {
    assert_eq!(PropertyType::from_descriptor("float"), PropertyType::Number);
    assert_eq!(PropertyType::from_descriptor("int"), PropertyType::Number);
    assert_eq!(PropertyType::from_descriptor("double"), PropertyType::Number);
    assert_eq!(PropertyType::from_descriptor("bool"), PropertyType::Boolean);
    assert_eq!(PropertyType::from_descriptor("Color3"), PropertyType::Color);
    assert_eq!(PropertyType::from_descriptor("string"), PropertyType::String);
    assert_eq!(PropertyType::from_descriptor("Content"), PropertyType::String);
    assert_eq!(PropertyType::from_descriptor("UDim2"), PropertyType::UDim2);
    assert_eq!(
        PropertyType::from_descriptor("TextXAlignment"),
        PropertyType::Other("TextXAlignment".to_owned())
    );
}

#[test]
fn get_type_names_each_kind() {
    assert_eq!(Value::StringLiteral(String::new()).get_type(), "String");
    assert_eq!(
        Value::Number(Decimal { negative: false, int_digits: vec![0], frac_digits: vec![] })
            .get_type(),
        "Number"
    );
    assert_eq!(Value::Boolean(true).get_type(), "Boolean");
    assert_eq!(Value::Color(1, 2, 3).get_type(), "Color");
    assert_eq!(Value::EnumMember("Center".to_owned()).get_type(), "EnumMember");
}

#[test]
fn describe_unknown_class_message() {
    let err = SemanticError::UnknownClass { class: "Frobnicator".to_owned() };
    assert_eq!(err.describe(), "Class Frobnicator does not exist");
}

#[test]
fn describe_readonly_message() {
    let err = SemanticError::ReadonlyProperty { property: "AbsoluteSize".to_owned() };
    assert_eq!(err.describe(), "The property AbsoluteSize is readonly");
}

#[test]
fn describe_unknown_property_message() {
    let err = SemanticError::UnknownProperty {
        class: "Frame".to_owned(),
        instance_name: Some("MyFrame".to_owned()),
        property: "Bogus".to_owned(),
    };
    assert_eq!(err.describe(), "Class Frame with name MyFrame does not have property Bogus");
}
