use asgard_jbc::{parse_field_type, parse_method_descriptor, Error, FieldType, MethodDescriptor};

fn object(name: &str) -> FieldType {
    FieldType::Object(name.to_string())
}

fn invalid(descriptor: &str, position: usize) -> Error {
    Error::InvalidDescriptor { descriptor: descriptor.to_string(), position }
}

fn array(element: FieldType) -> FieldType {
    FieldType::Array(Box::new(element))
}

#[test]
fn int_descriptor() {
    assert_eq!(parse_field_type("I"), Ok(FieldType::Int));
}

#[test]
fn every_base_type() {
    assert_eq!(parse_field_type("B"), Ok(FieldType::Byte));
    assert_eq!(parse_field_type("C"), Ok(FieldType::Char));
    assert_eq!(parse_field_type("D"), Ok(FieldType::Double));
    assert_eq!(parse_field_type("F"), Ok(FieldType::Float));
    assert_eq!(parse_field_type("J"), Ok(FieldType::Long));
    assert_eq!(parse_field_type("S"), Ok(FieldType::Short));
    assert_eq!(parse_field_type("Z"), Ok(FieldType::Boolean));
}

#[test]
fn nested_array_of_objects() {
    assert_eq!(
        parse_field_type("[[Ljava/lang/String;"),
        Ok(array(array(object("java/lang/String"))))
    );
}

#[test]
fn method_with_three_parameters() {
    assert_eq!(
        parse_method_descriptor("(IJLjava/lang/String;)Z"),
        Ok(MethodDescriptor {
            parameter_types: vec![FieldType::Int, FieldType::Long, object("java/lang/String")],
            return_type: FieldType::Boolean,
        })
    );
}

#[test]
fn method_without_parameters_returning_void() {
    assert_eq!(
        parse_method_descriptor("()V"),
        Ok(MethodDescriptor { parameter_types: vec![], return_type: FieldType::Void })
    );
}

#[test]
fn missing_close_paren() {
    assert_eq!(parse_method_descriptor("(I"), Err(invalid("(I", 2)));
}

#[test]
fn missing_semicolon() {
    assert_eq!(parse_field_type("Lfoo"), Err(invalid("Lfoo", 4)));
}

#[test]
fn missing_open_paren() {
    assert_eq!(parse_method_descriptor("I)V"), Err(invalid("I)V", 0)));
    assert_eq!(parse_method_descriptor(""), Err(invalid("", 0)));
}

#[test]
fn unterminated_array() {
    assert_eq!(parse_field_type("[["), Err(invalid("[[", 2)));
}

#[test]
fn unknown_leading_character() {
    assert_eq!(parse_field_type("X"), Err(invalid("X", 0)));
    assert_eq!(parse_field_type(""), Err(invalid("", 0)));
    assert_eq!(parse_method_descriptor("(IQ)V"), Err(invalid("(IQ)V", 2)));
}

#[test]
fn trailing_characters() {
    assert_eq!(parse_field_type("II"), Err(invalid("II", 1)));
    assert_eq!(parse_method_descriptor("()VV"), Err(invalid("()VV", 3)));
}

#[test]
fn missing_return_type() {
    assert_eq!(parse_method_descriptor("(I)"), Err(invalid("(I)", 3)));
}

#[test]
fn void_only_as_result() {
    assert_eq!(parse_field_type("V"), Err(invalid("V", 0)));
    assert_eq!(parse_field_type("[V"), Err(invalid("[V", 1)));
    assert_eq!(parse_method_descriptor("(IV)I"), Err(invalid("(IV)I", 2)));
}

#[test]
fn positions_count_characters() {
    assert_eq!(parse_field_type("L\u{e9}t\u{e9};"), Ok(object("\u{e9}t\u{e9}")));
    assert_eq!(parse_field_type("L\u{e9};I"), Err(invalid("L\u{e9};I", 3)));
}

#[test]
fn empty_class_name_is_taken_verbatim() {
    assert_eq!(parse_field_type("L;"), Ok(object("")));
}

#[test]
fn from_str_internal_returns_the_position_behind_the_type() {
    assert_eq!(FieldType::from_str_internal("(I[JZ)V", 2), Ok((array(FieldType::Long), 4)));
    assert_eq!(FieldType::from_str_internal("V", 0), Ok((FieldType::Void, 1)));
    assert_eq!(
        FieldType::from_str_internal("I", 5),
        Err(invalid("I", 5))
    );
}

#[test]
fn descriptor_text_of_types() {
    assert_eq!(array(array(object("java/lang/String"))).to_descriptor(), "[[Ljava/lang/String;");
    assert_eq!(FieldType::Void.to_descriptor(), "V");
}

#[test]
fn parsing_a_reserialized_method_gives_the_same_method() {
    for text in ["()V", "(IJLjava/lang/String;)Z", "([[I[Lx;BCDFSZ)[J"] {
        let parsed = parse_method_descriptor(text).unwrap();
        let again = parsed.to_descriptor();
        assert_eq!(again, text);
        assert_eq!(parse_method_descriptor(&again), Ok(parsed));
    }
}

#[test]
fn descriptors_parse_from_strings() {
    assert_eq!("[Z".parse::<FieldType>(), Ok(array(FieldType::Boolean)));
    assert_eq!(
        "(S)C".parse::<MethodDescriptor>(),
        Ok(MethodDescriptor { parameter_types: vec![FieldType::Short], return_type: FieldType::Char })
    );
    assert_eq!("(S".parse::<MethodDescriptor>(), Err(invalid("(S", 2)));
    assert_eq!(FieldType::from_str("D"), Ok(FieldType::Double));
    assert_eq!(MethodDescriptor::from_str("()F").map(|m| m.return_type), Ok(FieldType::Float));
}
