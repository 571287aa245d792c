use catalyze::field::{
    CType, EmbedField, EnumField, Field, JsType, Label, MapField, OneofField, RepeatedField,
    Scalar, ScalarField, Type,
};
use protobuf::descriptor::field_options;
use protobuf::EnumOrUnknown;

#[test]
fn type_from_code_decodes_every_scalar() {
    let cases: Vec<(i32, Scalar)> = vec![
        (1, Scalar::Double),
        (2, Scalar::Float),
        (3, Scalar::Int64),
        (4, Scalar::Uint64),
        (5, Scalar::Int32),
        (6, Scalar::Fixed64),
        (7, Scalar::Fixed32),
        (8, Scalar::Bool),
        (9, Scalar::String),
        (12, Scalar::Bytes),
        (13, Scalar::Uint32),
        (15, Scalar::Sfixed32),
        (16, Scalar::Sfixed64),
        (17, Scalar::Sint32),
        (18, Scalar::Sint64),
    ];
    for (code, scalar) in cases {
        assert_eq!(Type::from_code(code, "E", "M"), Type::Scalar(scalar));
    }
}

#[test]
fn type_from_code_decodes_references_and_group() {
    assert_eq!(Type::from_code(14, "my.Enum", "my.Msg"), Type::Enum("my.Enum".to_string()));
    assert_eq!(Type::from_code(11, "my.Enum", "my.Msg"), Type::Message("my.Msg".to_string()));
    assert_eq!(Type::from_code(10, "E", "M"), Type::Group);
    assert_eq!(Type::from_code(0, "E", "M"), Type::Unknown(0));
    assert_eq!(Type::from_code(19, "E", "M"), Type::Unknown(19));
    assert_eq!(Type::from_code(-3, "E", "M"), Type::Unknown(-3));
}

#[test]
fn type_accessors_classify_each_variant() {
    let scalar = Type::Scalar(Scalar::Bool);
    let enum_ = Type::Enum("E".to_string());
    let message = Type::Message("M".to_string());
    let group = Type::Group;
    let unknown = Type::Unknown(42);

    assert!(scalar.is_scalar() && !scalar.is_enum() && !scalar.is_message());
    assert!(enum_.is_enum() && !enum_.is_scalar());
    assert!(message.is_message() && !message.is_group());
    assert!(group.is_group() && !group.is_unknown());
    assert!(unknown.is_unknown() && !unknown.is_scalar());

    assert_eq!(scalar.as_scalar(), Some(Scalar::Bool));
    assert_eq!(enum_.as_scalar(), None);
    assert_eq!(enum_.as_enum(), Some(&"E".to_string()));
    assert_eq!(message.as_enum(), None);
    assert_eq!(message.as_message(), Some("M"));
    assert_eq!(group.as_message(), None);
    assert_eq!(unknown.as_unknown(), Some(&42));
    assert_eq!(scalar.as_unknown(), None);
}

#[test]
fn scalar_displays_proto_names() {
    assert_eq!(Scalar::Double.display(), "double");
    assert_eq!(Scalar::Bool.display(), "bool");
    assert_eq!(Scalar::Bytes.display(), "bytes");
    assert_eq!(Scalar::Sfixed64.display(), "sfixed64");
    assert_eq!(Scalar::Sint32.display(), "sint32");
    assert_eq!(Scalar::Enum.display(), "enum");
}

#[test]
fn ctype_from_code_covers_all_variants() {
    assert_eq!(CType::from_code(0), CType::String);
    assert_eq!(CType::from_code(1), CType::Cord);
    assert_eq!(CType::from_code(2), CType::StringPiece);
    assert_eq!(CType::from_code(9), CType::Unknown(9));
}

#[test]
fn jstype_from_code_covers_all_variants() {
    assert_eq!(JsType::from_code(0), JsType::Normal);
    assert_eq!(JsType::from_code(1), JsType::String);
    assert_eq!(JsType::from_code(2), JsType::Number);
    assert_eq!(JsType::from_code(-1), JsType::Unknown(-1));
}

#[test]
fn jstype_converts_from_descriptor_values() {
    assert_eq!(JsType::from(field_options::JSType::JS_NORMAL), JsType::Normal);
    assert_eq!(JsType::from(field_options::JSType::JS_STRING), JsType::String);
    assert_eq!(JsType::from(field_options::JSType::JS_NUMBER), JsType::Number);
}

#[test]
fn jstype_converts_from_option_values() {
    let known: EnumOrUnknown<field_options::JSType> =
        EnumOrUnknown::new(field_options::JSType::JS_NUMBER);
    assert_eq!(JsType::from(known), JsType::Number);

    let raw: EnumOrUnknown<field_options::JSType> = EnumOrUnknown::from_i32(1);
    assert_eq!(JsType::from(raw), JsType::String);

    let unknown: EnumOrUnknown<field_options::JSType> = EnumOrUnknown::from_i32(77);
    assert_eq!(JsType::from(unknown), JsType::Unknown(77));
}

#[test]
fn labels_compare_by_variant() {
    assert_eq!(Label::Required, Label::Required);
    assert_ne!(Label::Optional, Label::Repeated);
    assert_eq!(Label::Unkown(5), Label::Unkown(5));
    assert_ne!(Label::Unkown(5), Label::Unkown(6));
}

#[test]
fn field_reports_its_fully_qualified_name() {
    let cases: Vec<Field> = vec![
        Field::Embed(EmbedField { fqn: ".a.b".to_string() }),
        Field::Enum(EnumField { fqn: ".a.c".to_string() }),
        Field::Mapping(MapField { fqn: ".a.d".to_string() }),
        Field::Oneof(OneofField { fqn: ".a.e".to_string() }),
        Field::Repeated(RepeatedField { fqn: ".a.f".to_string() }),
        Field::Scalar(ScalarField { fqn: ".a.g".to_string() }),
    ];
    let expected = vec![".a.b", ".a.c", ".a.d", ".a.e", ".a.f", ".a.g"];
    for (field, fqn) in cases.iter().zip(expected) {
        assert_eq!(field.fully_qualified_name(), fqn);
    }
}
