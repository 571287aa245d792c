use catalyze::ast::nodes::{
    EnumData, EnumValueData, ExtensionData, FieldData, MessageData, MethodData, OneofData,
    PackageData, ServiceData,
};
use catalyze::ast::{AstHydration, Error, Node};
use catalyze::ast::nodes::FileData;

fn method_data(input: &str, output: &str, file: &str, name: &str) -> MethodData {
    MethodData {
        input: input.to_string(),
        output: output.to_string(),
        file: file.to_string(),
        name: name.to_string(),
        deprecated: false,
    }
}

#[test]
fn placeholders_are_idempotent() {
    let mut h = AstHydration::new();
    let first = h.placeholder_message("m").unwrap();
    let second = h.placeholder_message("m").unwrap();
    let third = h.placeholder_message("m").unwrap();
    assert_eq!(first, second);
    assert_eq!(first, third);
}

#[test]
fn placeholder_sees_the_declared_value() {
    let mut h = AstHydration::new();
    let handle = h.placeholder_message("m").unwrap();
    h.add_message("m", &MessageData {}).unwrap();
    let ast = h.finish().unwrap();
    assert_eq!(ast.get("m"), Some(handle));
    match ast.node(handle) {
        Node::Message(m) => assert_eq!(m.name, "m"),
        _ => panic!("handle does not reach a message"),
    }
}

#[test]
fn duplicate_declaration_is_rejected() {
    let mut h = AstHydration::new();
    h.add_message("x", &MessageData {}).unwrap();
    assert_eq!(h.add_message("x", &MessageData {}), Err(Error::Present));
    // The first declaration's value is unaffected.
    let ast = h.finish().unwrap();
    let handle = ast.get("x").unwrap();
    match ast.node(handle) {
        Node::Message(m) => assert_eq!(m.name, "x"),
        _ => panic!("handle does not reach a message"),
    }
}

#[test]
fn duplicate_method_declaration_is_rejected() {
    let mut h = AstHydration::new();
    h.add_method("M", &method_data("Req", "Resp", "f.proto", "M")).unwrap();
    assert_eq!(
        h.add_method("M", &method_data("Other", "Other", "g.proto", "M")),
        Err(Error::Present)
    );
}

#[test]
fn kind_mismatch_is_rejected() {
    let mut h = AstHydration::new();
    h.add_message("x", &MessageData {}).unwrap();
    assert_eq!(h.add_enum("x", &EnumData {}), Err(Error::TypeMismatch));
    // A placeholder reference under the wrong kind is rejected too.
    assert_eq!(h.placeholder_service("x"), Err(Error::TypeMismatch));
}

#[test]
fn finish_succeeds_whatever_the_declaration_order() {
    let mut h = AstHydration::new();
    h.add_method("M", &method_data("Req", "Resp", "f.proto", "M")).unwrap();
    h.add_message("Req", &MessageData {}).unwrap();
    h.add_message("Resp", &MessageData {}).unwrap();
    h.add_file("f.proto", &FileData {}).unwrap();
    assert!(h.finish().is_ok());
}

#[test]
fn method_references_resolve_to_the_declared_messages() {
    let mut h = AstHydration::new();
    h.add_method("M", &method_data("Req", "Resp", "f.proto", "M")).unwrap();
    h.add_message("Req", &MessageData {}).unwrap();
    h.add_message("Resp", &MessageData {}).unwrap();
    h.add_file("f.proto", &FileData {}).unwrap();
    let ast = h.finish().unwrap();

    let m = match ast.node(ast.get("M").unwrap()) {
        Node::Method(m) => m,
        _ => panic!("M is not a method"),
    };
    assert!(!m.deprecated);
    assert_eq!(m.name, "M");

    // The method's references are handles into the AST's message array.
    assert!(ast.messages.contains(&m.input));
    assert!(ast.messages.contains(&m.output));
    assert_eq!(ast.messages.len(), 2);
    match ast.node(m.input) {
        Node::Message(msg) => assert_eq!(msg.name, "Req"),
        _ => panic!("input is not a message"),
    }
    match ast.node(m.output) {
        Node::Message(msg) => assert_eq!(msg.name, "Resp"),
        _ => panic!("output is not a message"),
    }
    match ast.node(m.file) {
        Node::File(f) => assert_eq!(f.name, "f.proto"),
        _ => panic!("file is not a file"),
    }

    // They are the same handles the name lookup yields.
    assert_eq!(ast.get("Req"), Some(m.input));
    assert_eq!(ast.get("Resp"), Some(m.output));
    assert_eq!(ast.get("f.proto"), Some(m.file));

    // Per-kind arrays hold exactly the declared nodes.
    assert_eq!(ast.methods.len(), 1);
    assert_eq!(ast.files.len(), 1);
    assert_eq!(ast.packages.len(), 0);
}

#[test]
fn unresolved_reference_fails_at_finish() {
    let mut h = AstHydration::new();
    h.add_method("M", &method_data("Req", "Resp", "f.proto", "M")).unwrap();
    h.add_message("Resp", &MessageData {}).unwrap();
    h.add_file("f.proto", &FileData {}).unwrap();
    // "Req" is referenced but never declared.
    assert_eq!(h.finish().err(), Some(Error::Incomplete));
}

#[test]
fn bare_placeholder_fails_at_finish() {
    let mut h = AstHydration::new();
    h.placeholder_enum("E").unwrap();
    assert_eq!(h.finish().err(), Some(Error::Incomplete));
}

#[test]
fn empty_session_freezes_to_an_empty_ast() {
    let h = AstHydration::new();
    let ast = h.finish().unwrap();
    assert_eq!(ast.len(), 0);
    assert_eq!(ast.get("anything"), None);
}

#[test]
fn every_kind_can_be_declared() {
    let mut h = AstHydration::new();
    h.add_package("p", &PackageData {}).unwrap();
    h.add_file("f", &FileData {}).unwrap();
    h.add_message("m", &MessageData {}).unwrap();
    h.add_enum("e", &EnumData {}).unwrap();
    h.add_enum_value("ev", &EnumValueData {}).unwrap();
    h.add_service("s", &ServiceData {}).unwrap();
    h.add_field("fld", &FieldData {}).unwrap();
    h.add_oneof("o", &OneofData {}).unwrap();
    h.add_extension("x", &ExtensionData {}).unwrap();
    let ast = h.finish().unwrap();
    assert_eq!(ast.len(), 9);
    assert_eq!(ast.packages.len(), 1);
    assert_eq!(ast.files.len(), 1);
    assert_eq!(ast.messages.len(), 1);
    assert_eq!(ast.enums.len(), 1);
    assert_eq!(ast.enum_values.len(), 1);
    assert_eq!(ast.services.len(), 1);
    assert_eq!(ast.methods.len(), 0);
    assert_eq!(ast.fields.len(), 1);
    assert_eq!(ast.oneofs.len(), 1);
    assert_eq!(ast.extensions.len(), 1);
}

#[test]
fn method_whose_input_name_is_its_own_is_a_mismatch() {
    let mut h = AstHydration::new();
    // "M" is being declared as a method, so resolving it as the input
    // message clashes with its own kind.
    assert_eq!(
        h.add_method("M", &method_data("M", "Resp", "f.proto", "M")),
        Err(Error::TypeMismatch)
    );
}
