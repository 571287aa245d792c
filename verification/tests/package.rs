use catalyze::node::Kind;
use catalyze::package::Package;

#[test]
fn package_exposes_its_fields() {
    let p = Package {
        name: "google.protobuf".to_string(),
        is_well_known: true,
        files: vec!["descriptor.proto".to_string(), "any.proto".to_string()],
    };
    assert_eq!(p.name(), "google.protobuf");
    assert!(p.is_well_known());
    assert_eq!(p.files().len(), 2);
    assert_eq!(p.files()[0], "descriptor.proto");

    let q = Package { name: "mine".to_string(), is_well_known: false, files: vec![] };
    assert_eq!(q.name(), "mine");
    assert!(!q.is_well_known());
    assert!(q.files().is_empty());
}

#[test]
fn kind_displays_its_name() {
    assert_eq!(Kind::Package.display(), "Package");
    assert_eq!(Kind::File.display(), "File");
    assert_eq!(Kind::Message.display(), "Message");
    assert_eq!(Kind::Oneof.display(), "Oneof");
    assert_eq!(Kind::Enum.display(), "Enum");
    assert_eq!(Kind::EnumValue.display(), "EnumValue");
    assert_eq!(Kind::Service.display(), "Service");
    assert_eq!(Kind::Method.display(), "Method");
    assert_eq!(Kind::Field.display(), "Field");
    assert_eq!(Kind::Extension.display(), "Extension");
}
