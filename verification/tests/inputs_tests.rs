use bordered::assets::{Asset, AssetOptions};
use bordered::inputs::{DataType, InputInterface};

#[test]
fn text_interfaces() {
    assert!(InputInterface::Input(DataType::String).is_text());
    assert!(InputInterface::InputCode(DataType::Text).is_text());
    assert!(InputInterface::Slug(DataType::String).is_text());
    assert!(!InputInterface::Boolean(DataType::Boolean).is_text());
    assert!(!InputInterface::File(DataType::String).is_text());
}

#[test]
fn other_kinds() {
    assert!(InputInterface::SelectColor(DataType::String).is_selection());
    assert!(!InputInterface::Input(DataType::String).is_selection());
    assert!(InputInterface::FileImage(DataType::String).is_file());
    assert!(!InputInterface::Csv(DataType::CSV).is_file());
    assert!(InputInterface::Datetime(DataType::Date).is_date());
    assert!(!InputInterface::Input(DataType::Date).is_date());
    assert!(InputInterface::EditorBlock(DataType::JSON).is_other());
    assert!(InputInterface::Csv(DataType::CSV).is_other());
    assert!(!InputInterface::Hash(DataType::String).is_other());
    assert!(!InputInterface::Input(DataType::String).is_relational());
    assert!(!InputInterface::Input(DataType::String).is_map());
}

#[test]
fn stored_types_ignore_the_carried_value() {
    assert_eq!(InputInterface::Input(DataType::Integer).get_type(), DataType::String);
    assert_eq!(InputInterface::Boolean(DataType::String).get_type(), DataType::Boolean);
    assert_eq!(InputInterface::Decimal(DataType::String).get_type(), DataType::Decimal);
    assert_eq!(InputInterface::Float(DataType::String).get_type(), DataType::Float);
    assert_eq!(InputInterface::Integer(DataType::String).get_type(), DataType::Integer);
    assert_eq!(InputInterface::Datetime(DataType::String).get_type(), DataType::DateTime);
    assert_eq!(InputInterface::Hash(DataType::Integer).get_type(), DataType::String);
    assert_eq!(InputInterface::SelectIcon(DataType::Integer).get_type(), DataType::String);
    assert_eq!(InputInterface::<DataType>::default().get_type(), DataType::String);
    assert!(InputInterface::<DataType>::default().is_text());
}

#[test]
fn asset_options() {
    let a = AssetOptions::new("/main.js");
    assert_eq!(a.path, "/main.js");
    assert!(!a.defer);
    assert!(!a._async);
    let b = AssetOptions::with_defer("/late.js");
    assert_eq!(b.path, "/late.js");
    assert!(b.defer);
    assert!(!b._async);
    let d = AssetOptions::default();
    assert_eq!(d.path, "");
    assert!(!d.defer);
    assert_eq!(Asset::Script(b.clone()).get_options().path, "/late.js");
    assert!(Asset::Style(b.clone()).get_options().defer);
    assert_eq!(Asset::Link(a.clone()).get_options().path, "/main.js");
    assert_eq!(Asset::Image(a).get_options().path, "/main.js");
}
