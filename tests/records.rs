use bevy_contrib_inspector::codec::{CodecKind, NumberAttributes, ParseError, NUMBER_FOOTER, NUMBER_HEADER};
use bevy_contrib_inspector::record::{Choice, FieldError, FieldOptions, Leaf, Record, UpdateError};
use bevy_contrib_inspector::{Inspectable, InspectableOptions};

fn options() -> InspectableOptions {
    InspectableOptions::default()
}

/// `{ a: i32 = 1, b: { c: i32 = 2, d: bool = false } }`
fn nested() -> Record {
    let mut inner = Record::new("Inner", options());
    inner.add_field("c", Leaf::I32(2)).unwrap();
    inner.add_field("d", Leaf::Bool(false)).unwrap();
    let mut outer = Record::new("Outer", options());
    outer.add_field("a", Leaf::I32(1)).unwrap();
    outer.add_record("b", inner).unwrap();
    outer
}

#[test]
fn default_port() {
    assert_eq!(InspectableOptions::default().port, 5676);
    assert_eq!(nested().options().port, 5676);
}

#[test]
fn nested_fields_get_dotted_paths() {
    let r = nested();
    assert_eq!(r.len(), 3);
    assert_eq!(r.field(0).path, "a");
    assert_eq!(r.field(1).path, "b.c");
    assert_eq!(r.field(1).label, "c");
    assert_eq!(r.field(2).path, "b.d");
    assert_eq!(r.index_of("b.d"), Some(2));
    assert_eq!(r.index_of("b"), None);
}

#[test]
fn edit_of_root_field_changes_only_it() {
    let mut r = nested();
    assert!(r.update("a", "5").is_ok());
    assert!(matches!(r.value_at("a"), Some(Leaf::I32(5))));
    assert!(matches!(r.value_at("b.c"), Some(Leaf::I32(2))));
    assert!(matches!(r.value_at("b.d"), Some(Leaf::Bool(false))));
}

#[test]
fn edit_of_nested_field_changes_only_it() {
    let mut r = nested();
    assert!(r.update("b.c", "5").is_ok());
    assert!(matches!(r.value_at("a"), Some(Leaf::I32(1))));
    assert!(matches!(r.value_at("b.c"), Some(Leaf::I32(5))));
    assert!(matches!(r.value_at("b.d"), Some(Leaf::Bool(false))));
}

#[test]
fn unknown_path_changes_nothing() {
    let mut r = nested();
    let before = r.html();
    let res = r.update("z", "5");
    assert!(matches!(res, Err(UpdateError::UnknownField(ref p)) if p == "z"));
    assert_eq!(r.html(), before);
    assert!(matches!(r.update("b.z", "5"), Err(UpdateError::UnknownField(_))));
    assert!(matches!(r.update("b", "5"), Err(UpdateError::UnknownField(_))));
    assert_eq!(r.html(), before);
}

#[test]
fn bad_value_changes_nothing() {
    let mut r = nested();
    let res = r.update("b.d", "yes");
    assert!(matches!(res, Err(UpdateError::Invalid(ParseError { kind: CodecKind::Bool }))));
    assert!(matches!(r.value_at("b.d"), Some(Leaf::Bool(false))));
}

#[test]
fn choice_selects_named_variant() {
    let mut r = Record::new("R", options());
    let mode = Choice { variants: vec![String::from("Fast"), String::from("Slow")], selected: 0 };
    r.add_field("mode", Leaf::Choice(mode)).unwrap();
    assert!(r.update("mode", "Slow").is_ok());
    assert!(matches!(r.value_at("mode"), Some(Leaf::Choice(c)) if c.selected == 1));
    let res = r.update("mode", "Medium");
    assert!(matches!(res, Err(UpdateError::Invalid(ParseError { kind: CodecKind::Choice }))));
    assert!(matches!(r.value_at("mode"), Some(Leaf::Choice(c)) if c.selected == 1));
    let html = r.html();
    assert!(html.contains("value=\"Slow\" name=\"mode\" checked"));
    assert!(html.contains("value=\"Fast\" name=\"mode\" oninput"));
}

#[test]
fn adding_fields_checks_names_and_paths() {
    let mut r = nested();
    assert_eq!(r.add_field("a", Leaf::Bool(true)), Err(FieldError::DuplicatePath));
    assert_eq!(r.add_field("x.y", Leaf::Bool(true)), Err(FieldError::InvalidName));
    assert_eq!(r.add_field("x:y", Leaf::Bool(true)), Err(FieldError::InvalidName));
    assert_eq!(r.add_field("", Leaf::Bool(true)), Err(FieldError::InvalidName));
    let bad = Choice { variants: vec![String::from("A")], selected: 3 };
    assert_eq!(r.add_field("e", Leaf::Choice(bad)), Err(FieldError::InvalidValue));
    let mut again = Record::new("Again", options());
    again.add_field("c", Leaf::U8(0)).unwrap();
    assert_eq!(r.add_record("b", again), Err(FieldError::DuplicatePath));
    assert_eq!(r.len(), 3);
    assert_eq!(r.add_field("e", Leaf::Text(String::from("hi"))), Ok(()));
    assert_eq!(r.len(), 4);
}

#[test]
fn shared_family_header_emitted_once() {
    let mut r = Record::new("Numbers", options());
    r.add_field("x", Leaf::U8(1)).unwrap();
    r.add_field("y", Leaf::I32(2)).unwrap();
    r.add_field("z", Leaf::U64(3)).unwrap();
    let html = r.html();
    assert_eq!(html.matches(NUMBER_HEADER).count(), 1);
    assert_eq!(html.matches(NUMBER_FOOTER).count(), 1);
    assert!(html.find(NUMBER_HEADER).unwrap() < html.find("<b>Numbers</b>").unwrap());
    assert!(html.find(NUMBER_FOOTER).unwrap() > html.find("id=\"z\"").unwrap());
}

#[test]
fn page_lists_fields_in_order_with_callbacks() {
    let html = nested().html();
    let a = html.find("handleChange('a', value)").unwrap();
    let c = html.find("handleChange('b.c', value)").unwrap();
    let d = html.find("handleChange('b.d', value)").unwrap();
    assert!(a < c && c < d);
    assert!(html.starts_with("<!DOCTYPE html>"));
    assert!(html.ends_with("</body></html>"));
}

#[test]
fn page_without_numbers_has_no_number_script() {
    let mut r = Record::new("Flags", options());
    r.add_field("on", Leaf::Bool(true)).unwrap();
    assert_eq!(r.html().matches(NUMBER_HEADER).count(), 0);
}

#[test]
fn nested_record_label_heads_its_fields() {
    let r = nested();
    assert_eq!(r.field(1).headings, vec![String::from("Inner")]);
    assert!(r.field(0).headings.is_empty());
    assert!(r.field(2).headings.is_empty());
    let html = r.html();
    let a = html.find("handleChange('a', value)").unwrap();
    let heading = html.find("<b>Inner</b>").unwrap();
    let c = html.find("<label for=\"c\"").unwrap();
    assert!(a < heading && heading < c);
    assert_eq!(html.matches("<b>Inner</b>").count(), 1);
}

#[test]
fn deeply_nested_labels_stack_outermost_first() {
    let mut leaf = Record::new("Deep", options());
    leaf.add_field("v", Leaf::Bool(true)).unwrap();
    let mut mid = Record::new("Mid", options());
    mid.add_record("d", leaf).unwrap();
    let mut top = Record::new("Top", options());
    top.add_record("m", mid).unwrap();
    assert_eq!(top.field(0).path, "m.d.v");
    assert_eq!(top.field(0).headings, vec![String::from("Mid"), String::from("Deep")]);
    assert!(top.html().contains("<b>Mid</b><b>Deep</b>"));
    assert!(top.update("m.d.v", "false").is_ok());
    assert!(matches!(top.value_at("m.d.v"), Some(Leaf::Bool(false))));
}

#[test]
fn field_options_shape_its_control() {
    let mut r = Record::new("R", options());
    let attrs = NumberAttributes { min: 2u8, max: 9, step: 3 };
    assert_eq!(r.add_field_with_options("x", Leaf::U8(5), FieldOptions::U8(attrs)), Ok(()));
    r.add_field("y", Leaf::U8(6)).unwrap();
    let html = r.html();
    assert!(html.contains("min=\"2\" max=\"9\" step=\"3\" value=\"5\""));
    assert!(html.contains("min=\"0\" max=\"255\" step=\"1\" value=\"6\""));
    // advisory only: a value outside the bounds is still accepted
    assert!(r.update("x", "200").is_ok());
    assert!(matches!(r.value_at("x"), Some(Leaf::U8(200))));
}

#[test]
fn field_options_of_another_type_are_refused() {
    let mut r = Record::new("R", options());
    let attrs = NumberAttributes { min: 0i32, max: 5, step: 1 };
    assert_eq!(r.add_field_with_options("x", Leaf::U8(5), FieldOptions::I32(attrs)), Err(FieldError::InvalidOptions));
    assert_eq!(r.len(), 0);
    assert_eq!(r.add_field_with_options("t", Leaf::Text(String::new()), FieldOptions::Default), Ok(()));
}
