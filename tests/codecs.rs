use bevy_contrib_inspector::codec::{AsHtml, CodecKind, ParseError, Rgb, SharedOptions, NUMBER_HEADER, NUMBER_FOOTER};

fn number_error() -> ParseError {
    ParseError { kind: CodecKind::Number }
}

#[test]
fn bool_round_trips_its_text() {
    assert_eq!(<bool as AsHtml>::parse("true"), Ok(true));
    assert_eq!(<bool as AsHtml>::parse("false"), Ok(false));
    assert_eq!(true.text(), "true");
    assert_eq!(false.text(), "false");
}

#[test]
fn bool_rejects_other_text() {
    let err = Err(ParseError { kind: CodecKind::Bool });
    assert_eq!(<bool as AsHtml>::parse("True"), err);
    assert_eq!(<bool as AsHtml>::parse(""), err);
    assert_eq!(<bool as AsHtml>::parse("1"), err);
}

#[test]
fn integer_parses_decimal_text() {
    assert_eq!(<u32 as AsHtml>::parse("42"), Ok(42));
    assert_eq!(<i32 as AsHtml>::parse("-17"), Ok(-17));
    assert_eq!(<u8 as AsHtml>::parse("+7"), Ok(7));
    assert_eq!(<i64 as AsHtml>::parse("007"), Ok(7));
}

#[test]
fn integer_rejects_out_of_range_and_malformed_text() {
    assert_eq!(<u8 as AsHtml>::parse("256"), Err(number_error()));
    assert_eq!(<i8 as AsHtml>::parse("-129"), Err(number_error()));
    assert_eq!(<u16 as AsHtml>::parse("-1"), Err(number_error()));
    assert_eq!(<u32 as AsHtml>::parse(""), Err(number_error()));
    assert_eq!(<i32 as AsHtml>::parse("-"), Err(number_error()));
    assert_eq!(<i32 as AsHtml>::parse("4x"), Err(number_error()));
    assert_eq!(<u64 as AsHtml>::parse("1.5"), Err(number_error()));
    assert_eq!(<u128 as AsHtml>::parse("340282366920938463463374607431768211456"), Err(number_error()));
}

#[test]
fn integer_extremes_round_trip() {
    assert_eq!(u128::MAX.text(), "340282366920938463463374607431768211455");
    assert_eq!(<u128 as AsHtml>::parse(&u128::MAX.text()), Ok(u128::MAX));
    assert_eq!(i128::MIN.text(), "-170141183460469231731687303715884105728");
    assert_eq!(<i128 as AsHtml>::parse(&i128::MIN.text()), Ok(i128::MIN));
    assert_eq!(<i8 as AsHtml>::parse(&i8::MIN.text()), Ok(i8::MIN));
    assert_eq!(<isize as AsHtml>::parse(&(-5isize).text()), Ok(-5));
    assert_eq!(<usize as AsHtml>::parse(&0usize.text()), Ok(0));
    assert_eq!(<i16 as AsHtml>::parse(&300i16.text()), Ok(300));
}

#[test]
fn text_parses_to_itself() {
    assert_eq!(<String as AsHtml>::parse("any text: at all"), Ok(String::from("any text: at all")));
    assert_eq!(<String as AsHtml>::parse(""), Ok(String::new()));
    assert_eq!(String::from("abc").text(), "abc");
}

#[test]
fn color_round_trips_hex_text() {
    let c = Rgb { r: 255, g: 128, b: 0 };
    assert_eq!(c.text(), "#ff8000");
    assert_eq!(<Rgb as AsHtml>::parse("#ff8000"), Ok(c));
    assert_eq!(<Rgb as AsHtml>::parse("#FF8000"), Ok(c));
    assert_eq!(Rgb { r: 1, g: 2, b: 171 }.text(), "#0102ab");
}

#[test]
fn color_rejects_malformed_text() {
    let err = Err(ParseError { kind: CodecKind::Color });
    assert_eq!(<Rgb as AsHtml>::parse("ff8000"), err);
    assert_eq!(<Rgb as AsHtml>::parse("#ff80"), err);
    assert_eq!(<Rgb as AsHtml>::parse("#ff800000"), err);
    assert_eq!(<Rgb as AsHtml>::parse("#gg8000"), err);
    assert_eq!(<Rgb as AsHtml>::parse("#+f8000"), err);
}

#[test]
fn number_markup_holds_value_bounds_and_callback() {
    let shared = SharedOptions { label: String::from("size"), default: 7u8 };
    let html = <u8 as AsHtml>::as_html(shared, <u8 as AsHtml>::default_options(), String::from("cb"));
    assert!(html.contains("value=\"7\""));
    assert!(html.contains("min=\"0\" max=\"255\" step=\"1\""));
    assert!(html.contains("oninput=\"cb(this.value)\""));
    assert!(html.contains("<label for=\"size\""));
}

#[test]
fn checkbox_markup_follows_value() {
    let on = <bool as AsHtml>::as_html(SharedOptions { label: String::from("on"), default: true }, (), String::from("f"));
    let off = <bool as AsHtml>::as_html(SharedOptions { label: String::from("on"), default: false }, (), String::from("f"));
    assert!(on.contains("type=\"checkbox\" checked"));
    assert!(!off.contains("checked "));
    assert!(on.contains("f(this.checked)"));
}

#[test]
fn color_markup_holds_hex_value() {
    let html = <Rgb as AsHtml>::as_html(SharedOptions { label: String::from("tint"), default: Rgb { r: 0, g: 255, b: 16 } }, (), String::from("f"));
    assert!(html.contains("type=\"color\" value=\"#00ff10\""));
}

#[test]
fn integer_widths_share_one_header() {
    assert_eq!(<u8 as AsHtml>::header(), NUMBER_HEADER);
    assert_eq!(<i64 as AsHtml>::header(), <u8 as AsHtml>::header());
    assert_eq!(<u32 as AsHtml>::footer(), NUMBER_FOOTER);
    assert_eq!(<u8 as AsHtml>::codec_kind(), <i128 as AsHtml>::codec_kind());
    assert_eq!(<bool as AsHtml>::header(), "");
    assert_eq!(<String as AsHtml>::footer(), "");
}

#[test]
fn update_keeps_value_on_error() {
    let mut v: u16 = 9;
    assert_eq!(v.update("12"), Ok(()));
    assert_eq!(v, 12);
    assert_eq!(v.update("x"), Err(number_error()));
    assert_eq!(v, 12);
}
