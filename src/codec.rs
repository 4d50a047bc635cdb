//! The codec of each built-in value type: how a value is drawn as a form
//! control, the text that the control sends back, and how that text is read.
use vstd::prelude::*;
use vstd::string::*;
use crate::text::{
    byte_of_hex, decimal, hex_pair, int_of_text, lemma_decimal_parse, lemma_hex_pair_parse,
    parse_int, push_hex_pair, read_hex_pair, signed_text, unsigned_text,
};

verus! {

/// The family of a codec. Codecs of one family share their page-level
/// header and footer, so a document carries them at most once per family.
#[derive(Clone, Copy, Debug, PartialEq, Eq, Structural)]
pub enum CodecKind {
    Number,
    Bool,
    Text,
    Color,
    Choice,
}

/// A value's text did not parse as the type of the codec named by `kind`.
#[derive(Clone, Copy, Debug, PartialEq, Eq, Structural)]
pub struct ParseError {
    pub kind: CodecKind,
}

/// The label of a field and the value it holds when the form is drawn.
pub struct SharedOptions<T> {
    pub label: String,
    pub default: T,
}

/// Advisory bounds and step of a numeric control; never enforced by `parse`.
#[derive(Debug, PartialEq, Eq, Structural)]
pub struct NumberAttributes<T> {
    pub min: T,
    pub max: T,
    pub step: T,
}

/// Script that turns numeric inputs into draggable scrubbers.
pub const NUMBER_HEADER: &'static str = r#"<script>var Numscrubber={};Numscrubber.init=function(){for(var a=document.querySelectorAll("input"),b=0;b<a.length;b++)if("number"==a[b].type&&null!==a[b].getAttribute("data-numscrubber")){a[b].readOnly=!0,a[b].setAttribute("style","-moz-appearance: textfield");var c=document.createElement("span");document.body.appendChild(c),a[b].parentElement.replaceChild(c,a[b]),c.style.position="relative",c.appendChild(a[b]),c.style.width=a[b].offsetWidth+"px",c.style.height=a[b].offsetHeight+"px";var d=document.createElement("input");d.setAttribute("type","range"),c.appendChild(d),""!=a[b].getAttribute("disabled")&&1!=a[b].getAttribute("disabled")||d.setAttribute("disabled",!0),d.setAttribute("step",a[b].getAttribute("step")),d.value=a[b].value,d.min=a[b].min,d.max=a[b].max;var e=a[b].currentStyle||window.getComputedStyle(a[b]);d.style.position="absolute",d.style.margin=e.margin,d.style.left=0,d.style.border="1px solid transparent",d.style.opacity=0,d.style.cursor="e-resize",d.style.width=a[b].offsetWidth+"px",d.style.height=a[b].offsetHeight+"px",function(b){d.addEventListener("input",function(){a[b].value=this.value;var c=new Event("input");a[b].dispatchEvent(c)})}(b)}};</script>"#;

/// Script that starts the numeric scrubbers once the page is built.
pub const NUMBER_FOOTER: &'static str = "<script>Numscrubber.init()</script>";

/// The page-level header of a codec family.
pub open spec fn header_text(k: CodecKind) -> Seq<char> {
    match k {
        CodecKind::Number => NUMBER_HEADER@,
        _ => Seq::empty(),
    }
}

/// The page-level footer of a codec family.
pub open spec fn footer_text(k: CodecKind) -> Seq<char> {
    match k {
        CodecKind::Number => NUMBER_FOOTER@,
        _ => Seq::empty(),
    }
}

/// The header of a codec family.
pub fn header_of(k: CodecKind) -> (r: &'static str)
    ensures
        r@ == header_text(k),
{
    match k {
        CodecKind::Number => NUMBER_HEADER,
        _ => {
            proof {
                reveal_strlit("");
            }
            ""
        },
    }
}

/// The footer of a codec family.
pub fn footer_of(k: CodecKind) -> (r: &'static str)
    ensures
        r@ == footer_text(k),
{
    match k {
        CodecKind::Number => NUMBER_FOOTER,
        _ => {
            proof {
                reveal_strlit("");
            }
            ""
        },
    }
}

/// One labelled form control: `attrs` are the control's own attributes, and
/// its input handler calls `submit` with `arg`.
pub open spec fn input_row(
    label: Seq<char>,
    attrs: Seq<char>,
    arg: Seq<char>,
    submit: Seq<char>,
) -> Seq<char> {
    "<div class=\"row\"><label for=\""@ + label + "\" class=\"cell text-right\">"@ + label
        + ":</label><input class=\"cell\" "@ + attrs + " oninput=\""@ + submit + "("@ + arg
        + ")\" id=\""@ + label + "\"></div>"@
}

/// Builds the markup of `input_row`.
pub fn render_input_row(label: &str, attrs: &str, arg: &str, submit: &str) -> (r: String)
    ensures
        r@ == input_row(label@, attrs@, arg@, submit@),
{
    let mut s = String::from_str("<div class=\"row\"><label for=\"");
    s.append(label);
    s.append("\" class=\"cell text-right\">");
    s.append(label);
    s.append(":</label><input class=\"cell\" ");
    s.append(attrs);
    s.append(" oninput=\"");
    s.append(submit);
    s.append("(");
    s.append(arg);
    s.append(")\" id=\"");
    s.append(label);
    s.append("\"></div>");
    s
}

/// The attributes of a numeric control.
pub open spec fn number_attrs(
    min: Seq<char>,
    max: Seq<char>,
    step: Seq<char>,
    value: Seq<char>,
) -> Seq<char> {
    "data-numscrubber type=\"number\" min=\""@ + min + "\" max=\""@ + max + "\" step=\""@ + step
        + "\" value=\""@ + value + "\""@
}

/// The markup of a numeric control, given the texts of its bounds and value.
pub open spec fn number_html(
    label: Seq<char>,
    min: Seq<char>,
    max: Seq<char>,
    step: Seq<char>,
    value: Seq<char>,
    submit: Seq<char>,
) -> Seq<char> {
    input_row(label, number_attrs(min, max, step, value), "this.value"@, submit)
}

/// Builds the markup of `number_html`.
pub fn render_number(
    label: &str,
    min: String,
    max: String,
    step: String,
    value: String,
    submit: &str,
) -> (r: String)
    ensures
        r@ == number_html(label@, min@, max@, step@, value@, submit@),
{
    let mut attrs = String::from_str("data-numscrubber type=\"number\" min=\"");
    attrs.append(min.as_str());
    attrs.append("\" max=\"");
    attrs.append(max.as_str());
    attrs.append("\" step=\"");
    attrs.append(step.as_str());
    attrs.append("\" value=\"");
    attrs.append(value.as_str());
    attrs.append("\"");
    render_input_row(label, attrs.as_str(), "this.value", submit)
}

/// An integer read from `text`, where it lies within `min ..= max`.
pub open spec fn number_of_text(text: Seq<char>, signed: bool, min: int, max: int) -> Option<int> {
    match int_of_text(text, signed) {
        Some(n) => if min <= n <= max {
            Some(n)
        } else {
            None
        },
        None => None,
    }
}

/// Reads an unsigned integer no greater than `max`.
pub fn parse_unsigned(value: &str, max: u128) -> (r: Option<u128>)
    ensures
        match number_of_text(value@, false, 0, max as int) {
            Some(n) => r == Some(n as u128),
            None => r is None,
        },
{
    match parse_int(value, false) {
        Some((neg, m)) => {
            if neg {
                if m == 0 {
                    Some(0)
                } else {
                    None
                }
            } else if m <= max {
                Some(m)
            } else {
                None
            }
        },
        None => None,
    }
}

/// Reads a signed integer within `min ..= max`.
pub fn parse_signed(value: &str, min: i128, max: i128) -> (r: Option<i128>)
    requires
        min <= 0 <= max,
    ensures
        match number_of_text(value@, true, min as int, max as int) {
            Some(n) => r == Some(n as i128),
            None => r is None,
        },
{
    match parse_int(value, true) {
        Some((neg, m)) => {
            if neg {
                if m > (i128::MAX as u128) + 1 {
                    None
                } else {
                    let v: i128 = if m == (i128::MAX as u128) + 1 {
                        i128::MIN
                    } else {
                        -(m as i128)
                    };
                    if v >= min {
                        Some(v)
                    } else {
                        None
                    }
                }
            } else if m <= max as u128 {
                Some(m as i128)
            } else {
                None
            }
        },
        None => None,
    }
}

/// The render and parse contract of a value type.
pub trait AsHtml: Sized + View {
    /// The advisory attributes a field of this type can be given.
    type Options;

    /// The text that the browser control sends for a value.
    spec fn text_of(v: Self::V) -> Seq<char>;

    /// The value that a text stands for, if it stands for one.
    spec fn parse_spec(text: Seq<char>) -> Option<Self::V>;

    /// The codec family, which is the key of the page-level header and footer.
    spec fn kind() -> CodecKind;

    /// The markup of a field with this label, value, options and change callback.
    spec fn html_of(label: Seq<char>, v: Self::V, options: Self::Options, submit: Seq<char>) -> Seq<
        char,
    >;

    spec fn default_options_spec() -> Self::Options;

    /// Parsing gives back the value whose text was sent.
    proof fn lemma_text_round_trip(v: Self::V)
        ensures
            Self::parse_spec(Self::text_of(v)) == Some(v),
    ;

    fn default_options() -> (r: Self::Options)
        ensures
            r == Self::default_options_spec(),
    ;

    fn codec_kind() -> (k: CodecKind)
        ensures
            k == Self::kind(),
    ;

    /// Markup that goes to the top of the page, once per codec family.
    fn header() -> (r: &'static str)
        ensures
            r@ == header_text(Self::kind()),
    {
        header_of(Self::codec_kind())
    }

    /// Markup that goes to the bottom of the page, once per codec family.
    fn footer() -> (r: &'static str)
        ensures
            r@ == footer_text(Self::kind()),
    {
        footer_of(Self::codec_kind())
    }

    /// The value as the control's own text.
    fn text(&self) -> (r: String)
        ensures
            r@ == Self::text_of(self@),
    ;

    fn as_html(shared: SharedOptions<Self>, options: Self::Options, submit_fn: String) -> (r:
        String)
        ensures
            r@ == Self::html_of(shared.label@, shared.default@, options, submit_fn@),
    ;

    fn parse(value: &str) -> (r: Result<Self, ParseError>)
        ensures
            match Self::parse_spec(value@) {
                Some(v) => r is Ok && r->Ok_0@ == v,
                None => r == Err::<Self, ParseError>(ParseError { kind: Self::kind() }),
            },
    ;

    /// Replaces the value with the one that `value` stands for; on an error
    /// the value is left as it was.
    fn update(&mut self, value: &str) -> (r: Result<(), ParseError>)
        ensures
            match Self::parse_spec(value@) {
                Some(v) => r is Ok && final(self)@ == v,
                None => {
                    &&& r == Err::<(), ParseError>(ParseError { kind: Self::kind() })
                    &&& *final(self) == *old(self)
                },
            },
    {
        match Self::parse(value) {
            Ok(v) => {
                *self = v;
                Ok(())
            },
            Err(e) => Err(e),
        }
    }
}

impl AsHtml for u8 {
    type Options = NumberAttributes<u8>;

    open spec fn text_of(v: u8) -> Seq<char> {
        decimal(v as int)
    }

    open spec fn parse_spec(text: Seq<char>) -> Option<u8> {
        match number_of_text(text, false, u8::MIN as int, u8::MAX as int) {
            Some(n) => Some(n as u8),
            None => None,
        }
    }

    open spec fn kind() -> CodecKind {
        CodecKind::Number
    }

    open spec fn html_of(label: Seq<char>, v: u8, options: NumberAttributes<u8>, submit: Seq<char>) -> Seq<char> {
        number_html(
            label,
            decimal(options.min as int),
            decimal(options.max as int),
            decimal(options.step as int),
            decimal(v as int),
            submit,
        )
    }

    open spec fn default_options_spec() -> NumberAttributes<u8> {
        NumberAttributes { min: u8::MIN, max: u8::MAX, step: 1 }
    }

    proof fn lemma_text_round_trip(v: u8) {
        lemma_decimal_parse(v as int, false);
    }

    fn default_options() -> (r: NumberAttributes<u8>) {
        NumberAttributes { min: u8::MIN, max: u8::MAX, step: 1 }
    }

    fn codec_kind() -> (k: CodecKind) {
        CodecKind::Number
    }

    fn text(&self) -> (r: String) {
        unsigned_text(*self as u128)
    }

    fn as_html(shared: SharedOptions<u8>, options: NumberAttributes<u8>, submit_fn: String) -> (r: String) {
        render_number(
            shared.label.as_str(),
            unsigned_text(options.min as u128),
            unsigned_text(options.max as u128),
            unsigned_text(options.step as u128),
            unsigned_text(shared.default as u128),
            submit_fn.as_str(),
        )
    }

    fn parse(value: &str) -> (r: Result<u8, ParseError>) {
        match parse_unsigned(value, u8::MAX as u128) {
            Some(n) => Ok(n as u8),
            None => Err(ParseError { kind: CodecKind::Number }),
        }
    }
}

impl AsHtml for u16 {
    type Options = NumberAttributes<u16>;

    open spec fn text_of(v: u16) -> Seq<char> {
        decimal(v as int)
    }

    open spec fn parse_spec(text: Seq<char>) -> Option<u16> {
        match number_of_text(text, false, u16::MIN as int, u16::MAX as int) {
            Some(n) => Some(n as u16),
            None => None,
        }
    }

    open spec fn kind() -> CodecKind {
        CodecKind::Number
    }

    open spec fn html_of(label: Seq<char>, v: u16, options: NumberAttributes<u16>, submit: Seq<char>) -> Seq<char> {
        number_html(
            label,
            decimal(options.min as int),
            decimal(options.max as int),
            decimal(options.step as int),
            decimal(v as int),
            submit,
        )
    }

    open spec fn default_options_spec() -> NumberAttributes<u16> {
        NumberAttributes { min: 0, max: 100, step: 1 }
    }

    proof fn lemma_text_round_trip(v: u16) {
        lemma_decimal_parse(v as int, false);
    }

    fn default_options() -> (r: NumberAttributes<u16>) {
        NumberAttributes { min: 0, max: 100, step: 1 }
    }

    fn codec_kind() -> (k: CodecKind) {
        CodecKind::Number
    }

    fn text(&self) -> (r: String) {
        unsigned_text(*self as u128)
    }

    fn as_html(shared: SharedOptions<u16>, options: NumberAttributes<u16>, submit_fn: String) -> (r: String) {
        render_number(
            shared.label.as_str(),
            unsigned_text(options.min as u128),
            unsigned_text(options.max as u128),
            unsigned_text(options.step as u128),
            unsigned_text(shared.default as u128),
            submit_fn.as_str(),
        )
    }

    fn parse(value: &str) -> (r: Result<u16, ParseError>) {
        match parse_unsigned(value, u16::MAX as u128) {
            Some(n) => Ok(n as u16),
            None => Err(ParseError { kind: CodecKind::Number }),
        }
    }
}

impl AsHtml for u32 {
    type Options = NumberAttributes<u32>;

    open spec fn text_of(v: u32) -> Seq<char> {
        decimal(v as int)
    }

    open spec fn parse_spec(text: Seq<char>) -> Option<u32> {
        match number_of_text(text, false, u32::MIN as int, u32::MAX as int) {
            Some(n) => Some(n as u32),
            None => None,
        }
    }

    open spec fn kind() -> CodecKind {
        CodecKind::Number
    }

    open spec fn html_of(label: Seq<char>, v: u32, options: NumberAttributes<u32>, submit: Seq<char>) -> Seq<char> {
        number_html(
            label,
            decimal(options.min as int),
            decimal(options.max as int),
            decimal(options.step as int),
            decimal(v as int),
            submit,
        )
    }

    open spec fn default_options_spec() -> NumberAttributes<u32> {
        NumberAttributes { min: 0, max: 100, step: 1 }
    }

    proof fn lemma_text_round_trip(v: u32) {
        lemma_decimal_parse(v as int, false);
    }

    fn default_options() -> (r: NumberAttributes<u32>) {
        NumberAttributes { min: 0, max: 100, step: 1 }
    }

    fn codec_kind() -> (k: CodecKind) {
        CodecKind::Number
    }

    fn text(&self) -> (r: String) {
        unsigned_text(*self as u128)
    }

    fn as_html(shared: SharedOptions<u32>, options: NumberAttributes<u32>, submit_fn: String) -> (r: String) {
        render_number(
            shared.label.as_str(),
            unsigned_text(options.min as u128),
            unsigned_text(options.max as u128),
            unsigned_text(options.step as u128),
            unsigned_text(shared.default as u128),
            submit_fn.as_str(),
        )
    }

    fn parse(value: &str) -> (r: Result<u32, ParseError>) {
        match parse_unsigned(value, u32::MAX as u128) {
            Some(n) => Ok(n as u32),
            None => Err(ParseError { kind: CodecKind::Number }),
        }
    }
}

impl AsHtml for u64 {
    type Options = NumberAttributes<u64>;

    open spec fn text_of(v: u64) -> Seq<char> {
        decimal(v as int)
    }

    open spec fn parse_spec(text: Seq<char>) -> Option<u64> {
        match number_of_text(text, false, u64::MIN as int, u64::MAX as int) {
            Some(n) => Some(n as u64),
            None => None,
        }
    }

    open spec fn kind() -> CodecKind {
        CodecKind::Number
    }

    open spec fn html_of(label: Seq<char>, v: u64, options: NumberAttributes<u64>, submit: Seq<char>) -> Seq<char> {
        number_html(
            label,
            decimal(options.min as int),
            decimal(options.max as int),
            decimal(options.step as int),
            decimal(v as int),
            submit,
        )
    }

    open spec fn default_options_spec() -> NumberAttributes<u64> {
        NumberAttributes { min: 0, max: 100, step: 1 }
    }

    proof fn lemma_text_round_trip(v: u64) {
        lemma_decimal_parse(v as int, false);
    }

    fn default_options() -> (r: NumberAttributes<u64>) {
        NumberAttributes { min: 0, max: 100, step: 1 }
    }

    fn codec_kind() -> (k: CodecKind) {
        CodecKind::Number
    }

    fn text(&self) -> (r: String) {
        unsigned_text(*self as u128)
    }

    fn as_html(shared: SharedOptions<u64>, options: NumberAttributes<u64>, submit_fn: String) -> (r: String) {
        render_number(
            shared.label.as_str(),
            unsigned_text(options.min as u128),
            unsigned_text(options.max as u128),
            unsigned_text(options.step as u128),
            unsigned_text(shared.default as u128),
            submit_fn.as_str(),
        )
    }

    fn parse(value: &str) -> (r: Result<u64, ParseError>) {
        match parse_unsigned(value, u64::MAX as u128) {
            Some(n) => Ok(n as u64),
            None => Err(ParseError { kind: CodecKind::Number }),
        }
    }
}

impl AsHtml for u128 {
    type Options = NumberAttributes<u128>;

    open spec fn text_of(v: u128) -> Seq<char> {
        decimal(v as int)
    }

    open spec fn parse_spec(text: Seq<char>) -> Option<u128> {
        match number_of_text(text, false, u128::MIN as int, u128::MAX as int) {
            Some(n) => Some(n as u128),
            None => None,
        }
    }

    open spec fn kind() -> CodecKind {
        CodecKind::Number
    }

    open spec fn html_of(label: Seq<char>, v: u128, options: NumberAttributes<u128>, submit: Seq<char>) -> Seq<char> {
        number_html(
            label,
            decimal(options.min as int),
            decimal(options.max as int),
            decimal(options.step as int),
            decimal(v as int),
            submit,
        )
    }

    open spec fn default_options_spec() -> NumberAttributes<u128> {
        NumberAttributes { min: 0, max: 100, step: 1 }
    }

    proof fn lemma_text_round_trip(v: u128) {
        lemma_decimal_parse(v as int, false);
    }

    fn default_options() -> (r: NumberAttributes<u128>) {
        NumberAttributes { min: 0, max: 100, step: 1 }
    }

    fn codec_kind() -> (k: CodecKind) {
        CodecKind::Number
    }

    fn text(&self) -> (r: String) {
        unsigned_text(*self as u128)
    }

    fn as_html(shared: SharedOptions<u128>, options: NumberAttributes<u128>, submit_fn: String) -> (r: String) {
        render_number(
            shared.label.as_str(),
            unsigned_text(options.min as u128),
            unsigned_text(options.max as u128),
            unsigned_text(options.step as u128),
            unsigned_text(shared.default as u128),
            submit_fn.as_str(),
        )
    }

    fn parse(value: &str) -> (r: Result<u128, ParseError>) {
        match parse_unsigned(value, u128::MAX as u128) {
            Some(n) => Ok(n as u128),
            None => Err(ParseError { kind: CodecKind::Number }),
        }
    }
}

impl AsHtml for usize {
    type Options = NumberAttributes<usize>;

    open spec fn text_of(v: usize) -> Seq<char> {
        decimal(v as int)
    }

    open spec fn parse_spec(text: Seq<char>) -> Option<usize> {
        match number_of_text(text, false, usize::MIN as int, usize::MAX as int) {
            Some(n) => Some(n as usize),
            None => None,
        }
    }

    open spec fn kind() -> CodecKind {
        CodecKind::Number
    }

    open spec fn html_of(label: Seq<char>, v: usize, options: NumberAttributes<usize>, submit: Seq<char>) -> Seq<char> {
        number_html(
            label,
            decimal(options.min as int),
            decimal(options.max as int),
            decimal(options.step as int),
            decimal(v as int),
            submit,
        )
    }

    open spec fn default_options_spec() -> NumberAttributes<usize> {
        NumberAttributes { min: 0, max: 100, step: 1 }
    }

    proof fn lemma_text_round_trip(v: usize) {
        lemma_decimal_parse(v as int, false);
    }

    fn default_options() -> (r: NumberAttributes<usize>) {
        NumberAttributes { min: 0, max: 100, step: 1 }
    }

    fn codec_kind() -> (k: CodecKind) {
        CodecKind::Number
    }

    fn text(&self) -> (r: String) {
        unsigned_text(*self as u128)
    }

    fn as_html(shared: SharedOptions<usize>, options: NumberAttributes<usize>, submit_fn: String) -> (r: String) {
        render_number(
            shared.label.as_str(),
            unsigned_text(options.min as u128),
            unsigned_text(options.max as u128),
            unsigned_text(options.step as u128),
            unsigned_text(shared.default as u128),
            submit_fn.as_str(),
        )
    }

    fn parse(value: &str) -> (r: Result<usize, ParseError>) {
        match parse_unsigned(value, usize::MAX as u128) {
            Some(n) => Ok(n as usize),
            None => Err(ParseError { kind: CodecKind::Number }),
        }
    }
}

impl AsHtml for i8 {
    type Options = NumberAttributes<i8>;

    open spec fn text_of(v: i8) -> Seq<char> {
        decimal(v as int)
    }

    open spec fn parse_spec(text: Seq<char>) -> Option<i8> {
        match number_of_text(text, true, i8::MIN as int, i8::MAX as int) {
            Some(n) => Some(n as i8),
            None => None,
        }
    }

    open spec fn kind() -> CodecKind {
        CodecKind::Number
    }

    open spec fn html_of(label: Seq<char>, v: i8, options: NumberAttributes<i8>, submit: Seq<char>) -> Seq<char> {
        number_html(
            label,
            decimal(options.min as int),
            decimal(options.max as int),
            decimal(options.step as int),
            decimal(v as int),
            submit,
        )
    }

    open spec fn default_options_spec() -> NumberAttributes<i8> {
        NumberAttributes { min: i8::MIN, max: i8::MAX, step: 1 }
    }

    proof fn lemma_text_round_trip(v: i8) {
        lemma_decimal_parse(v as int, true);
    }

    fn default_options() -> (r: NumberAttributes<i8>) {
        NumberAttributes { min: i8::MIN, max: i8::MAX, step: 1 }
    }

    fn codec_kind() -> (k: CodecKind) {
        CodecKind::Number
    }

    fn text(&self) -> (r: String) {
        signed_text(*self as i128)
    }

    fn as_html(shared: SharedOptions<i8>, options: NumberAttributes<i8>, submit_fn: String) -> (r: String) {
        render_number(
            shared.label.as_str(),
            signed_text(options.min as i128),
            signed_text(options.max as i128),
            signed_text(options.step as i128),
            signed_text(shared.default as i128),
            submit_fn.as_str(),
        )
    }

    fn parse(value: &str) -> (r: Result<i8, ParseError>) {
        match parse_signed(value, i8::MIN as i128, i8::MAX as i128) {
            Some(n) => Ok(n as i8),
            None => Err(ParseError { kind: CodecKind::Number }),
        }
    }
}

impl AsHtml for i16 {
    type Options = NumberAttributes<i16>;

    open spec fn text_of(v: i16) -> Seq<char> {
        decimal(v as int)
    }

    open spec fn parse_spec(text: Seq<char>) -> Option<i16> {
        match number_of_text(text, true, i16::MIN as int, i16::MAX as int) {
            Some(n) => Some(n as i16),
            None => None,
        }
    }

    open spec fn kind() -> CodecKind {
        CodecKind::Number
    }

    open spec fn html_of(label: Seq<char>, v: i16, options: NumberAttributes<i16>, submit: Seq<char>) -> Seq<char> {
        number_html(
            label,
            decimal(options.min as int),
            decimal(options.max as int),
            decimal(options.step as int),
            decimal(v as int),
            submit,
        )
    }

    open spec fn default_options_spec() -> NumberAttributes<i16> {
        NumberAttributes { min: 0, max: 100, step: 1 }
    }

    proof fn lemma_text_round_trip(v: i16) {
        lemma_decimal_parse(v as int, true);
    }

    fn default_options() -> (r: NumberAttributes<i16>) {
        NumberAttributes { min: 0, max: 100, step: 1 }
    }

    fn codec_kind() -> (k: CodecKind) {
        CodecKind::Number
    }

    fn text(&self) -> (r: String) {
        signed_text(*self as i128)
    }

    fn as_html(shared: SharedOptions<i16>, options: NumberAttributes<i16>, submit_fn: String) -> (r: String) {
        render_number(
            shared.label.as_str(),
            signed_text(options.min as i128),
            signed_text(options.max as i128),
            signed_text(options.step as i128),
            signed_text(shared.default as i128),
            submit_fn.as_str(),
        )
    }

    fn parse(value: &str) -> (r: Result<i16, ParseError>) {
        match parse_signed(value, i16::MIN as i128, i16::MAX as i128) {
            Some(n) => Ok(n as i16),
            None => Err(ParseError { kind: CodecKind::Number }),
        }
    }
}

impl AsHtml for i32 {
    type Options = NumberAttributes<i32>;

    open spec fn text_of(v: i32) -> Seq<char> {
        decimal(v as int)
    }

    open spec fn parse_spec(text: Seq<char>) -> Option<i32> {
        match number_of_text(text, true, i32::MIN as int, i32::MAX as int) {
            Some(n) => Some(n as i32),
            None => None,
        }
    }

    open spec fn kind() -> CodecKind {
        CodecKind::Number
    }

    open spec fn html_of(label: Seq<char>, v: i32, options: NumberAttributes<i32>, submit: Seq<char>) -> Seq<char> {
        number_html(
            label,
            decimal(options.min as int),
            decimal(options.max as int),
            decimal(options.step as int),
            decimal(v as int),
            submit,
        )
    }

    open spec fn default_options_spec() -> NumberAttributes<i32> {
        NumberAttributes { min: 0, max: 100, step: 1 }
    }

    proof fn lemma_text_round_trip(v: i32) {
        lemma_decimal_parse(v as int, true);
    }

    fn default_options() -> (r: NumberAttributes<i32>) {
        NumberAttributes { min: 0, max: 100, step: 1 }
    }

    fn codec_kind() -> (k: CodecKind) {
        CodecKind::Number
    }

    fn text(&self) -> (r: String) {
        signed_text(*self as i128)
    }

    fn as_html(shared: SharedOptions<i32>, options: NumberAttributes<i32>, submit_fn: String) -> (r: String) {
        render_number(
            shared.label.as_str(),
            signed_text(options.min as i128),
            signed_text(options.max as i128),
            signed_text(options.step as i128),
            signed_text(shared.default as i128),
            submit_fn.as_str(),
        )
    }

    fn parse(value: &str) -> (r: Result<i32, ParseError>) {
        match parse_signed(value, i32::MIN as i128, i32::MAX as i128) {
            Some(n) => Ok(n as i32),
            None => Err(ParseError { kind: CodecKind::Number }),
        }
    }
}

impl AsHtml for i64 {
    type Options = NumberAttributes<i64>;

    open spec fn text_of(v: i64) -> Seq<char> {
        decimal(v as int)
    }

    open spec fn parse_spec(text: Seq<char>) -> Option<i64> {
        match number_of_text(text, true, i64::MIN as int, i64::MAX as int) {
            Some(n) => Some(n as i64),
            None => None,
        }
    }

    open spec fn kind() -> CodecKind {
        CodecKind::Number
    }

    open spec fn html_of(label: Seq<char>, v: i64, options: NumberAttributes<i64>, submit: Seq<char>) -> Seq<char> {
        number_html(
            label,
            decimal(options.min as int),
            decimal(options.max as int),
            decimal(options.step as int),
            decimal(v as int),
            submit,
        )
    }

    open spec fn default_options_spec() -> NumberAttributes<i64> {
        NumberAttributes { min: 0, max: 100, step: 1 }
    }

    proof fn lemma_text_round_trip(v: i64) {
        lemma_decimal_parse(v as int, true);
    }

    fn default_options() -> (r: NumberAttributes<i64>) {
        NumberAttributes { min: 0, max: 100, step: 1 }
    }

    fn codec_kind() -> (k: CodecKind) {
        CodecKind::Number
    }

    fn text(&self) -> (r: String) {
        signed_text(*self as i128)
    }

    fn as_html(shared: SharedOptions<i64>, options: NumberAttributes<i64>, submit_fn: String) -> (r: String) {
        render_number(
            shared.label.as_str(),
            signed_text(options.min as i128),
            signed_text(options.max as i128),
            signed_text(options.step as i128),
            signed_text(shared.default as i128),
            submit_fn.as_str(),
        )
    }

    fn parse(value: &str) -> (r: Result<i64, ParseError>) {
        match parse_signed(value, i64::MIN as i128, i64::MAX as i128) {
            Some(n) => Ok(n as i64),
            None => Err(ParseError { kind: CodecKind::Number }),
        }
    }
}

impl AsHtml for i128 {
    type Options = NumberAttributes<i128>;

    open spec fn text_of(v: i128) -> Seq<char> {
        decimal(v as int)
    }

    open spec fn parse_spec(text: Seq<char>) -> Option<i128> {
        match number_of_text(text, true, i128::MIN as int, i128::MAX as int) {
            Some(n) => Some(n as i128),
            None => None,
        }
    }

    open spec fn kind() -> CodecKind {
        CodecKind::Number
    }

    open spec fn html_of(label: Seq<char>, v: i128, options: NumberAttributes<i128>, submit: Seq<char>) -> Seq<char> {
        number_html(
            label,
            decimal(options.min as int),
            decimal(options.max as int),
            decimal(options.step as int),
            decimal(v as int),
            submit,
        )
    }

    open spec fn default_options_spec() -> NumberAttributes<i128> {
        NumberAttributes { min: 0, max: 100, step: 1 }
    }

    proof fn lemma_text_round_trip(v: i128) {
        lemma_decimal_parse(v as int, true);
    }

    fn default_options() -> (r: NumberAttributes<i128>) {
        NumberAttributes { min: 0, max: 100, step: 1 }
    }

    fn codec_kind() -> (k: CodecKind) {
        CodecKind::Number
    }

    fn text(&self) -> (r: String) {
        signed_text(*self as i128)
    }

    fn as_html(shared: SharedOptions<i128>, options: NumberAttributes<i128>, submit_fn: String) -> (r: String) {
        render_number(
            shared.label.as_str(),
            signed_text(options.min as i128),
            signed_text(options.max as i128),
            signed_text(options.step as i128),
            signed_text(shared.default as i128),
            submit_fn.as_str(),
        )
    }

    fn parse(value: &str) -> (r: Result<i128, ParseError>) {
        match parse_signed(value, i128::MIN as i128, i128::MAX as i128) {
            Some(n) => Ok(n as i128),
            None => Err(ParseError { kind: CodecKind::Number }),
        }
    }
}

impl AsHtml for isize {
    type Options = NumberAttributes<isize>;

    open spec fn text_of(v: isize) -> Seq<char> {
        decimal(v as int)
    }

    open spec fn parse_spec(text: Seq<char>) -> Option<isize> {
        match number_of_text(text, true, isize::MIN as int, isize::MAX as int) {
            Some(n) => Some(n as isize),
            None => None,
        }
    }

    open spec fn kind() -> CodecKind {
        CodecKind::Number
    }

    open spec fn html_of(label: Seq<char>, v: isize, options: NumberAttributes<isize>, submit: Seq<char>) -> Seq<char> {
        number_html(
            label,
            decimal(options.min as int),
            decimal(options.max as int),
            decimal(options.step as int),
            decimal(v as int),
            submit,
        )
    }

    open spec fn default_options_spec() -> NumberAttributes<isize> {
        NumberAttributes { min: 0, max: 100, step: 1 }
    }

    proof fn lemma_text_round_trip(v: isize) {
        lemma_decimal_parse(v as int, true);
    }

    fn default_options() -> (r: NumberAttributes<isize>) {
        NumberAttributes { min: 0, max: 100, step: 1 }
    }

    fn codec_kind() -> (k: CodecKind) {
        CodecKind::Number
    }

    fn text(&self) -> (r: String) {
        signed_text(*self as i128)
    }

    fn as_html(shared: SharedOptions<isize>, options: NumberAttributes<isize>, submit_fn: String) -> (r: String) {
        render_number(
            shared.label.as_str(),
            signed_text(options.min as i128),
            signed_text(options.max as i128),
            signed_text(options.step as i128),
            signed_text(shared.default as i128),
            submit_fn.as_str(),
        )
    }

    fn parse(value: &str) -> (r: Result<isize, ParseError>) {
        match parse_signed(value, isize::MIN as i128, isize::MAX as i128) {
            Some(n) => Ok(n as isize),
            None => Err(ParseError { kind: CodecKind::Number }),
        }
    }
}


/// Whether two strings hold the same characters.
pub fn same_text(a: &str, b: &str) -> (r: bool)
    ensures
        r == (a@ == b@),
{
    let n = a.unicode_len();
    if n != b.unicode_len() {
        return false;
    }
    let mut i: usize = 0;
    while i < n
        invariant
            n == a@.len(),
            n == b@.len(),
            i <= n,
            forall|j: int| 0 <= j < i ==> a@[j] == b@[j],
        decreases n - i,
    {
        if a.get_char(i) != b.get_char(i) {
            return false;
        }
        i = i + 1;
    }
    assert(a@ =~= b@);
    true
}

impl AsHtml for bool {
    type Options = ();

    open spec fn text_of(v: bool) -> Seq<char> {
        if v {
            "true"@
        } else {
            "false"@
        }
    }

    open spec fn parse_spec(text: Seq<char>) -> Option<bool> {
        if text == "true"@ {
            Some(true)
        } else if text == "false"@ {
            Some(false)
        } else {
            None
        }
    }

    open spec fn kind() -> CodecKind {
        CodecKind::Bool
    }

    open spec fn html_of(label: Seq<char>, v: bool, options: (), submit: Seq<char>) -> Seq<char> {
        input_row(
            label,
            if v {
                "type=\"checkbox\" checked"@
            } else {
                "type=\"checkbox\""@
            },
            "this.checked"@,
            submit,
        )
    }

    open spec fn default_options_spec() -> () {
        ()
    }

    proof fn lemma_text_round_trip(v: bool) {
        reveal_strlit("true");
        reveal_strlit("false");
        assert("false"@.len() != "true"@.len());
    }

    fn default_options() -> (r: ()) {
        ()
    }

    fn codec_kind() -> (k: CodecKind) {
        CodecKind::Bool
    }

    fn text(&self) -> (r: String) {
        if *self {
            String::from_str("true")
        } else {
            String::from_str("false")
        }
    }

    fn as_html(shared: SharedOptions<bool>, options: (), submit_fn: String) -> (r: String) {
        let attrs = if shared.default {
            "type=\"checkbox\" checked"
        } else {
            "type=\"checkbox\""
        };
        render_input_row(shared.label.as_str(), attrs, "this.checked", submit_fn.as_str())
    }

    fn parse(value: &str) -> (r: Result<bool, ParseError>) {
        if same_text(value, "true") {
            Ok(true)
        } else if same_text(value, "false") {
            Ok(false)
        } else {
            Err(ParseError { kind: CodecKind::Bool })
        }
    }
}

/// The attributes of a free-text control holding `value`.
pub open spec fn text_attrs(value: Seq<char>) -> Seq<char> {
    "type=\"text\" value=\""@ + value + "\""@
}

impl AsHtml for String {
    type Options = ();

    open spec fn text_of(v: Seq<char>) -> Seq<char> {
        v
    }

    open spec fn parse_spec(text: Seq<char>) -> Option<Seq<char>> {
        Some(text)
    }

    open spec fn kind() -> CodecKind {
        CodecKind::Text
    }

    open spec fn html_of(label: Seq<char>, v: Seq<char>, options: (), submit: Seq<char>) -> Seq<
        char,
    > {
        input_row(label, text_attrs(v), "this.value"@, submit)
    }

    open spec fn default_options_spec() -> () {
        ()
    }

    proof fn lemma_text_round_trip(v: Seq<char>) {
    }

    fn default_options() -> (r: ()) {
        ()
    }

    fn codec_kind() -> (k: CodecKind) {
        CodecKind::Text
    }

    fn text(&self) -> (r: String) {
        self.clone()
    }

    fn as_html(shared: SharedOptions<String>, options: (), submit_fn: String) -> (r: String) {
        let mut attrs = String::from_str("type=\"text\" value=\"");
        attrs.append(shared.default.as_str());
        attrs.append("\"");
        render_input_row(shared.label.as_str(), attrs.as_str(), "this.value", submit_fn.as_str())
    }

    fn parse(value: &str) -> (r: Result<String, ParseError>) {
        Ok(String::from_str(value))
    }
}

/// A colour as its red, green and blue bytes.
#[derive(Clone, Copy, Debug, PartialEq, Eq, Structural)]
pub struct Rgb {
    pub r: u8,
    pub g: u8,
    pub b: u8,
}

impl View for Rgb {
    type V = Rgb;

    open spec fn view(&self) -> Rgb {
        *self
    }
}

/// A colour as `#rrggbb` in lower-case hexadecimal.
pub open spec fn color_text(c: Rgb) -> Seq<char> {
    seq!['#'] + hex_pair(c.r) + hex_pair(c.g) + hex_pair(c.b)
}

/// A colour read from `#rrggbb`, with hexadecimal digits of either case.
pub open spec fn color_of_text(t: Seq<char>) -> Option<Rgb> {
    if t.len() == 7 && t[0] == '#' {
        match (byte_of_hex(t[1], t[2]), byte_of_hex(t[3], t[4]), byte_of_hex(t[5], t[6])) {
            (Some(r), Some(g), Some(b)) => Some(Rgb { r, g, b }),
            _ => None,
        }
    } else {
        None
    }
}

impl AsHtml for Rgb {
    type Options = ();

    open spec fn text_of(v: Rgb) -> Seq<char> {
        color_text(v)
    }

    open spec fn parse_spec(text: Seq<char>) -> Option<Rgb> {
        color_of_text(text)
    }

    open spec fn kind() -> CodecKind {
        CodecKind::Color
    }

    open spec fn html_of(label: Seq<char>, v: Rgb, options: (), submit: Seq<char>) -> Seq<char> {
        input_row(label, "type=\"color\" value=\""@ + color_text(v) + "\""@, "this.value"@, submit)
    }

    open spec fn default_options_spec() -> () {
        ()
    }

    proof fn lemma_text_round_trip(v: Rgb) {
        let t = color_text(v);
        lemma_hex_pair_parse(v.r);
        lemma_hex_pair_parse(v.g);
        lemma_hex_pair_parse(v.b);
        assert(t[1] == hex_pair(v.r)[0] && t[2] == hex_pair(v.r)[1]);
        assert(t[3] == hex_pair(v.g)[0] && t[4] == hex_pair(v.g)[1]);
        assert(t[5] == hex_pair(v.b)[0] && t[6] == hex_pair(v.b)[1]);
    }

    fn default_options() -> (r: ()) {
        ()
    }

    fn codec_kind() -> (k: CodecKind) {
        CodecKind::Color
    }

    fn text(&self) -> (r: String) {
        let mut s = String::from_str("#");
        proof {
            reveal_strlit("#");
        }
        push_hex_pair(&mut s, self.r);
        push_hex_pair(&mut s, self.g);
        push_hex_pair(&mut s, self.b);
        assert(s@ =~= color_text(*self));
        s
    }

    fn as_html(shared: SharedOptions<Rgb>, options: (), submit_fn: String) -> (r: String) {
        let mut attrs = String::from_str("type=\"color\" value=\"");
        attrs.append(shared.default.text().as_str());
        attrs.append("\"");
        render_input_row(shared.label.as_str(), attrs.as_str(), "this.value", submit_fn.as_str())
    }

    fn parse(value: &str) -> (r: Result<Rgb, ParseError>) {
        let err = Err(ParseError { kind: CodecKind::Color });
        if value.unicode_len() != 7 || value.get_char(0) != '#' {
            return err;
        }
        match (read_hex_pair(value, 1), read_hex_pair(value, 3), read_hex_pair(value, 5)) {
            (Some(r), Some(g), Some(b)) => Ok(Rgb { r, g, b }),
            _ => err,
        }
    }
}

} // verus!
