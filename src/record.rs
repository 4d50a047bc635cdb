//! A record of fields, each addressed by its dotted path, and the two things
//! done with it: routing an edit to one field and drawing the whole page.
use vstd::prelude::*;
use vstd::string::*;
use crate::codec::{
    footer_of, footer_text, header_of, header_text, same_text,
    AsHtml, CodecKind, NumberAttributes, ParseError, Rgb, SharedOptions,
};
use crate::{Inspectable, InspectableOptions};

verus! {

/// A closed set of named variants and the one that is chosen.
pub struct Choice {
    pub variants: Vec<String>,
    pub selected: usize,
}

impl Choice {
    pub open spec fn wf(&self) -> bool {
        self.selected < self.variants@.len()
    }

    pub open spec fn names(&self) -> Seq<Seq<char>> {
        self.variants@.map_values(|v: String| v@)
    }
}

/// The position of the variant named `text`, if one is.
pub open spec fn variant_index(names: Seq<Seq<char>>, text: Seq<char>) -> Option<int> {
    if exists|i: int| 0 <= i < names.len() && names[i] == text {
        Some(choose|i: int| 0 <= i < names.len() && names[i] == text)
    } else {
        None
    }
}

/// Finds the variant named `text`.
pub fn find_variant(c: &Choice, text: &str) -> (r: Option<usize>)
    ensures
        match r {
            Some(k) => k < c.variants@.len() && c.names()[k as int] == text@,
            None => variant_index(c.names(), text@) is None,
        },
{
    let n = c.variants.len();
    let mut i: usize = 0;
    while i < n
        invariant
            n == c.variants@.len(),
            i <= n,
            forall|j: int| 0 <= j < i ==> c.names()[j] != text@,
        decreases n - i,
    {
        if same_text(c.variants[i].as_str(), text) {
            return Some(i);
        }
        i = i + 1;
    }
    None
}

/// One radio button of a choice.
pub open spec fn radio(label: Seq<char>, name: Seq<char>, checked: bool, submit: Seq<char>) -> Seq<
    char,
> {
    "<label><input type=\"radio\" value=\""@ + name + "\" name=\""@ + label + (if checked {
        "\" checked"@
    } else {
        "\""@
    }) + " oninput=\""@ + submit + "(this.value)\"/>"@ + name + "</label>"@
}

/// The radio buttons of the first `k` variants.
pub open spec fn radios(
    label: Seq<char>,
    names: Seq<Seq<char>>,
    selected: int,
    submit: Seq<char>,
    k: int,
) -> Seq<char>
    decreases k,
{
    if k <= 0 {
        Seq::empty()
    } else {
        radios(label, names, selected, submit, k - 1) + radio(
            label,
            names[k - 1],
            k - 1 == selected,
            submit,
        )
    }
}

/// The markup of a choice: a radio group over the variant names.
pub open spec fn choice_html(label: Seq<char>, c: Choice, submit: Seq<char>) -> Seq<char> {
    "<div class=\"row\"><label class=\"cell text-right\">"@ + label + ":</label><div class=\"cell\">"@
        + radios(label, c.names(), c.selected as int, submit, c.names().len() as int)
        + "</div></div>"@
}

fn render_radio(label: &str, name: &str, checked: bool, submit: &str) -> (r: String)
    ensures
        r@ == radio(label@, name@, checked, submit@),
{
    let mut s = String::from_str("<label><input type=\"radio\" value=\"");
    s.append(name);
    s.append("\" name=\"");
    s.append(label);
    if checked {
        s.append("\" checked");
    } else {
        s.append("\"");
    }
    s.append(" oninput=\"");
    s.append(submit);
    s.append("(this.value)\"/>");
    s.append(name);
    s.append("</label>");
    s
}

/// Builds the markup of `choice_html`.
pub fn render_choice(label: &str, c: &Choice, submit: &str) -> (r: String)
    ensures
        r@ == choice_html(label@, *c, submit@),
{
    let mut s = String::from_str("<div class=\"row\"><label class=\"cell text-right\">");
    s.append(label);
    s.append(":</label><div class=\"cell\">");
    let ghost start = s@;
    let n = c.variants.len();
    let mut i: usize = 0;
    while i < n
        invariant
            n == c.variants@.len(),
            n == c.names().len(),
            i <= n,
            s@ == start + radios(label@, c.names(), c.selected as int, submit@, i as int),
        decreases n - i,
    {
        let r = render_radio(label, c.variants[i].as_str(), i == c.selected, submit);
        s.append(r.as_str());
        assert(s@ =~= start + radios(label@, c.names(), c.selected as int, submit@, i + 1));
        i = i + 1;
    }
    s.append("</div></div>");
    s
}

/// The value of a field.
pub enum Leaf {
    U8(u8),
    U16(u16),
    U32(u32),
    U64(u64),
    U128(u128),
    Usize(usize),
    I8(i8),
    I16(i16),
    I32(i32),
    I64(i64),
    I128(i128),
    Isize(isize),
    Bool(bool),
    Text(String),
    Color(Rgb),
    Choice(Choice),
}

/// The codec family of a value.
pub open spec fn leaf_kind(l: Leaf) -> CodecKind {
    match l {
        Leaf::U8(_) => <u8 as AsHtml>::kind(),
        Leaf::U16(_) => <u16 as AsHtml>::kind(),
        Leaf::U32(_) => <u32 as AsHtml>::kind(),
        Leaf::U64(_) => <u64 as AsHtml>::kind(),
        Leaf::U128(_) => <u128 as AsHtml>::kind(),
        Leaf::Usize(_) => <usize as AsHtml>::kind(),
        Leaf::I8(_) => <i8 as AsHtml>::kind(),
        Leaf::I16(_) => <i16 as AsHtml>::kind(),
        Leaf::I32(_) => <i32 as AsHtml>::kind(),
        Leaf::I64(_) => <i64 as AsHtml>::kind(),
        Leaf::I128(_) => <i128 as AsHtml>::kind(),
        Leaf::Isize(_) => <isize as AsHtml>::kind(),
        Leaf::Bool(_) => <bool as AsHtml>::kind(),
        Leaf::Text(_) => <String as AsHtml>::kind(),
        Leaf::Color(_) => <Rgb as AsHtml>::kind(),
        Leaf::Choice(_) => CodecKind::Choice,
    }
}

/// A value is well formed when a choice names one of its variants.
pub open spec fn leaf_wf(l: Leaf) -> bool {
    match l {
        Leaf::Choice(c) => c.wf(),
        _ => true,
    }
}

/// Advisory attributes given to one field; `Default` leaves the codec's own.
#[derive(Debug, PartialEq, Eq, Structural)]
pub enum FieldOptions {
    Default,
    U8(NumberAttributes<u8>),
    U16(NumberAttributes<u16>),
    U32(NumberAttributes<u32>),
    U64(NumberAttributes<u64>),
    U128(NumberAttributes<u128>),
    Usize(NumberAttributes<usize>),
    I8(NumberAttributes<i8>),
    I16(NumberAttributes<i16>),
    I32(NumberAttributes<i32>),
    I64(NumberAttributes<i64>),
    I128(NumberAttributes<i128>),
    Isize(NumberAttributes<isize>),
}

/// The options fit the value: they are the default, or numeric attributes of
/// the value's own type.
pub open spec fn options_fit(l: Leaf, o: FieldOptions) -> bool {
    match o {
        FieldOptions::Default => true,
        FieldOptions::U8(_) => l is U8,
        FieldOptions::U16(_) => l is U16,
        FieldOptions::U32(_) => l is U32,
        FieldOptions::U64(_) => l is U64,
        FieldOptions::U128(_) => l is U128,
        FieldOptions::Usize(_) => l is Usize,
        FieldOptions::I8(_) => l is I8,
        FieldOptions::I16(_) => l is I16,
        FieldOptions::I32(_) => l is I32,
        FieldOptions::I64(_) => l is I64,
        FieldOptions::I128(_) => l is I128,
        FieldOptions::Isize(_) => l is Isize,
    }
}

fn options_fit_exec(l: &Leaf, o: &FieldOptions) -> (r: bool)
    ensures
        r == options_fit(*l, *o),
{
    match o {
        FieldOptions::Default => true,
        FieldOptions::U8(_) => matches!(l, Leaf::U8(_)),
        FieldOptions::U16(_) => matches!(l, Leaf::U16(_)),
        FieldOptions::U32(_) => matches!(l, Leaf::U32(_)),
        FieldOptions::U64(_) => matches!(l, Leaf::U64(_)),
        FieldOptions::U128(_) => matches!(l, Leaf::U128(_)),
        FieldOptions::Usize(_) => matches!(l, Leaf::Usize(_)),
        FieldOptions::I8(_) => matches!(l, Leaf::I8(_)),
        FieldOptions::I16(_) => matches!(l, Leaf::I16(_)),
        FieldOptions::I32(_) => matches!(l, Leaf::I32(_)),
        FieldOptions::I64(_) => matches!(l, Leaf::I64(_)),
        FieldOptions::I128(_) => matches!(l, Leaf::I128(_)),
        FieldOptions::Isize(_) => matches!(l, Leaf::Isize(_)),
    }
}

/// The markup of a value under this label and change callback, with the
/// field's own numeric attributes where it has them and the codec's default
/// ones otherwise.
pub open spec fn leaf_html(label: Seq<char>, l: Leaf, o: FieldOptions, submit: Seq<char>) -> Seq<char> {
    match l {
        Leaf::U8(x) => <u8 as AsHtml>::html_of(
            label,
            x@,
            match o {
                FieldOptions::U8(a) => a,
                _ => <u8 as AsHtml>::default_options_spec(),
            },
            submit,
        ),
        Leaf::U16(x) => <u16 as AsHtml>::html_of(
            label,
            x@,
            match o {
                FieldOptions::U16(a) => a,
                _ => <u16 as AsHtml>::default_options_spec(),
            },
            submit,
        ),
        Leaf::U32(x) => <u32 as AsHtml>::html_of(
            label,
            x@,
            match o {
                FieldOptions::U32(a) => a,
                _ => <u32 as AsHtml>::default_options_spec(),
            },
            submit,
        ),
        Leaf::U64(x) => <u64 as AsHtml>::html_of(
            label,
            x@,
            match o {
                FieldOptions::U64(a) => a,
                _ => <u64 as AsHtml>::default_options_spec(),
            },
            submit,
        ),
        Leaf::U128(x) => <u128 as AsHtml>::html_of(
            label,
            x@,
            match o {
                FieldOptions::U128(a) => a,
                _ => <u128 as AsHtml>::default_options_spec(),
            },
            submit,
        ),
        Leaf::Usize(x) => <usize as AsHtml>::html_of(
            label,
            x@,
            match o {
                FieldOptions::Usize(a) => a,
                _ => <usize as AsHtml>::default_options_spec(),
            },
            submit,
        ),
        Leaf::I8(x) => <i8 as AsHtml>::html_of(
            label,
            x@,
            match o {
                FieldOptions::I8(a) => a,
                _ => <i8 as AsHtml>::default_options_spec(),
            },
            submit,
        ),
        Leaf::I16(x) => <i16 as AsHtml>::html_of(
            label,
            x@,
            match o {
                FieldOptions::I16(a) => a,
                _ => <i16 as AsHtml>::default_options_spec(),
            },
            submit,
        ),
        Leaf::I32(x) => <i32 as AsHtml>::html_of(
            label,
            x@,
            match o {
                FieldOptions::I32(a) => a,
                _ => <i32 as AsHtml>::default_options_spec(),
            },
            submit,
        ),
        Leaf::I64(x) => <i64 as AsHtml>::html_of(
            label,
            x@,
            match o {
                FieldOptions::I64(a) => a,
                _ => <i64 as AsHtml>::default_options_spec(),
            },
            submit,
        ),
        Leaf::I128(x) => <i128 as AsHtml>::html_of(
            label,
            x@,
            match o {
                FieldOptions::I128(a) => a,
                _ => <i128 as AsHtml>::default_options_spec(),
            },
            submit,
        ),
        Leaf::Isize(x) => <isize as AsHtml>::html_of(
            label,
            x@,
            match o {
                FieldOptions::Isize(a) => a,
                _ => <isize as AsHtml>::default_options_spec(),
            },
            submit,
        ),
        Leaf::Bool(x) => <bool as AsHtml>::html_of(label, x@, <bool as AsHtml>::default_options_spec(), submit),
        Leaf::Text(x) => <String as AsHtml>::html_of(label, x@, <String as AsHtml>::default_options_spec(), submit),
        Leaf::Color(x) => <Rgb as AsHtml>::html_of(label, x@, <Rgb as AsHtml>::default_options_spec(), submit),
        Leaf::Choice(c) => choice_html(label, c, submit),
    }
}

/// The text of a value as its control sends it.
pub open spec fn leaf_text(l: Leaf) -> Seq<char> {
    match l {
        Leaf::U8(x) => <u8 as AsHtml>::text_of(x@),
        Leaf::U16(x) => <u16 as AsHtml>::text_of(x@),
        Leaf::U32(x) => <u32 as AsHtml>::text_of(x@),
        Leaf::U64(x) => <u64 as AsHtml>::text_of(x@),
        Leaf::U128(x) => <u128 as AsHtml>::text_of(x@),
        Leaf::Usize(x) => <usize as AsHtml>::text_of(x@),
        Leaf::I8(x) => <i8 as AsHtml>::text_of(x@),
        Leaf::I16(x) => <i16 as AsHtml>::text_of(x@),
        Leaf::I32(x) => <i32 as AsHtml>::text_of(x@),
        Leaf::I64(x) => <i64 as AsHtml>::text_of(x@),
        Leaf::I128(x) => <i128 as AsHtml>::text_of(x@),
        Leaf::Isize(x) => <isize as AsHtml>::text_of(x@),
        Leaf::Bool(x) => <bool as AsHtml>::text_of(x@),
        Leaf::Text(x) => <String as AsHtml>::text_of(x@),
        Leaf::Color(x) => <Rgb as AsHtml>::text_of(x@),
        Leaf::Choice(c) => c.names()[c.selected as int],
    }
}

/// Whether `text` stands for a value of the same type as `l`.
pub open spec fn leaf_accepts(l: Leaf, text: Seq<char>) -> bool {
    match l {
        Leaf::U8(_) => <u8 as AsHtml>::parse_spec(text) is Some,
        Leaf::U16(_) => <u16 as AsHtml>::parse_spec(text) is Some,
        Leaf::U32(_) => <u32 as AsHtml>::parse_spec(text) is Some,
        Leaf::U64(_) => <u64 as AsHtml>::parse_spec(text) is Some,
        Leaf::U128(_) => <u128 as AsHtml>::parse_spec(text) is Some,
        Leaf::Usize(_) => <usize as AsHtml>::parse_spec(text) is Some,
        Leaf::I8(_) => <i8 as AsHtml>::parse_spec(text) is Some,
        Leaf::I16(_) => <i16 as AsHtml>::parse_spec(text) is Some,
        Leaf::I32(_) => <i32 as AsHtml>::parse_spec(text) is Some,
        Leaf::I64(_) => <i64 as AsHtml>::parse_spec(text) is Some,
        Leaf::I128(_) => <i128 as AsHtml>::parse_spec(text) is Some,
        Leaf::Isize(_) => <isize as AsHtml>::parse_spec(text) is Some,
        Leaf::Bool(_) => <bool as AsHtml>::parse_spec(text) is Some,
        Leaf::Text(_) => <String as AsHtml>::parse_spec(text) is Some,
        Leaf::Color(_) => <Rgb as AsHtml>::parse_spec(text) is Some,
        Leaf::Choice(c) => variant_index(c.names(), text) is Some,
    }
}

/// `n` is the value that `text` stands for, of the same type as `l`; a choice
/// keeps its variants.
pub open spec fn leaf_parsed(l: Leaf, text: Seq<char>, n: Leaf) -> bool {
    match l {
        Leaf::U8(_) => n is U8 && <u8 as AsHtml>::parse_spec(text) == Some(n->U8_0@),
        Leaf::U16(_) => n is U16 && <u16 as AsHtml>::parse_spec(text) == Some(n->U16_0@),
        Leaf::U32(_) => n is U32 && <u32 as AsHtml>::parse_spec(text) == Some(n->U32_0@),
        Leaf::U64(_) => n is U64 && <u64 as AsHtml>::parse_spec(text) == Some(n->U64_0@),
        Leaf::U128(_) => n is U128 && <u128 as AsHtml>::parse_spec(text) == Some(n->U128_0@),
        Leaf::Usize(_) => n is Usize && <usize as AsHtml>::parse_spec(text) == Some(n->Usize_0@),
        Leaf::I8(_) => n is I8 && <i8 as AsHtml>::parse_spec(text) == Some(n->I8_0@),
        Leaf::I16(_) => n is I16 && <i16 as AsHtml>::parse_spec(text) == Some(n->I16_0@),
        Leaf::I32(_) => n is I32 && <i32 as AsHtml>::parse_spec(text) == Some(n->I32_0@),
        Leaf::I64(_) => n is I64 && <i64 as AsHtml>::parse_spec(text) == Some(n->I64_0@),
        Leaf::I128(_) => n is I128 && <i128 as AsHtml>::parse_spec(text) == Some(n->I128_0@),
        Leaf::Isize(_) => n is Isize && <isize as AsHtml>::parse_spec(text) == Some(n->Isize_0@),
        Leaf::Bool(_) => n is Bool && <bool as AsHtml>::parse_spec(text) == Some(n->Bool_0@),
        Leaf::Text(_) => n is Text && <String as AsHtml>::parse_spec(text) == Some(n->Text_0@),
        Leaf::Color(_) => n is Color && <Rgb as AsHtml>::parse_spec(text) == Some(n->Color_0@),
        Leaf::Choice(c) => {
            &&& n is Choice
            &&& n->Choice_0.variants == c.variants
            &&& n->Choice_0.selected < c.variants@.len()
            &&& c.names()[n->Choice_0.selected as int] == text
        },
    }
}

/// The codec family of a value.
pub fn kind_of(l: &Leaf) -> (k: CodecKind)
    ensures
        k == leaf_kind(*l),
{
    match l {
        Leaf::U8(_) => <u8 as AsHtml>::codec_kind(),
        Leaf::U16(_) => <u16 as AsHtml>::codec_kind(),
        Leaf::U32(_) => <u32 as AsHtml>::codec_kind(),
        Leaf::U64(_) => <u64 as AsHtml>::codec_kind(),
        Leaf::U128(_) => <u128 as AsHtml>::codec_kind(),
        Leaf::Usize(_) => <usize as AsHtml>::codec_kind(),
        Leaf::I8(_) => <i8 as AsHtml>::codec_kind(),
        Leaf::I16(_) => <i16 as AsHtml>::codec_kind(),
        Leaf::I32(_) => <i32 as AsHtml>::codec_kind(),
        Leaf::I64(_) => <i64 as AsHtml>::codec_kind(),
        Leaf::I128(_) => <i128 as AsHtml>::codec_kind(),
        Leaf::Isize(_) => <isize as AsHtml>::codec_kind(),
        Leaf::Bool(_) => <bool as AsHtml>::codec_kind(),
        Leaf::Text(_) => <String as AsHtml>::codec_kind(),
        Leaf::Color(_) => <Rgb as AsHtml>::codec_kind(),
        Leaf::Choice(_) => CodecKind::Choice,
    }
}

/// Draws a value with the field's numeric attributes, or the codec's
/// default ones where the field has none.
pub fn render_leaf(label: &str, l: &Leaf, o: &FieldOptions, submit: &str) -> (r: String)
    requires
        leaf_wf(*l),
    ensures
        r@ == leaf_html(label@, *l, *o, submit@),
{
    match l {
        Leaf::U8(x) => <u8 as AsHtml>::as_html(
            SharedOptions { label: String::from_str(label), default: *x },
            match o {
                FieldOptions::U8(a) => NumberAttributes { min: a.min, max: a.max, step: a.step },
                _ => <u8 as AsHtml>::default_options(),
            },
            String::from_str(submit),
        ),
        Leaf::U16(x) => <u16 as AsHtml>::as_html(
            SharedOptions { label: String::from_str(label), default: *x },
            match o {
                FieldOptions::U16(a) => NumberAttributes { min: a.min, max: a.max, step: a.step },
                _ => <u16 as AsHtml>::default_options(),
            },
            String::from_str(submit),
        ),
        Leaf::U32(x) => <u32 as AsHtml>::as_html(
            SharedOptions { label: String::from_str(label), default: *x },
            match o {
                FieldOptions::U32(a) => NumberAttributes { min: a.min, max: a.max, step: a.step },
                _ => <u32 as AsHtml>::default_options(),
            },
            String::from_str(submit),
        ),
        Leaf::U64(x) => <u64 as AsHtml>::as_html(
            SharedOptions { label: String::from_str(label), default: *x },
            match o {
                FieldOptions::U64(a) => NumberAttributes { min: a.min, max: a.max, step: a.step },
                _ => <u64 as AsHtml>::default_options(),
            },
            String::from_str(submit),
        ),
        Leaf::U128(x) => <u128 as AsHtml>::as_html(
            SharedOptions { label: String::from_str(label), default: *x },
            match o {
                FieldOptions::U128(a) => NumberAttributes { min: a.min, max: a.max, step: a.step },
                _ => <u128 as AsHtml>::default_options(),
            },
            String::from_str(submit),
        ),
        Leaf::Usize(x) => <usize as AsHtml>::as_html(
            SharedOptions { label: String::from_str(label), default: *x },
            match o {
                FieldOptions::Usize(a) => NumberAttributes { min: a.min, max: a.max, step: a.step },
                _ => <usize as AsHtml>::default_options(),
            },
            String::from_str(submit),
        ),
        Leaf::I8(x) => <i8 as AsHtml>::as_html(
            SharedOptions { label: String::from_str(label), default: *x },
            match o {
                FieldOptions::I8(a) => NumberAttributes { min: a.min, max: a.max, step: a.step },
                _ => <i8 as AsHtml>::default_options(),
            },
            String::from_str(submit),
        ),
        Leaf::I16(x) => <i16 as AsHtml>::as_html(
            SharedOptions { label: String::from_str(label), default: *x },
            match o {
                FieldOptions::I16(a) => NumberAttributes { min: a.min, max: a.max, step: a.step },
                _ => <i16 as AsHtml>::default_options(),
            },
            String::from_str(submit),
        ),
        Leaf::I32(x) => <i32 as AsHtml>::as_html(
            SharedOptions { label: String::from_str(label), default: *x },
            match o {
                FieldOptions::I32(a) => NumberAttributes { min: a.min, max: a.max, step: a.step },
                _ => <i32 as AsHtml>::default_options(),
            },
            String::from_str(submit),
        ),
        Leaf::I64(x) => <i64 as AsHtml>::as_html(
            SharedOptions { label: String::from_str(label), default: *x },
            match o {
                FieldOptions::I64(a) => NumberAttributes { min: a.min, max: a.max, step: a.step },
                _ => <i64 as AsHtml>::default_options(),
            },
            String::from_str(submit),
        ),
        Leaf::I128(x) => <i128 as AsHtml>::as_html(
            SharedOptions { label: String::from_str(label), default: *x },
            match o {
                FieldOptions::I128(a) => NumberAttributes { min: a.min, max: a.max, step: a.step },
                _ => <i128 as AsHtml>::default_options(),
            },
            String::from_str(submit),
        ),
        Leaf::Isize(x) => <isize as AsHtml>::as_html(
            SharedOptions { label: String::from_str(label), default: *x },
            match o {
                FieldOptions::Isize(a) => NumberAttributes { min: a.min, max: a.max, step: a.step },
                _ => <isize as AsHtml>::default_options(),
            },
            String::from_str(submit),
        ),
        Leaf::Bool(x) => <bool as AsHtml>::as_html(
            SharedOptions { label: String::from_str(label), default: *x },
            <bool as AsHtml>::default_options(),
            String::from_str(submit),
        ),
        Leaf::Text(x) => <String as AsHtml>::as_html(
            SharedOptions { label: String::from_str(label), default: x.clone() },
            <String as AsHtml>::default_options(),
            String::from_str(submit),
        ),
        Leaf::Color(x) => <Rgb as AsHtml>::as_html(
            SharedOptions { label: String::from_str(label), default: *x },
            <Rgb as AsHtml>::default_options(),
            String::from_str(submit),
        ),
        Leaf::Choice(c) => render_choice(label, c, submit),
    }
}

/// Sets a value from `text`. On an error the value comes back as it was.
pub fn update_leaf(l: Leaf, text: &str) -> (r: (Leaf, Result<(), ParseError>))
    requires
        leaf_wf(l),
    ensures
        leaf_wf(r.0),
        leaf_accepts(l, text@) ==> r.1 is Ok && leaf_parsed(l, text@, r.0),
        !leaf_accepts(l, text@) ==> r.1 == Err::<(), ParseError>(ParseError { kind: leaf_kind(l) })
            && r.0 == l,
{
    match l {
        Leaf::U8(x) => match <u8 as AsHtml>::parse(text) {
            Ok(n) => (Leaf::U8(n), Ok(())),
            Err(e) => (Leaf::U8(x), Err(e)),
        },
        Leaf::U16(x) => match <u16 as AsHtml>::parse(text) {
            Ok(n) => (Leaf::U16(n), Ok(())),
            Err(e) => (Leaf::U16(x), Err(e)),
        },
        Leaf::U32(x) => match <u32 as AsHtml>::parse(text) {
            Ok(n) => (Leaf::U32(n), Ok(())),
            Err(e) => (Leaf::U32(x), Err(e)),
        },
        Leaf::U64(x) => match <u64 as AsHtml>::parse(text) {
            Ok(n) => (Leaf::U64(n), Ok(())),
            Err(e) => (Leaf::U64(x), Err(e)),
        },
        Leaf::U128(x) => match <u128 as AsHtml>::parse(text) {
            Ok(n) => (Leaf::U128(n), Ok(())),
            Err(e) => (Leaf::U128(x), Err(e)),
        },
        Leaf::Usize(x) => match <usize as AsHtml>::parse(text) {
            Ok(n) => (Leaf::Usize(n), Ok(())),
            Err(e) => (Leaf::Usize(x), Err(e)),
        },
        Leaf::I8(x) => match <i8 as AsHtml>::parse(text) {
            Ok(n) => (Leaf::I8(n), Ok(())),
            Err(e) => (Leaf::I8(x), Err(e)),
        },
        Leaf::I16(x) => match <i16 as AsHtml>::parse(text) {
            Ok(n) => (Leaf::I16(n), Ok(())),
            Err(e) => (Leaf::I16(x), Err(e)),
        },
        Leaf::I32(x) => match <i32 as AsHtml>::parse(text) {
            Ok(n) => (Leaf::I32(n), Ok(())),
            Err(e) => (Leaf::I32(x), Err(e)),
        },
        Leaf::I64(x) => match <i64 as AsHtml>::parse(text) {
            Ok(n) => (Leaf::I64(n), Ok(())),
            Err(e) => (Leaf::I64(x), Err(e)),
        },
        Leaf::I128(x) => match <i128 as AsHtml>::parse(text) {
            Ok(n) => (Leaf::I128(n), Ok(())),
            Err(e) => (Leaf::I128(x), Err(e)),
        },
        Leaf::Isize(x) => match <isize as AsHtml>::parse(text) {
            Ok(n) => (Leaf::Isize(n), Ok(())),
            Err(e) => (Leaf::Isize(x), Err(e)),
        },
        Leaf::Bool(x) => match <bool as AsHtml>::parse(text) {
            Ok(n) => (Leaf::Bool(n), Ok(())),
            Err(e) => (Leaf::Bool(x), Err(e)),
        },
        Leaf::Text(x) => match <String as AsHtml>::parse(text) {
            Ok(n) => (Leaf::Text(n), Ok(())),
            Err(e) => (Leaf::Text(x), Err(e)),
        },
        Leaf::Color(x) => match <Rgb as AsHtml>::parse(text) {
            Ok(n) => (Leaf::Color(n), Ok(())),
            Err(e) => (Leaf::Color(x), Err(e)),
        },
        Leaf::Choice(c) => match find_variant(&c, text) {
            Some(k) => (Leaf::Choice(Choice { variants: c.variants, selected: k }), Ok(())),
            None => (Leaf::Choice(c), Err(ParseError { kind: CodecKind::Choice })),
        },
    }
}

/// Every value, of every built-in type and of a choice, accepts the text
/// its own control sends, and that text stands for the value itself.
pub proof fn lemma_leaf_text_round_trip(l: Leaf)
    requires
        leaf_wf(l),
    ensures
        leaf_accepts(l, leaf_text(l)),
        leaf_parsed(l, leaf_text(l), l),
{
    match l {
        Leaf::U8(x) => <u8 as AsHtml>::lemma_text_round_trip(x@),
        Leaf::U16(x) => <u16 as AsHtml>::lemma_text_round_trip(x@),
        Leaf::U32(x) => <u32 as AsHtml>::lemma_text_round_trip(x@),
        Leaf::U64(x) => <u64 as AsHtml>::lemma_text_round_trip(x@),
        Leaf::U128(x) => <u128 as AsHtml>::lemma_text_round_trip(x@),
        Leaf::Usize(x) => <usize as AsHtml>::lemma_text_round_trip(x@),
        Leaf::I8(x) => <i8 as AsHtml>::lemma_text_round_trip(x@),
        Leaf::I16(x) => <i16 as AsHtml>::lemma_text_round_trip(x@),
        Leaf::I32(x) => <i32 as AsHtml>::lemma_text_round_trip(x@),
        Leaf::I64(x) => <i64 as AsHtml>::lemma_text_round_trip(x@),
        Leaf::I128(x) => <i128 as AsHtml>::lemma_text_round_trip(x@),
        Leaf::Isize(x) => <isize as AsHtml>::lemma_text_round_trip(x@),
        Leaf::Bool(x) => <bool as AsHtml>::lemma_text_round_trip(x@),
        Leaf::Text(x) => <String as AsHtml>::lemma_text_round_trip(x@),
        Leaf::Color(x) => <Rgb as AsHtml>::lemma_text_round_trip(x@),
        Leaf::Choice(c) => {
            assert(c.names()[c.selected as int] == leaf_text(l));
        },
    }
}

/// One field of a record: its dotted path from the record's root, the label
/// it is shown under, the labels of the nested records that begin with it
/// (outermost first), its advisory options, and its value.
pub struct Field {
    pub path: String,
    pub label: String,
    pub headings: Vec<String>,
    pub options: FieldOptions,
    pub value: Leaf,
}

/// A field name: not empty, and free of the path separator `.` and of the
/// `:` that ends a path in an edit.
pub open spec fn valid_name(s: Seq<char>) -> bool {
    &&& s.len() > 0
    &&& forall|i: int| 0 <= i < s.len() ==> s[i] != '.' && s[i] != ':'
}

/// The path of a field of a record nested under `name`.
pub open spec fn nested_path(name: Seq<char>, path: Seq<char>) -> Seq<char> {
    name + seq!['.'] + path
}

/// Why a field could not be added to a record.
#[derive(Clone, Copy, Debug, PartialEq, Eq, Structural)]
pub enum FieldError {
    /// The name is empty or holds `.` or `:`.
    InvalidName,
    /// A field of the record already has that path.
    DuplicatePath,
    /// A choice does not name one of its variants.
    InvalidValue,
    /// The options are numeric attributes of another type than the value's.
    InvalidOptions,
}

/// Why an edit was not applied.
#[derive(Debug)]
pub enum UpdateError {
    /// No field of the record has this path.
    UnknownField(String),
    /// The text does not stand for a value of the field's type.
    Invalid(ParseError),
}

/// A record whose fields are laid out flat, in declaration order, each under
/// its own path; the fields of nested records carry dotted paths.
pub struct Record {
    label: String,
    options: InspectableOptions,
    fields: Vec<Field>,
}

impl Record {
    pub closed spec fn label_view(&self) -> Seq<char> {
        self.label@
    }

    pub closed spec fn options_view(&self) -> InspectableOptions {
        self.options
    }

    pub closed spec fn entries(&self) -> Seq<Field> {
        self.fields@
    }

    /// Every value is well formed and no two fields share a path.
    pub open spec fn wf(&self) -> bool {
        &&& forall|i: int| 0 <= i < self.entries().len() ==> leaf_wf(#[trigger] self.entries()[i].value)
        &&& forall|i: int, j: int|
            0 <= i < self.entries().len() && 0 <= j < self.entries().len() && i != j
                ==> #[trigger] self.entries()[i].path@ != #[trigger] self.entries()[j].path@
    }

    /// Label, options and fields are the same in both.
    pub open spec fn same_as(&self, other: Record) -> bool {
        &&& self.label_view() == other.label_view()
        &&& self.options_view() == other.options_view()
        &&& self.entries() == other.entries()
    }
}

/// The position of the field with this path, if there is one.
pub open spec fn path_index(r: Record, path: Seq<char>) -> Option<int> {
    if exists|i: int| 0 <= i < r.entries().len() && r.entries()[i].path@ == path {
        Some(choose|i: int| 0 <= i < r.entries().len() && r.entries()[i].path@ == path)
    } else {
        None
    }
}

/// `new` is `old` with the value of field `i` set from `text`, and nothing
/// else changed.
pub open spec fn updated_at(old: Record, new: Record, i: int, text: Seq<char>) -> bool {
    &&& new.label_view() == old.label_view()
    &&& new.options_view() == old.options_view()
    &&& new.entries().len() == old.entries().len()
    &&& forall|j: int|
        0 <= j < old.entries().len() && j != i ==> #[trigger] new.entries()[j] == old.entries()[j]
    &&& new.entries()[i].path == old.entries()[i].path
    &&& new.entries()[i].label == old.entries()[i].label
    &&& new.entries()[i].headings == old.entries()[i].headings
    &&& new.entries()[i].options == old.entries()[i].options
    &&& leaf_parsed(old.entries()[i].value, text, new.entries()[i].value)
}

/// The outcome of routing the edit `path:text` to `old`: the field with that
/// path takes the value the text stands for; an unknown path or a text of
/// the wrong form is reported and leaves the record as it was.
pub open spec fn routed(
    old: Record,
    path: Seq<char>,
    text: Seq<char>,
    new: Record,
    r: Result<(), UpdateError>,
) -> bool {
    match path_index(old, path) {
        None => {
            &&& r matches Err(UpdateError::UnknownField(p)) && p@ == path
            &&& new.same_as(old)
        },
        Some(i) => if leaf_accepts(old.entries()[i].value, text) {
            r is Ok && updated_at(old, new, i, text)
        } else {
            &&& r == Err::<(), UpdateError>(
                UpdateError::Invalid(ParseError { kind: leaf_kind(old.entries()[i].value) }),
            )
            &&& new.same_as(old)
        },
    }
}

/// The outcome of adding the field `name` with this value and these options
/// to `old`: an invalid name, a path already taken, a choice that names no
/// variant, or options of another type each give their error and change
/// nothing; otherwise the field comes last, with no headings.
pub open spec fn field_added(
    old: Record,
    new: Record,
    name: Seq<char>,
    value: Leaf,
    options: FieldOptions,
    r: Result<(), FieldError>,
) -> bool {
    if !valid_name(name) {
        r == Err::<(), FieldError>(FieldError::InvalidName) && new.same_as(old)
    } else if path_index(old, name) is Some {
        r == Err::<(), FieldError>(FieldError::DuplicatePath) && new.same_as(old)
    } else if !leaf_wf(value) {
        r == Err::<(), FieldError>(FieldError::InvalidValue) && new.same_as(old)
    } else if !options_fit(value, options) {
        r == Err::<(), FieldError>(FieldError::InvalidOptions) && new.same_as(old)
    } else {
        &&& r is Ok
        &&& new.label_view() == old.label_view()
        &&& new.options_view() == old.options_view()
        &&& new.entries().drop_last() == old.entries()
        &&& new.entries().len() == old.entries().len() + 1
        &&& new.entries().last().path@ == name
        &&& new.entries().last().label@ == name
        &&& new.entries().last().headings@.len() == 0
        &&& new.entries().last().options == options
        &&& new.entries().last().value == value
    }
}

/// The change callback of the field at `path`.
pub open spec fn submit_of(path: Seq<char>) -> Seq<char> {
    "(value => handleChange('"@ + path + "', value))"@
}

/// The headings of nested records, each in bold, outermost first.
pub open spec fn headings_html(hs: Seq<String>) -> Seq<char>
    decreases hs.len(),
{
    if hs.len() == 0 {
        Seq::empty()
    } else {
        headings_html(hs.drop_last()) + "<b>"@ + hs.last()@ + "</b>"@
    }
}

/// The markup of one field: the headings of the nested records that begin
/// with it, then its control.
pub open spec fn field_html(f: Field) -> Seq<char> {
    headings_html(f.headings@) + leaf_html(f.label@, f.value, f.options, submit_of(f.path@))
}

/// Builds the markup of `headings_html`.
fn render_headings(hs: &Vec<String>) -> (r: String)
    ensures
        r@ == headings_html(hs@),
{
    let mut s = String::new();
    let mut i: usize = 0;
    while i < hs.len()
        invariant
            i <= hs@.len(),
            s@ == headings_html(hs@.take(i as int)),
        decreases hs@.len() - i,
    {
        s.append("<b>");
        s.append(hs[i].as_str());
        s.append("</b>");
        assert(hs@.take(i + 1).drop_last() =~= hs@.take(i as int));
        i = i + 1;
    }
    assert(hs@.take(hs@.len() as int) =~= hs@);
    s
}

/// The markup of these fields, in order.
pub open spec fn inputs_of(fields: Seq<Field>) -> Seq<char>
    decreases fields.len(),
{
    if fields.len() == 0 {
        Seq::empty()
    } else {
        inputs_of(fields.drop_last()) + field_html(fields.last())
    }
}

/// The codec family of each field, in order.
pub open spec fn kinds_of(fields: Seq<Field>) -> Seq<CodecKind> {
    fields.map_values(|f: Field| leaf_kind(f.value))
}

/// The keys in order of first occurrence, each once.
pub open spec fn dedup(keys: Seq<CodecKind>) -> Seq<CodecKind>
    decreases keys.len(),
{
    if keys.len() == 0 {
        Seq::empty()
    } else {
        let d = dedup(keys.drop_last());
        if d.contains(keys.last()) {
            d
        } else {
            d.push(keys.last())
        }
    }
}

/// The headers of these codec families, in order.
pub open spec fn headers_of(keys: Seq<CodecKind>) -> Seq<char>
    decreases keys.len(),
{
    if keys.len() == 0 {
        Seq::empty()
    } else {
        headers_of(keys.drop_last()) + header_text(keys.last())
    }
}

/// The footers of these codec families, in order.
pub open spec fn footers_of(keys: Seq<CodecKind>) -> Seq<char>
    decreases keys.len(),
{
    if keys.len() == 0 {
        Seq::empty()
    } else {
        footers_of(keys.drop_last()) + footer_text(keys.last())
    }
}

/// The header of a document: one header per codec family present.
pub open spec fn record_header(r: Record) -> Seq<char> {
    headers_of(dedup(kinds_of(r.entries())))
}

/// The footer of a document: one footer per codec family present.
pub open spec fn record_footer(r: Record) -> Seq<char> {
    footers_of(dedup(kinds_of(r.entries())))
}

/// Style of the page.
pub const PAGE_STYLE: &'static str = "body{font-family:sans-serif}.row{display:table-row}.cell{display:table-cell;padding:4px}.text-right{text-align:right}";

/// Script of the page: each change is sent as a `PUT` whose body is `path:value`.
pub const PAGE_SCRIPT: &'static str = "function handleChange(path,value){fetch(window.location.href,{method:'PUT',body:path+':'+value});}";

/// A whole page around its header, the record's label, its fields and its footer.
pub open spec fn document(
    label: Seq<char>,
    header: Seq<char>,
    inputs: Seq<char>,
    footer: Seq<char>,
) -> Seq<char> {
    "<!DOCTYPE html><html><head><meta charset=\"utf-8\" />"@ + header + "<style>"@ + PAGE_STYLE@
        + "</style></head><body><script>"@ + PAGE_SCRIPT@ + "</script><b>"@ + label
        + "</b><div id=\"inputs\">"@ + inputs + "</div>"@ + footer + "</body></html>"@
}

/// The page of a record.
pub open spec fn record_html(r: Record) -> Seq<char> {
    document(r.label_view(), record_header(r), inputs_of(r.entries()), record_footer(r))
}

fn contains_kind(seen: &Vec<CodecKind>, k: CodecKind) -> (r: bool)
    ensures
        r == seen@.contains(k),
{
    let mut i: usize = 0;
    while i < seen.len()
        invariant
            i <= seen@.len(),
            forall|j: int| 0 <= j < i ==> seen@[j] != k,
        decreases seen@.len() - i,
    {
        if seen[i] == k {
            return true;
        }
        i = i + 1;
    }
    false
}

/// Adds the header and footer of family `k` unless `seen` holds it already.
pub fn register_header_footer(
    seen: &mut Vec<CodecKind>,
    k: CodecKind,
    header: &mut String,
    footer: &mut String,
)
    ensures
        final(seen)@ == (if old(seen)@.contains(k) {
            old(seen)@
        } else {
            old(seen)@.push(k)
        }),
        final(header)@ == old(header)@ + (if old(seen)@.contains(k) {
            Seq::empty()
        } else {
            header_text(k)
        }),
        final(footer)@ == old(footer)@ + (if old(seen)@.contains(k) {
            Seq::empty()
        } else {
            footer_text(k)
        }),
{
    if contains_kind(seen, k) {
        assert(header@ =~= header@ + Seq::<char>::empty());
        assert(footer@ =~= footer@ + Seq::<char>::empty());
    } else {
        seen.push(k);
        header.append(header_of(k));
        footer.append(footer_of(k));
    }
}

fn valid_name_exec(s: &str) -> (r: bool)
    ensures
        r == valid_name(s@),
{
    let n = s.unicode_len();
    if n == 0 {
        return false;
    }
    let mut i: usize = 0;
    while i < n
        invariant
            n == s@.len(),
            i <= n,
            forall|j: int| 0 <= j < i ==> s@[j] != '.' && s@[j] != ':',
        decreases n - i,
    {
        let c = s.get_char(i);
        if c == '.' || c == ':' {
            return false;
        }
        i = i + 1;
    }
    true
}

fn leaf_is_wf(l: &Leaf) -> (r: bool)
    ensures
        r == leaf_wf(*l),
{
    match l {
        Leaf::Choice(c) => c.selected < c.variants.len(),
        _ => true,
    }
}

impl Record {
    /// An empty record with this label and these options.
    pub fn new(label: &str, options: InspectableOptions) -> (r: Record)
        ensures
            r.wf(),
            r.label_view() == label@,
            r.options_view() == options,
            r.entries().len() == 0,
    {
        Record { label: String::from_str(label), options, fields: Vec::new() }
    }

    pub fn options(&self) -> (r: InspectableOptions)
        ensures
            r == self.options_view(),
    {
        InspectableOptions { port: self.options.port }
    }

    pub fn len(&self) -> (r: usize)
        ensures
            r == self.entries().len(),
    {
        self.fields.len()
    }

    /// The field at position `i`.
    pub fn field(&self, i: usize) -> (r: &Field)
        requires
            i < self.entries().len(),
        ensures
            *r == self.entries()[i as int],
    {
        &self.fields[i]
    }

    /// The position of the field with this path.
    pub fn index_of(&self, path: &str) -> (r: Option<usize>)
        requires
            self.wf(),
        ensures
            match path_index(*self, path@) {
                Some(i) => r is Some && r->0 as int == i,
                None => r is None,
            },
    {
        let n = self.fields.len();
        let mut i: usize = 0;
        while i < n
            invariant
                self.wf(),
                n == self.entries().len(),
                i <= n,
                forall|j: int| 0 <= j < i ==> self.entries()[j].path@ != path@,
            decreases n - i,
        {
            if same_text(self.fields[i].path.as_str(), path) {
                proof {
                    assert(self.entries()[i as int].path@ == path@);
                    assert(exists|k: int|
                        0 <= k < self.entries().len() && self.entries()[k].path@ == path@);
                    let k = choose|k: int|
                        0 <= k < self.entries().len() && self.entries()[k].path@ == path@;
                    if k != i as int {
                        assert(self.entries()[k].path@ != self.entries()[i as int].path@);
                    }
                }
                return Some(i);
            }
            i = i + 1;
        }
        None
    }

    /// The value of the field with this path.
    pub fn value_at(&self, path: &str) -> (r: Option<&Leaf>)
        requires
            self.wf(),
        ensures
            match path_index(*self, path@) {
                Some(i) => r is Some && *r->0 == self.entries()[i].value,
                None => r is None,
            },
    {
        match self.index_of(path) {
            Some(i) => Some(&self.field(i).value),
            None => None,
        }
    }

    /// Adds a field named `name` at the end of the record, drawn with the
    /// codec's default options.
    pub fn add_field(&mut self, name: &str, value: Leaf) -> (r: Result<(), FieldError>)
        requires
            old(self).wf(),
        ensures
            final(self).wf(),
            field_added(*old(self), *final(self), name@, value, FieldOptions::Default, r),
    {
        self.add_field_with_options(name, value, FieldOptions::Default)
    }

    /// Adds a field named `name` at the end of the record, drawn with these
    /// advisory options.
    pub fn add_field_with_options(&mut self, name: &str, value: Leaf, options: FieldOptions) -> (r:
        Result<(), FieldError>)
        requires
            old(self).wf(),
        ensures
            final(self).wf(),
            field_added(*old(self), *final(self), name@, value, options, r),
    {
        if !valid_name_exec(name) {
            return Err(FieldError::InvalidName);
        }
        if self.index_of(name).is_some() {
            return Err(FieldError::DuplicatePath);
        }
        if !leaf_is_wf(&value) {
            return Err(FieldError::InvalidValue);
        }
        if !options_fit_exec(&value, &options) {
            return Err(FieldError::InvalidOptions);
        }
        let f = Field {
            path: String::from_str(name),
            label: String::from_str(name),
            headings: Vec::new(),
            options,
            value,
        };
        self.fields.push(f);
        assert(self.entries().drop_last() =~= old(self).entries());
        Ok(())
    }

    /// Routes the edit `path:value` to the field with that path.
    pub fn update(&mut self, path: &str, value: &str) -> (r: Result<(), UpdateError>)
        requires
            old(self).wf(),
        ensures
            final(self).wf(),
            routed(*old(self), path@, value@, *final(self), r),
    {
        match self.index_of(path) {
            None => Err(UpdateError::UnknownField(String::from_str(path))),
            Some(i) => {
                let ghost old_fields = self.fields@;
                let f = self.fields.remove(i);
                let Field { path: p, label, headings, options, value: v } = f;
                let (nv, res) = update_leaf(v, value);
                self.fields.insert(i, Field { path: p, label, headings, options, value: nv });
                assert(self.fields@.len() == old_fields.len());
                assert forall|j: int| 0 <= j < old_fields.len() && j != i implies #[trigger] self.fields@[j]
                    == old_fields[j] by {
                    if j < i {
                        assert(self.fields@[j] == old_fields[j]);
                    } else {
                        assert(self.fields@[j] == old_fields[j]);
                    }
                }
                match res {
                    Ok(()) => Ok(()),
                    Err(e) => {
                        assert(self.fields@ =~= old_fields);
                        Err(UpdateError::Invalid(e))
                    },
                }
            },
        }
    }

    /// Adds the fields of `sub` at the end of the record, each under the path
    /// `name.p`, where `p` is its path in `sub`.
    pub fn add_record(&mut self, name: &str, sub: Record) -> (r: Result<(), FieldError>)
        requires
            old(self).wf(),
            sub.wf(),
        ensures
            final(self).wf(),
            !valid_name(name@) ==> r == Err::<(), FieldError>(FieldError::InvalidName)
                && final(self).same_as(*old(self)),
            valid_name(name@) && (exists|j: int|
                0 <= j < sub.entries().len() && path_index(
                    *old(self),
                    nested_path(name@, #[trigger] sub.entries()[j].path@),
                ) is Some) ==> {
                &&& r == Err::<(), FieldError>(FieldError::DuplicatePath)
                &&& final(self).same_as(*old(self))
            },
            valid_name(name@) && !(exists|j: int|
                0 <= j < sub.entries().len() && path_index(
                    *old(self),
                    nested_path(name@, #[trigger] sub.entries()[j].path@),
                ) is Some) ==> {
                &&& r is Ok
                &&& final(self).label_view() == old(self).label_view()
                &&& final(self).options_view() == old(self).options_view()
                &&& final(self).entries().len() == old(self).entries().len()
                    + sub.entries().len()
                &&& final(self).entries().take(old(self).entries().len() as int)
                    == old(self).entries()
                &&& forall|j: int|
                    0 <= j < sub.entries().len() ==> {
                        let f = #[trigger] final(self).entries()[old(self).entries().len() + j];
                        &&& f.path@ == nested_path(name@, sub.entries()[j].path@)
                        &&& f.label == sub.entries()[j].label
                        &&& f.value == sub.entries()[j].value
                        &&& f.options == sub.entries()[j].options
                        &&& j > 0 ==> f.headings == sub.entries()[j].headings
                        &&& j == 0 ==> f.headings@.len() == sub.entries()[0].headings@.len() + 1
                            && f.headings@[0]@ == sub.label_view() && f.headings@.skip(1)
                            == sub.entries()[0].headings@
                    }
            },
    {
        if !valid_name_exec(name) {
            return Err(FieldError::InvalidName);
        }
        let mut prefix = String::from_str(name);
        prefix.append(".");
        proof {
            reveal_strlit(".");
        }
        let n = sub.fields.len();
        let mut paths: Vec<String> = Vec::new();
        let mut j: usize = 0;
        while j < n
            invariant
                self.wf(),
                *self == *old(self),
                valid_name(name@),
                n == sub.entries().len(),
                j <= n,
                prefix@ == name@ + seq!['.'],
                paths@.len() == j,
                forall|k: int|
                    0 <= k < j ==> #[trigger] paths@[k]@ == nested_path(
                        name@,
                        sub.entries()[k].path@,
                    ),
                forall|k: int|
                    0 <= k < j ==> path_index(
                        *self,
                        nested_path(name@, #[trigger] sub.entries()[k].path@),
                    ) is None,
            decreases n - j,
        {
            let mut full = prefix.clone();
            full.append(sub.fields[j].path.as_str());
            assert(full@ == nested_path(name@, sub.entries()[j as int].path@));
            if self.index_of(full.as_str()).is_some() {
                return Err(FieldError::DuplicatePath);
            }
            paths.push(full);
            j = j + 1;
        }
        let ghost old_self = *self;
        let ghost sub_entries = sub.entries();
        let ghost sub_label_view = sub.label_view();
        let Record { label: sub_label, options: _, fields: mut sub_fields } = sub;
        let mut k: usize = 0;
        while k < n
            invariant
                n == sub_entries.len(),
                paths@.len() == n,
                k <= n,
                sub_fields@ == sub_entries.skip(k as int),
                forall|m: int| 0 <= m < n ==> #[trigger] paths@[m]@ == nested_path(
                        name@,
                        sub_entries[m].path@,
                    ),
                forall|m: int| 0 <= m < n ==> path_index(
                        old_self,
                        nested_path(name@, #[trigger] sub_entries[m].path@),
                    ) is None,
                self.label_view() == old_self.label_view(),
                self.options_view() == old_self.options_view(),
                self.entries().len() == old_self.entries().len() + k,
                self.entries().take(old_self.entries().len() as int) == old_self.entries(),
                forall|m: int|
                    0 <= m < k ==> {
                        let f = #[trigger] self.entries()[old_self.entries().len() + m];
                        &&& f.path@ == nested_path(name@, sub_entries[m].path@)
                        &&& f.label == sub_entries[m].label
                        &&& f.value == sub_entries[m].value
                        &&& f.options == sub_entries[m].options
                        &&& m > 0 ==> f.headings == sub_entries[m].headings
                        &&& m == 0 ==> f.headings@ == seq![sub_label] + sub_entries[0].headings@
                    },
            decreases n - k,
        {
            let f = sub_fields.remove(0);
            let Field { path: _, label, mut headings, options, value } = f;
            if k == 0 {
                headings.insert(0, sub_label.clone());
                assert(headings@ =~= seq![sub_label] + sub_entries[0].headings@);
            }
            let full = paths[k].clone();
            self.fields.push(Field { path: full, label, headings, options, value });
            assert(sub_fields@ =~= sub_entries.skip(k + 1));
            assert(self.entries().take(old_self.entries().len() as int) =~= old_self.entries());
            k = k + 1;
        }
        proof {
            let len0 = old_self.entries().len();
            if n > 0 {
                let f0 = self.entries()[old_self.entries().len() + 0int];
                assert(f0.headings@ == seq![sub_label] + sub_entries[0].headings@);
                assert(f0.headings@.skip(1) =~= sub_entries[0].headings@);
                assert(f0.headings@[0]@ == sub_label_view);
            }
            assert forall|a: int| 0 <= a < self.entries().len() implies leaf_wf(
                #[trigger] self.entries()[a].value,
            ) by {
                if a < len0 {
                    assert(self.entries()[a] == self.entries().take(len0 as int)[a]);
                } else {
                    let m = a - len0;
                    assert(self.entries()[old_self.entries().len() + m].value == sub_entries[m].value);
                    assert(leaf_wf(sub_entries[m].value));
                }
            }
            assert forall|a: int, b: int|
                0 <= a < self.entries().len() && 0 <= b < self.entries().len() && a != b
                    implies #[trigger] self.entries()[a].path@ != #[trigger] self.entries()[b].path@ by {
                if a < len0 && b < len0 {
                    assert(self.entries()[a] == self.entries().take(len0 as int)[a]);
                    assert(self.entries()[b] == self.entries().take(len0 as int)[b]);
                } else if a >= len0 && b >= len0 {
                    let pa = sub_entries[a - len0].path@;
                    let pb = sub_entries[b - len0].path@;
                    assert(self.entries()[old_self.entries().len() + (a - len0)].path@ == nested_path(name@, pa));
                    assert(self.entries()[old_self.entries().len() + (b - len0)].path@ == nested_path(name@, pb));
                    assert(pa != pb);
                    if nested_path(name@, pa) == nested_path(name@, pb) {
                        assert(pa =~= nested_path(name@, pa).skip(name@.len() as int + 1));
                        assert(pb =~= nested_path(name@, pb).skip(name@.len() as int + 1));
                    }
                } else if a < len0 {
                    let m = b - len0;
                    assert(self.entries()[a] == self.entries().take(len0 as int)[a]);
                    assert(self.entries()[old_self.entries().len() + m].path@ == nested_path(name@, sub_entries[m].path@));
                    assert(path_index(old_self, nested_path(name@, sub_entries[m].path@)) is None);
                } else {
                    let m = a - len0;
                    assert(self.entries()[b] == self.entries().take(len0 as int)[b]);
                    assert(self.entries()[old_self.entries().len() + m].path@ == nested_path(name@, sub_entries[m].path@));
                    assert(path_index(old_self, nested_path(name@, sub_entries[m].path@)) is None);
                }
            }
        }
        Ok(())
    }

    /// The page of the record: the headers of the codec families present,
    /// each once, then every field in order, then their footers.
    pub fn html(&self) -> (r: String)
        requires
            self.wf(),
        ensures
            r@ == record_html(*self),
    {
        let n = self.fields.len();
        let mut seen: Vec<CodecKind> = Vec::new();
        let mut header = String::new();
        let mut footer = String::new();
        let mut inputs = String::new();
        let mut i: usize = 0;
        while i < n
            invariant
                self.wf(),
                n == self.entries().len(),
                i <= n,
                seen@ == dedup(kinds_of(self.entries().take(i as int))),
                header@ == headers_of(seen@),
                footer@ == footers_of(seen@),
                inputs@ == inputs_of(self.entries().take(i as int)),
            decreases n - i,
        {
            let f = &self.fields[i];
            let ghost before = seen@;
            register_header_footer(&mut seen, kind_of(&f.value), &mut header, &mut footer);
            let mut submit = String::from_str("(value => handleChange('");
            submit.append(f.path.as_str());
            submit.append("', value))");
            let heads = render_headings(&f.headings);
            let piece = render_leaf(f.label.as_str(), &f.value, &f.options, submit.as_str());
            inputs.append(heads.as_str());
            inputs.append(piece.as_str());
            proof {
                let t = self.entries().take(i + 1);
                assert(t.drop_last() =~= self.entries().take(i as int));
                assert(kinds_of(t).drop_last() =~= kinds_of(self.entries().take(i as int)));
                assert(kinds_of(t).last() == leaf_kind(f.value));
                if !before.contains(leaf_kind(f.value)) {
                    assert(seen@.drop_last() =~= before);
                }
            }
            i = i + 1;
        }
        assert(self.entries().take(n as int) =~= self.entries());
        let mut page = String::from_str("<!DOCTYPE html><html><head><meta charset=\"utf-8\" />");
        page.append(header.as_str());
        page.append("<style>");
        page.append(PAGE_STYLE);
        page.append("</style></head><body><script>");
        page.append(PAGE_SCRIPT);
        page.append("</script><b>");
        page.append(self.label.as_str());
        page.append("</b><div id=\"inputs\">");
        page.append(inputs.as_str());
        page.append("</div>");
        page.append(footer.as_str());
        page.append("</body></html>");
        page
    }
}

impl Inspectable for Record {
    open spec fn inv(&self) -> bool {
        self.wf()
    }

    open spec fn html_spec(&self) -> Seq<char> {
        record_html(*self)
    }

    open spec fn update_spec(
        &self,
        path: Seq<char>,
        value: Seq<char>,
        after: Record,
        r: Result<(), UpdateError>,
    ) -> bool {
        routed(*self, path, value, after, r)
    }

    open spec fn options_spec(&self) -> InspectableOptions {
        self.options_view()
    }

    fn html(&self) -> (r: String) {
        Record::html(self)
    }

    fn update(&mut self, field: &str, value: &str) -> (r: Result<(), UpdateError>) {
        Record::update(self, field, value)
    }

    fn options(&self) -> (r: InspectableOptions) {
        Record::options(self)
    }
}

/// An edit changes no field but the one whose path it names: every other
/// field keeps its path, label and value, and when the edit succeeds, the
/// field it names holds the value that the text stands for.
pub proof fn lemma_edit_touches_only_its_field(
    old: Record,
    path: Seq<char>,
    text: Seq<char>,
    new: Record,
    r: Result<(), UpdateError>,
)
    requires
        old.wf(),
        routed(old, path, text, new, r),
    ensures
        new.entries().len() == old.entries().len(),
        forall|j: int|
            0 <= j < old.entries().len() && old.entries()[j].path@ != path ==> #[trigger] new.entries()[j]
                == old.entries()[j],
        r is Ok ==> exists|i: int|
            0 <= i < old.entries().len() && #[trigger] old.entries()[i].path@ == path && leaf_parsed(
                old.entries()[i].value,
                text,
                new.entries()[i].value,
            ),
{
    if let Some(i) = path_index(old, path) {
        assert(old.entries()[i].path@ == path);
    }
}

/// An edit whose path names no field leaves the record as it was and is
/// reported once, as an unknown field with that path.
pub proof fn lemma_unknown_path_changes_nothing(
    old: Record,
    path: Seq<char>,
    text: Seq<char>,
    new: Record,
    r: Result<(), UpdateError>,
)
    requires
        routed(old, path, text, new, r),
        forall|i: int| 0 <= i < old.entries().len() ==> #[trigger] old.entries()[i].path@ != path,
    ensures
        new.same_as(old),
        r matches Err(UpdateError::UnknownField(p)) && p@ == path,
{
}

proof fn lemma_dedup_one_kind(keys: Seq<CodecKind>, k: CodecKind)
    requires
        keys.len() > 0,
        forall|i: int| 0 <= i < keys.len() ==> keys[i] == k,
    ensures
        dedup(keys) == seq![k],
    decreases keys.len(),
{
    if keys.len() == 1 {
        assert(keys.drop_last() =~= Seq::<CodecKind>::empty());
        assert(dedup(keys.drop_last()) =~= Seq::<CodecKind>::empty());
        assert(dedup(keys) =~= seq![k]);
    } else {
        lemma_dedup_one_kind(keys.drop_last(), k);
        assert(seq![k].contains(k)) by {
            assert(seq![k][0] == k);
        }
    }
}

/// A record whose fields all belong to one codec family carries that
/// family's header and footer exactly once, however many fields it has.
pub proof fn lemma_shared_family_emitted_once(r: Record, k: CodecKind)
    requires
        r.entries().len() > 0,
        forall|i: int| 0 <= i < r.entries().len() ==> leaf_kind(#[trigger] r.entries()[i].value) == k,
    ensures
        record_header(r) == header_text(k),
        record_footer(r) == footer_text(k),
{
    let keys = kinds_of(r.entries());
    assert forall|i: int| 0 <= i < keys.len() implies keys[i] == k by {
        assert(keys[i] == leaf_kind(r.entries()[i].value));
    }
    lemma_dedup_one_kind(keys, k);
    let one = seq![k];
    assert(one.drop_last() =~= Seq::<CodecKind>::empty());
    assert(one.last() == k);
    assert(headers_of(one.drop_last()) =~= Seq::<char>::empty());
    assert(footers_of(one.drop_last()) =~= Seq::<char>::empty());
    assert(headers_of(one) =~= header_text(k));
    assert(footers_of(one) =~= footer_text(k));
}

proof fn lemma_dedup_distinct(keys: Seq<CodecKind>)
    ensures
        forall|a: int, b: int|
            0 <= a < dedup(keys).len() && 0 <= b < dedup(keys).len() && a != b ==> dedup(keys)[a]
                != dedup(keys)[b],
        forall|x: CodecKind| dedup(keys).contains(x) <==> keys.contains(x),
    decreases keys.len(),
{
    if keys.len() == 0 {
        assert(dedup(keys) =~= Seq::<CodecKind>::empty());
    } else {
        let pre = keys.drop_last();
        let d = dedup(pre);
        let last = keys.last();
        lemma_dedup_distinct(pre);
        assert forall|x: CodecKind| keys.contains(x) <==> (pre.contains(x) || x == last) by {
            if keys.contains(x) {
                let i = choose|i: int| 0 <= i < keys.len() && keys[i] == x;
                if i < keys.len() - 1 {
                    assert(pre[i] == x);
                }
            }
            if pre.contains(x) {
                let i = choose|i: int| 0 <= i < pre.len() && pre[i] == x;
                assert(keys[i] == x);
            }
            if x == last {
                assert(keys[keys.len() - 1] == x);
            }
        }
        if !d.contains(last) {
            let e = d.push(last);
            assert(dedup(keys) == e);
            assert forall|x: CodecKind| e.contains(x) <==> (d.contains(x) || x == last) by {
                if e.contains(x) {
                    let i = choose|i: int| 0 <= i < e.len() && e[i] == x;
                    if i < d.len() {
                        assert(d[i] == x);
                    }
                }
                if d.contains(x) {
                    let i = choose|i: int| 0 <= i < d.len() && d[i] == x;
                    assert(e[i] == x);
                }
                if x == last {
                    assert(e[d.len() as int] == x);
                }
            }
            assert forall|a: int, b: int|
                0 <= a < e.len() && 0 <= b < e.len() && a != b implies e[a] != e[b] by {
                if a < d.len() && b < d.len() {
                    assert(e[a] == d[a] && e[b] == d[b]);
                } else if a < d.len() {
                    assert(e[a] == d[a]);
                    assert(d.contains(d[a]));
                } else {
                    assert(e[b] == d[b]);
                    assert(d.contains(d[b]));
                }
            }
        }
    }
}

/// Each codec family present in a record appears exactly once in the list
/// whose headers and footers the page carries.
pub proof fn lemma_families_emitted_once(r: Record)
    ensures
        forall|a: int, b: int|
            0 <= a < dedup(kinds_of(r.entries())).len() && 0 <= b < dedup(
                kinds_of(r.entries()),
            ).len() && a != b ==> dedup(kinds_of(r.entries()))[a] != dedup(
                kinds_of(r.entries()),
            )[b],
        forall|x: CodecKind|
            dedup(kinds_of(r.entries())).contains(x) <==> kinds_of(r.entries()).contains(x),
{
    lemma_dedup_distinct(kinds_of(r.entries()));
}

proof fn lemma_parsed_keeps_type(a: Leaf, t: Seq<char>, b: Leaf, t2: Seq<char>, n: Leaf)
    requires
        leaf_parsed(a, t, b),
    ensures
        leaf_accepts(b, t2) == leaf_accepts(a, t2),
        leaf_parsed(b, t2, n) == leaf_parsed(a, t2, n),
        leaf_kind(b) == leaf_kind(a),
{
}

/// Two edits of one field in a row leave the record as the second edit
/// alone would have left it, when the second one succeeds: the later value
/// wins, whatever the first edit did.
pub proof fn lemma_later_edit_wins(
    r0: Record,
    r1: Record,
    r2: Record,
    path: Seq<char>,
    first: Seq<char>,
    second: Seq<char>,
    res1: Result<(), UpdateError>,
)
    requires
        r0.wf(),
        r1.wf(),
        routed(r0, path, first, r1, res1),
        routed(r1, path, second, r2, Ok(())),
    ensures
        routed(r0, path, second, r2, Ok(())),
{
    let p0 = path_index(r0, path);
    if let Some(i) = p0 {
        assert(r0.entries()[i].path@ == path);
        assert(r1.entries()[i].path@ == path);
        let j = path_index(r1, path)->0;
        assert(r1.entries()[j].path@ == path);
        if j != i {
            assert(r1.entries()[j].path@ != r1.entries()[i].path@);
        }
        if res1 is Ok {
            lemma_parsed_keeps_type(
                r0.entries()[i].value,
                first,
                r1.entries()[i].value,
                second,
                r2.entries()[i].value,
            );
        }
        assert forall|k: int| 0 <= k < r0.entries().len() && k != i implies #[trigger] r2.entries()[k]
            == r0.entries()[k] by {
            assert(r2.entries()[k] == r1.entries()[k]);
        }
    } else {
        assert forall|k: int| 0 <= k < r1.entries().len() implies r1.entries()[k].path@ != path by {
            assert(r1.entries()[k] == r0.entries()[k]);
        }
    }
}

} // verus!
