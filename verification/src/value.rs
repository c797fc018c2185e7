//! The values that fields hold, and how they are written as text.

use crate::meta::copy_text;
use crate::text::{
    same_text,
    append_str, decimal_text, push_decimal, push_signed_decimal, signed_decimal_text, string_of,
};
use vstd::prelude::*;

verus! {

/// The value of one field of a request.
#[derive(Debug, PartialEq, Eq)]
pub enum FieldValue {
    /// A truth value.
    Bool(bool),
    /// A non-negative integer.
    Unsigned(u64),
    /// An integer with a sign.
    Signed(i64),
    /// A text.
    Text(String),
    /// A value of a type that is not known here, given by how it is written
    /// as text and by its JSON notation.
    Opaque { text: String, json: Vec<u8> },
}

/// The model of a `FieldValue`.
pub enum ValueModel {
    Bool(bool),
    Unsigned(nat),
    Signed(int),
    Text(Seq<char>),
    Opaque { text: Seq<char>, json: Seq<u8> },
}

impl View for FieldValue {
    type V = ValueModel;

    open spec fn view(&self) -> ValueModel {
        match self {
            FieldValue::Bool(b) => ValueModel::Bool(*b),
            FieldValue::Unsigned(n) => ValueModel::Unsigned(*n as nat),
            FieldValue::Signed(n) => ValueModel::Signed(*n as int),
            FieldValue::Text(s) => ValueModel::Text(s@),
            FieldValue::Opaque { text, json } => ValueModel::Opaque { text: text@, json: json@ },
        }
    }
}

/// The view of an optional value.
pub open spec fn opt_value(o: Option<FieldValue>) -> Option<ValueModel> {
    match o {
        Some(v) => Some(v@),
        None => None,
    }
}

/// The views of a sequence of optional values.
pub open spec fn slot_models(s: Seq<Option<FieldValue>>) -> Seq<Option<ValueModel>> {
    Seq::new(s.len(), |i: int| opt_value(s[i]))
}

/// How a truth value is written: `true` or `false`.
pub open spec fn bool_text(b: bool) -> Seq<char> {
    if b {
        seq!['t', 'r', 'u', 'e']
    } else {
        seq!['f', 'a', 'l', 's', 'e']
    }
}

/// The textual representation of a value, as it appears in a URL path or in a
/// header: `true` or `false`, the decimal notation of a number, a text as it
/// is, or the text that an opaque value comes with.
pub open spec fn display_text(v: ValueModel) -> Seq<char> {
    match v {
        ValueModel::Bool(b) => bool_text(b),
        ValueModel::Unsigned(n) => decimal_text(n),
        ValueModel::Signed(n) => signed_decimal_text(n),
        ValueModel::Text(s) => s,
        ValueModel::Opaque { text, json } => text,
    }
}

/// The default value of a type, by its name: `false`, zero, or the
/// empty text. A type of any other name has none here.
pub open spec fn zero_of(name: Seq<char>) -> Option<ValueModel> {
    if name == "bool"@ {
        Some(ValueModel::Bool(false))
    } else if name == "u8"@ || name == "u16"@ || name == "u32"@ || name
        == "u64"@ || name == "usize"@ {
        Some(ValueModel::Unsigned(0))
    } else if name == "i8"@ || name == "i16"@ || name == "i32"@ || name
        == "i64"@ || name == "isize"@ {
        Some(ValueModel::Signed(0))
    } else if name == "String"@ {
        Some(ValueModel::Text(Seq::empty()))
    } else {
        None
    }
}

/// Appends `true` or `false` to `out`.
pub fn push_bool(out: &mut Vec<char>, b: bool)
    ensures
        final(out)@ == old(out)@ + bool_text(b),
{
    if b {
        out.push('t');
        out.push('r');
        out.push('u');
        out.push('e');
    } else {
        out.push('f');
        out.push('a');
        out.push('l');
        out.push('s');
        out.push('e');
    }
    assert(out@ == old(out)@ + bool_text(b));
}

impl FieldValue {
    /// A text value.
    pub fn text(s: &str) -> (r: FieldValue)
        ensures
            r@ == ValueModel::Text(s@),
    {
        FieldValue::Text(copy_text(s))
    }

    /// A value of a type that is not known here, written `text` as text and
    /// `json` in JSON.
    pub fn opaque(text: &str, json: Vec<u8>) -> (r: FieldValue)
        ensures
            r@ == (ValueModel::Opaque { text: text@, json: json@ }),
    {
        FieldValue::Opaque { text: copy_text(text), json }
    }

    /// A copy of this value.
    pub fn duplicate(&self) -> (r: FieldValue)
        ensures
            r@ == self@,
    {
        match self {
            FieldValue::Bool(b) => FieldValue::Bool(*b),
            FieldValue::Unsigned(n) => FieldValue::Unsigned(*n),
            FieldValue::Signed(n) => FieldValue::Signed(*n),
            FieldValue::Text(s) => FieldValue::Text(copy_text(s.as_str())),
            FieldValue::Opaque { text, json } => {
                let mut bytes: Vec<u8> = Vec::new();
                let mut i: usize = 0;
                while i < json.len()
                    invariant
                        i <= json.len(),
                        bytes@ == json@.take(i as int),
                    decreases json.len() - i,
                {
                    bytes.push(json[i]);
                    i += 1;
                    assert(json@.take(i as int) == json@.take(i - 1).push(json@[i - 1]));
                }
                assert(json@.take(json.len() as int) == json@);
                FieldValue::Opaque { text: copy_text(text.as_str()), json: bytes }
            },
        }
    }

    /// Appends the textual representation of this value to `out`.
    pub fn push_text(&self, out: &mut Vec<char>)
        ensures
            final(out)@ == old(out)@ + display_text(self@),
    {
        match self {
            FieldValue::Bool(b) => push_bool(out, *b),
            FieldValue::Unsigned(n) => push_decimal(out, *n),
            FieldValue::Signed(n) => push_signed_decimal(out, *n),
            FieldValue::Text(s) => append_str(out, s.as_str()),
            FieldValue::Opaque { text, json } => append_str(out, text.as_str()),
        }
    }

    /// The textual representation of this value.
    pub fn to_text(&self) -> (r: String)
        ensures
            r@ == display_text(self@),
    {
        let mut out: Vec<char> = Vec::new();
        self.push_text(&mut out);
        assert(Seq::<char>::empty() + display_text(self@) == display_text(self@));
        string_of(&out)
    }
}

/// A copy of an optional value.
pub fn copy_opt_value(o: &Option<FieldValue>) -> (r: Option<FieldValue>)
    ensures
        opt_value(r) == opt_value(*o),
{
    match o {
        Some(v) => Some(v.duplicate()),
        None => None,
    }
}

/// The default value of the type called `name`, where it has one.
pub fn zero_value(name: &str) -> (r: Option<FieldValue>)
    ensures
        opt_value(r) == zero_of(name@),
{

    if same_text(name, "bool") {
        Some(FieldValue::Bool(false))
    } else if same_text(name, "u8") || same_text(name, "u16") || same_text(
        name,
        "u32",
    ) || same_text(name, "u64") || same_text(name, "usize") {
        Some(FieldValue::Unsigned(0))
    } else if same_text(name, "i8") || same_text(name, "i16") || same_text(
        name,
        "i32",
    ) || same_text(name, "i64") || same_text(name, "isize") {
        Some(FieldValue::Signed(0))
    } else if same_text(name, "String") {
        Some(FieldValue::Text(String::new()))
    } else {
        None
    }
}

} // verus!
