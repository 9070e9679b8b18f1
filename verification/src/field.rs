//! The values that spans and events carry, and how each is rendered.
use vstd::prelude::*;
use vstd::string::*;
use vstd::utf8::encode_utf8;
use crate::android::Severity;
use crate::bytes::append;
use crate::decimal::{decimal, push_decimal, push_signed_decimal, signed_decimal};

verus! {

/// What `{:?}` prints for a string: the string between double quotes, with
/// the characters escaped that Rust escapes there.
pub uninterp spec fn debug_quoted(s: Seq<char>) -> Seq<char>;

/// Formats a string with `{:?}`, by `std`'s `Debug` for `str`.
///
/// Trusted, not proved: the result is a function of the characters of `s`
/// alone, the one that `debug_quoted` names.
#[verifier::external_body]
fn debug_str(s: &str) -> (quoted: String)
    ensures
        quoted@ == debug_quoted(s@),
{
    format!("{:?}", s)
}

/// A value that has a rendering in a log line.
pub trait Render {
    /// The bytes that the value renders to.
    spec fn rendered(&self) -> Seq<u8>;

    /// Appends the rendering of the value to `buf`.
    fn render(&self, buf: &mut Vec<u8>)
        ensures
            final(buf)@ == old(buf)@ + self.rendered(),
    ;
}

/// Text renders to its UTF-8 bytes.
impl<'a> Render for &'a str {
    open spec fn rendered(&self) -> Seq<u8> {
        self.spec_bytes()
    }

    fn render(&self, buf: &mut Vec<u8>) {
        append(buf, self.as_bytes());
    }
}

/// A line number renders in decimal.
impl Render for u32 {
    open spec fn rendered(&self) -> Seq<u8> {
        decimal(*self as nat)
    }

    fn render(&self, buf: &mut Vec<u8>) {
        push_decimal(buf, *self as u128);
    }
}

/// A depth renders in decimal.
impl Render for usize {
    open spec fn rendered(&self) -> Seq<u8> {
        decimal(*self as nat)
    }

    fn render(&self, buf: &mut Vec<u8>) {
        push_decimal(buf, *self as u128);
    }
}

/// The value of a field of a span or of an event.
#[derive(Debug, Clone)]
pub enum FieldValue {
    Bool(bool),
    I64(i64),
    U64(u64),
    I128(i128),
    U128(u128),
    /// A string, which is rendered between quotes, as `{:?}` prints it.
    Str(String),
    /// The text that `{:?}` printed for a value of any other type; it is
    /// rendered as it stands.
    Debug(String),
}

/// A field value renders as `{:?}` prints it.
impl Render for FieldValue {
    open spec fn rendered(&self) -> Seq<u8> {
        match self {
            FieldValue::Bool(b) => if *b {
                "true".spec_bytes()
            } else {
                "false".spec_bytes()
            },
            FieldValue::I64(n) => signed_decimal(*n as int),
            FieldValue::U64(n) => decimal(*n as nat),
            FieldValue::I128(n) => signed_decimal(*n as int),
            FieldValue::U128(n) => decimal(*n as nat),
            FieldValue::Str(s) => encode_utf8(debug_quoted(s@)),
            FieldValue::Debug(s) => encode_utf8(s@),
        }
    }

    fn render(&self, buf: &mut Vec<u8>) {
        match self {
            FieldValue::Bool(b) => {
                if *b {
                    append(buf, "true".as_bytes());
                } else {
                    append(buf, "false".as_bytes());
                }
            },
            FieldValue::I64(n) => push_signed_decimal(buf, *n as i128),
            FieldValue::U64(n) => push_decimal(buf, *n as u128),
            FieldValue::I128(n) => push_signed_decimal(buf, *n),
            FieldValue::U128(n) => push_decimal(buf, *n),
            FieldValue::Str(s) => {
                let quoted = debug_str(s.as_str());
                append(buf, quoted.as_str().as_bytes());
            },
            FieldValue::Debug(s) => append(buf, s.as_str().as_bytes()),
        }
    }
}

/// A named value.
#[derive(Debug, Clone)]
pub struct Field {
    pub name: String,
    pub value: FieldValue,
}

impl Field {
    /// The name of the field, in bytes.
    pub open spec fn name_bytes(&self) -> Seq<u8> {
        encode_utf8(self.name@)
    }
}

/// What is known of the place where a span or an event was declared.
#[derive(Debug, Clone)]
pub struct Metadata {
    pub name: String,
    pub target: String,
    pub level: Severity,
    pub file: Option<String>,
    pub line: Option<u32>,
}

/// What a new span is made with.
#[derive(Debug, Clone)]
pub struct Attributes {
    pub metadata: Metadata,
    pub fields: Vec<Field>,
}

/// The fields that a span records after it was made.
#[derive(Debug, Clone)]
pub struct Record {
    pub fields: Vec<Field>,
}

/// Something that happened at one moment, within the spans around it.
#[derive(Debug, Clone)]
pub struct Event {
    pub metadata: Metadata,
    pub fields: Vec<Field>,
}

} // verus!
