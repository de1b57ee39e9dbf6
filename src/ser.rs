//! The encoder: an append-only byte buffer and the operations that describe a value to it.

use vstd::prelude::*;
use vstd::string::StringExecFns;
use crate::error::Error;
use crate::value::{encoding, entries_encoding, fields_encoding, items_encoding, Value};
use crate::wire::{
    append_bytes, bool_bytes, lemma_le_bytes_one, int_bytes, le_i16, le_i32, le_i64, le_u16, le_u32, le_u64,
    string_bytes, write_string_header, BEGIN, BEGIN_ARRAY, DOUBLE, END, END_ARRAY, FALSE, INT16,
    INT32, INT64, INT8, TRUE, UNIT,
};

verus! {

/// The kind of container that an opening call started, and that `end` closes.
#[derive(Clone, Copy, Debug, PartialEq, Eq, Structural)]
pub enum Compound {
    /// Opened by `BEGIN_ARRAY`.
    Array,
    /// Opened by `BEGIN`.
    Object,
    /// Opened by `BEGIN`, a variant name and a second `BEGIN`.
    StructVariant,
}

/// The bytes that close a container of the given kind.
pub open spec fn closing_bytes(kind: Compound) -> Seq<u8> {
    match kind {
        Compound::Array => seq![END_ARRAY],
        Compound::Object => seq![END],
        Compound::StructVariant => seq![END, END],
    }
}

/// Relies on `ToString::to_string` for `char`: a string of that one character.
#[verifier::external_body]
fn char_to_string(c: char) -> (r: String)
    ensures
        r@ == seq![c],
{
    c.to_string()
}

/// Accumulates the encoding of the values described to it.
pub struct Serializer {
    output: Vec<u8>,
}

impl View for Serializer {
    type V = Seq<u8>;

    closed spec fn view(&self) -> Seq<u8> {
        self.output@
    }
}

impl Serializer {
    /// An encoder with nothing written yet.
    pub fn new() -> (r: Serializer)
        ensures
            r@ == Seq::<u8>::empty(),
    {
        Serializer { output: Vec::new() }
    }

    /// The bytes written so far.
    pub fn into_output(self) -> (r: Vec<u8>)
        ensures
            r@ == self@,
    {
        self.output
    }

    pub fn serialize_bool(&mut self, v: bool)
        ensures
            final(self)@ == old(self)@ + bool_bytes(v),
    {
        self.output.push(if v { TRUE } else { FALSE });
        assert(self@ =~= old(self)@ + bool_bytes(v));
    }

    pub fn serialize_i8(&mut self, v: i8)
        ensures
            final(self)@ == old(self)@ + int_bytes(INT8, v as int, 1),
    {
        self.output.push(INT8);
        let b: u8 = if v >= 0 { v as u8 } else { (v as i16 + 256) as u8 };
        self.output.push(b);
        proof {
            lemma_le_bytes_one(v as int);
        }
        assert(self@ =~= old(self)@ + int_bytes(INT8, v as int, 1));
    }

    pub fn serialize_i16(&mut self, v: i16)
        ensures
            final(self)@ == old(self)@ + int_bytes(INT16, v as int, 2),
    {
        self.output.push(INT16);
        let b = le_i16(v);
        append_bytes(&mut self.output, b.as_slice());
        assert(self@ =~= old(self)@ + int_bytes(INT16, v as int, 2));
    }

    pub fn serialize_i32(&mut self, v: i32)
        ensures
            final(self)@ == old(self)@ + int_bytes(INT32, v as int, 4),
    {
        self.output.push(INT32);
        let b = le_i32(v);
        append_bytes(&mut self.output, b.as_slice());
        assert(self@ =~= old(self)@ + int_bytes(INT32, v as int, 4));
    }

    pub fn serialize_i64(&mut self, v: i64)
        ensures
            final(self)@ == old(self)@ + int_bytes(INT64, v as int, 8),
    {
        self.output.push(INT64);
        let b = le_i64(v);
        append_bytes(&mut self.output, b.as_slice());
        assert(self@ =~= old(self)@ + int_bytes(INT64, v as int, 8));
    }

    pub fn serialize_u8(&mut self, v: u8)
        ensures
            final(self)@ == old(self)@ + int_bytes(INT8, v as int, 1),
    {
        self.output.push(INT8);
        self.output.push(v);
        proof {
            lemma_le_bytes_one(v as int);
        }
        assert(self@ =~= old(self)@ + int_bytes(INT8, v as int, 1));
    }

    pub fn serialize_u16(&mut self, v: u16)
        ensures
            final(self)@ == old(self)@ + int_bytes(INT16, v as int, 2),
    {
        self.output.push(INT16);
        let b = le_u16(v);
        append_bytes(&mut self.output, b.as_slice());
        assert(self@ =~= old(self)@ + int_bytes(INT16, v as int, 2));
    }

    pub fn serialize_u32(&mut self, v: u32)
        ensures
            final(self)@ == old(self)@ + int_bytes(INT32, v as int, 4),
    {
        self.output.push(INT32);
        let b = le_u32(v);
        append_bytes(&mut self.output, b.as_slice());
        assert(self@ =~= old(self)@ + int_bytes(INT32, v as int, 4));
    }

    pub fn serialize_u64(&mut self, v: u64)
        ensures
            final(self)@ == old(self)@ + int_bytes(INT64, v as int, 8),
    {
        self.output.push(INT64);
        let b = le_u64(v);
        append_bytes(&mut self.output, b.as_slice());
        assert(self@ =~= old(self)@ + int_bytes(INT64, v as int, 8));
    }

    /// A double, given by its IEEE-754 bit pattern (a single-precision
    /// value is widened to double precision before its bits are taken).
    pub fn serialize_f64(&mut self, bits: u64)
        ensures
            final(self)@ == old(self)@ + int_bytes(DOUBLE, bits as int, 8),
    {
        self.output.push(DOUBLE);
        let b = le_u64(bits);
        append_bytes(&mut self.output, b.as_slice());
        assert(self@ =~= old(self)@ + int_bytes(DOUBLE, bits as int, 8));
    }

    /// A character, as the string of that one character.
    pub fn serialize_char(&mut self, v: char)
        ensures
            final(self)@ == old(self)@ + string_bytes(seq![v]),
    {
        let s = char_to_string(v);
        self.serialize_str(s.as_str());
    }

    /// A string: the tag of the smallest length tier that holds its UTF-8
    /// length, the length, then the UTF-8 bytes.
    pub fn serialize_str(&mut self, v: &str)
        ensures
            final(self)@ == old(self)@ + string_bytes(v@),
    {
        let bytes = v.as_bytes();
        write_string_header(&mut self.output, bytes.len());
        append_bytes(&mut self.output, bytes);
        assert(self@ =~= old(self)@ + string_bytes(v@));
    }

    /// Raw bytes, with no tag and no length.
    pub fn serialize_bytes(&mut self, v: &[u8])
        ensures
            final(self)@ == old(self)@ + v@,
    {
        append_bytes(&mut self.output, v);
    }

    /// An absent optional: the unit byte.
    pub fn serialize_none(&mut self)
        ensures
            final(self)@ == old(self)@ + seq![UNIT],
    {
        self.serialize_unit();
    }

    /// A present optional: the value itself, with nothing around it.
    pub fn serialize_some(&mut self, value: &Value)
        ensures
            final(self)@ == old(self)@ + encoding(*value),
    {
        value.serialize(self);
    }

    pub fn serialize_unit(&mut self)
        ensures
            final(self)@ == old(self)@ + seq![UNIT],
    {
        self.output.push(UNIT);
    }

    /// A struct without fields: the unit byte.
    pub fn serialize_unit_struct(&mut self)
        ensures
            final(self)@ == old(self)@ + seq![UNIT],
    {
        self.serialize_unit();
    }

    /// A unit variant: the string `name:variant`.
    pub fn serialize_unit_variant(&mut self, name: &str, variant: &str)
        ensures
            final(self)@ == old(self)@ + string_bytes(name@ + seq![':'] + variant@),
    {
        let mut s = String::from_str(name);
        s.append(":");
        s.append(variant);
        proof {
            reveal_strlit(":");
        }
        assert(s@ =~= name@ + seq![':'] + variant@);
        self.serialize_str(s.as_str());
    }

    /// A single-field wrapper: the field alone.
    pub fn serialize_newtype_struct(&mut self, value: &Value)
        ensures
            final(self)@ == old(self)@ + encoding(*value),
    {
        value.serialize(self);
    }

    /// A variant with one field: the variant name as a string, then the field.
    pub fn serialize_newtype_variant(&mut self, variant: &str, value: &Value)
        ensures
            final(self)@ == old(self)@ + string_bytes(variant@) + encoding(*value),
    {
        self.serialize_str(variant);
        value.serialize(self);
    }

    /// Opens a sequence.
    pub fn serialize_seq(&mut self) -> (r: Compound)
        ensures
            final(self)@ == old(self)@ + seq![BEGIN_ARRAY],
            r == Compound::Array,
    {
        self.output.push(BEGIN_ARRAY);
        Compound::Array
    }

    /// Opens a tuple, written as a sequence.
    pub fn serialize_tuple(&mut self) -> (r: Compound)
        ensures
            final(self)@ == old(self)@ + seq![BEGIN_ARRAY],
            r == Compound::Array,
    {
        self.serialize_seq()
    }

    /// Opens a tuple struct, written as a sequence.
    pub fn serialize_tuple_struct(&mut self) -> (r: Compound)
        ensures
            final(self)@ == old(self)@ + seq![BEGIN_ARRAY],
            r == Compound::Array,
    {
        self.serialize_seq()
    }

    /// Opens a variant with unnamed fields: the variant name, then an array.
    pub fn serialize_tuple_variant(&mut self, variant: &str) -> (r: Compound)
        ensures
            final(self)@ == old(self)@ + string_bytes(variant@) + seq![BEGIN_ARRAY],
            r == Compound::Array,
    {
        self.serialize_str(variant);
        self.output.push(BEGIN_ARRAY);
        Compound::Array
    }

    /// Opens a map.
    pub fn serialize_map(&mut self) -> (r: Compound)
        ensures
            final(self)@ == old(self)@ + seq![BEGIN],
            r == Compound::Object,
    {
        self.output.push(BEGIN);
        Compound::Object
    }

    /// Opens a struct, written as a map from field names to values.
    pub fn serialize_struct(&mut self) -> (r: Compound)
        ensures
            final(self)@ == old(self)@ + seq![BEGIN],
            r == Compound::Object,
    {
        self.serialize_map()
    }

    /// Opens a variant with named fields: a map whose one key is the variant
    /// name, and whose value is a map of the fields.
    pub fn serialize_struct_variant(&mut self, variant: &str) -> (r: Compound)
        ensures
            final(self)@ == old(self)@ + seq![BEGIN] + string_bytes(variant@) + seq![BEGIN],
            r == Compound::StructVariant,
    {
        self.output.push(BEGIN);
        self.serialize_str(variant);
        self.output.push(BEGIN);
        Compound::StructVariant
    }

    /// An element of a sequence or tuple.
    pub fn serialize_element(&mut self, value: &Value)
        ensures
            final(self)@ == old(self)@ + encoding(*value),
    {
        value.serialize(self);
    }

    /// A named field: its name as a string, then its value.
    pub fn serialize_field(&mut self, key: &str, value: &Value)
        ensures
            final(self)@ == old(self)@ + string_bytes(key@) + encoding(*value),
    {
        self.serialize_str(key);
        value.serialize(self);
    }

    /// The key of a map entry.
    pub fn serialize_key(&mut self, key: &Value)
        ensures
            final(self)@ == old(self)@ + encoding(*key),
    {
        key.serialize(self);
    }

    /// The value of a map entry.
    pub fn serialize_value(&mut self, value: &Value)
        ensures
            final(self)@ == old(self)@ + encoding(*value),
    {
        value.serialize(self);
    }

    /// Closes a container of the given kind.
    pub fn end(&mut self, kind: Compound)
        ensures
            final(self)@ == old(self)@ + closing_bytes(kind),
    {
        match kind {
            Compound::Array => {
                self.output.push(END_ARRAY);
            },
            Compound::Object => {
                self.output.push(END);
            },
            Compound::StructVariant => {
                self.output.push(END);
                self.output.push(END);
            },
        }
        assert(self@ =~= old(self)@ + closing_bytes(kind));
    }
}

impl Value {
    /// Describes this value to `serializer`, which appends its encoding.
    pub fn serialize(&self, serializer: &mut Serializer)
        ensures
            final(serializer)@ == old(serializer)@ + encoding(*self),
        decreases self, 1int,
    {
        match self {
            Value::Bool(b) => serializer.serialize_bool(*b),
            Value::I8(n) => serializer.serialize_i8(*n),
            Value::I16(n) => serializer.serialize_i16(*n),
            Value::I32(n) => serializer.serialize_i32(*n),
            Value::I64(n) => serializer.serialize_i64(*n),
            Value::U8(n) => serializer.serialize_u8(*n),
            Value::U16(n) => serializer.serialize_u16(*n),
            Value::U32(n) => serializer.serialize_u32(*n),
            Value::U64(n) => serializer.serialize_u64(*n),
            Value::Double(bits) => serializer.serialize_f64(*bits),
            Value::Char(c) => serializer.serialize_char(*c),
            Value::Str(s) => serializer.serialize_str(s.as_str()),
            Value::Bytes(b) => serializer.serialize_bytes(b.as_slice()),
            Value::Unit => serializer.serialize_unit(),
            Value::UnitVariant(name, variant) => serializer.serialize_unit_variant(
                name.as_str(),
                variant.as_str(),
            ),
            Value::Newtype(inner) => inner.serialize(serializer),
            Value::NewtypeVariant(variant, inner) => {
                serializer.serialize_str(variant.as_str());
                inner.serialize(serializer);
                assert(serializer@ =~= old(serializer)@ + encoding(*self));
            },
            Value::Array(items) => {
                let kind = serializer.serialize_seq();
                serialize_items(items, serializer);
                serializer.end(kind);
                assert(serializer@ =~= old(serializer)@ + encoding(*self));
            },
            Value::TupleVariant(variant, items) => {
                let kind = serializer.serialize_tuple_variant(variant.as_str());
                serialize_items(items, serializer);
                serializer.end(kind);
                assert(serializer@ =~= old(serializer)@ + encoding(*self));
            },
            Value::Entries(entries) => {
                let kind = serializer.serialize_map();
                serialize_entries(entries, serializer);
                serializer.end(kind);
                assert(serializer@ =~= old(serializer)@ + encoding(*self));
            },
            Value::Struct(fields) => {
                let kind = serializer.serialize_struct();
                serialize_fields(fields, serializer);
                serializer.end(kind);
                assert(serializer@ =~= old(serializer)@ + encoding(*self));
            },
            Value::StructVariant(variant, fields) => {
                let kind = serializer.serialize_struct_variant(variant.as_str());
                serialize_fields(fields, serializer);
                serializer.end(kind);
                assert(serializer@ =~= old(serializer)@ + encoding(*self));
            },
        }
    }
}

/// Each of `items` in turn.
fn serialize_items(items: &Vec<Value>, serializer: &mut Serializer)
    ensures
        final(serializer)@ == old(serializer)@ + items_encoding(items@),
    decreases items, 0int,
{
    let mut i: usize = 0;
    while i < items.len()
        invariant
            0 <= i <= items@.len(),
            serializer@ == old(serializer)@ + items_encoding(items@.subrange(0, i as int)),
        decreases items@.len() - i,
    {
        items[i].serialize(serializer);
        assert(items@.subrange(0, i + 1).subrange(0, i as int) =~= items@.subrange(0, i as int));
        i = i + 1;
        assert(serializer@ =~= old(serializer)@ + items_encoding(items@.subrange(0, i as int)));
    }
    assert(items@.subrange(0, items@.len() as int) =~= items@);
}

/// Each entry in turn: its key, then its value.
fn serialize_entries(entries: &Vec<(Value, Value)>, serializer: &mut Serializer)
    ensures
        final(serializer)@ == old(serializer)@ + entries_encoding(entries@),
    decreases entries, 0int,
{
    let mut i: usize = 0;
    while i < entries.len()
        invariant
            0 <= i <= entries@.len(),
            serializer@ == old(serializer)@ + entries_encoding(entries@.subrange(0, i as int)),
        decreases entries@.len() - i,
    {
        entries[i].0.serialize(serializer);
        entries[i].1.serialize(serializer);
        assert(entries@.subrange(0, i + 1).subrange(0, i as int) =~= entries@.subrange(
            0,
            i as int,
        ));
        i = i + 1;
        assert(serializer@ =~= old(serializer)@ + entries_encoding(entries@.subrange(0, i as int)));
    }
    assert(entries@.subrange(0, entries@.len() as int) =~= entries@);
}

/// Each field in turn: its name, then its value.
fn serialize_fields(fields: &Vec<(String, Value)>, serializer: &mut Serializer)
    ensures
        final(serializer)@ == old(serializer)@ + fields_encoding(fields@),
    decreases fields, 0int,
{
    let mut i: usize = 0;
    while i < fields.len()
        invariant
            0 <= i <= fields@.len(),
            serializer@ == old(serializer)@ + fields_encoding(fields@.subrange(0, i as int)),
        decreases fields@.len() - i,
    {
        serializer.serialize_str(fields[i].0.as_str());
        fields[i].1.serialize(serializer);
        assert(fields@.subrange(0, i + 1).subrange(0, i as int) =~= fields@.subrange(
            0,
            i as int,
        ));
        i = i + 1;
        assert(serializer@ =~= old(serializer)@ + fields_encoding(fields@.subrange(0, i as int)));
    }
    assert(fields@.subrange(0, fields@.len() as int) =~= fields@);
}

/// Encodes `value` into a fresh buffer. Writing to memory cannot fail, so
/// the result is always the complete encoding.
pub fn to_binson(value: &Value) -> (r: Result<Vec<u8>, Error>)
    ensures
        r matches Ok(bytes) && bytes@ == encoding(*value),
{
    let mut serializer = Serializer::new();
    value.serialize(&mut serializer);
    Ok(serializer.into_output())
}

} // verus!
