//! The values that can be encoded, and the bytes each one encodes to.

use vstd::prelude::*;
use crate::wire::{
    bool_bytes, int_bytes, le_bytes, string_bytes, BEGIN, BEGIN_ARRAY, DOUBLE, END, END_ARRAY,
    INT16, INT32, INT64, INT8, UNIT,
};

verus! {

/// A structured value, built by the caller and read by the encoder.
pub enum Value {
    Bool(bool),
    I8(i8),
    I16(i16),
    I32(i32),
    I64(i64),
    /// Unsigned integers share the tags of the signed ones of the same width.
    U8(u8),
    U16(u16),
    U32(u32),
    U64(u64),
    /// A double, given by its IEEE-754 bit pattern.
    Double(u64),
    /// Encoded as a string of one character.
    Char(char),
    Str(String),
    /// Raw bytes, written as they are: no tag, no length.
    Bytes(Vec<u8>),
    /// The unit value, an absent optional, or a unit struct.
    Unit,
    /// A unit variant, given by its type name and variant name.
    UnitVariant(String, String),
    /// A single-field wrapper: encoded exactly as what it wraps.
    Newtype(Box<Value>),
    /// A variant with one field: the variant name, then the field.
    NewtypeVariant(String, Box<Value>),
    /// A sequence, tuple or tuple struct.
    Array(Vec<Value>),
    /// A variant with unnamed fields: the variant name, then an array of them.
    TupleVariant(String, Vec<Value>),
    /// Key/value pairs in the caller's order.
    Entries(Vec<(Value, Value)>),
    /// Named fields in declaration order.
    Struct(Vec<(String, Value)>),
    /// A variant with named fields: a map of one entry, the variant name to a map of the fields.
    StructVariant(String, Vec<(String, Value)>),
}

/// The bytes of a value, depth first, containers opened before their contents and closed after.
pub open spec fn encoding(v: Value) -> Seq<u8>
    decreases v,
{
    match v {
        Value::Bool(b) => bool_bytes(b),
        Value::I8(n) => int_bytes(INT8, n as int, 1),
        Value::I16(n) => int_bytes(INT16, n as int, 2),
        Value::I32(n) => int_bytes(INT32, n as int, 4),
        Value::I64(n) => int_bytes(INT64, n as int, 8),
        Value::U8(n) => int_bytes(INT8, n as int, 1),
        Value::U16(n) => int_bytes(INT16, n as int, 2),
        Value::U32(n) => int_bytes(INT32, n as int, 4),
        Value::U64(n) => int_bytes(INT64, n as int, 8),
        Value::Double(bits) => int_bytes(DOUBLE, bits as int, 8),
        Value::Char(c) => string_bytes(seq![c]),
        Value::Str(s) => string_bytes(s@),
        Value::Bytes(b) => b@,
        Value::Unit => seq![UNIT],
        Value::UnitVariant(name, variant) => string_bytes(name@ + seq![':'] + variant@),
        Value::Newtype(inner) => encoding(*inner),
        Value::NewtypeVariant(variant, inner) => string_bytes(variant@) + encoding(*inner),
        Value::Array(items) => seq![BEGIN_ARRAY] + items_encoding(items@) + seq![END_ARRAY],
        Value::TupleVariant(variant, items) => string_bytes(variant@) + seq![BEGIN_ARRAY]
            + items_encoding(items@) + seq![END_ARRAY],
        Value::Entries(entries) => seq![BEGIN] + entries_encoding(entries@) + seq![END],
        Value::Struct(fields) => seq![BEGIN] + fields_encoding(fields@) + seq![END],
        Value::StructVariant(variant, fields) => seq![BEGIN] + string_bytes(variant@) + seq![BEGIN]
            + fields_encoding(fields@) + seq![END, END],
    }
}

/// The encodings of `items`, one after another.
pub open spec fn items_encoding(items: Seq<Value>) -> Seq<u8>
    decreases items,
{
    if items.len() == 0 {
        Seq::empty()
    } else {
        items_encoding(items.subrange(0, items.len() - 1)) + encoding(items[items.len() - 1])
    }
}

/// Each entry's key, then its value, entry after entry.
pub open spec fn entries_encoding(entries: Seq<(Value, Value)>) -> Seq<u8>
    decreases entries,
{
    if entries.len() == 0 {
        Seq::empty()
    } else {
        entries_encoding(entries.subrange(0, entries.len() - 1)) + encoding(
            entries[entries.len() - 1].0,
        ) + encoding(entries[entries.len() - 1].1)
    }
}

/// Each field's name as a string, then its value, field after field.
pub open spec fn fields_encoding(fields: Seq<(String, Value)>) -> Seq<u8>
    decreases fields,
{
    if fields.len() == 0 {
        Seq::empty()
    } else {
        fields_encoding(fields.subrange(0, fields.len() - 1)) + string_bytes(
            fields[fields.len() - 1].0@,
        ) + encoding(fields[fields.len() - 1].1)
    }
}

/// Two values describe the same graph: same variants, same scalars, and
/// strings, byte strings and children that agree by content.
pub open spec fn same_graph(a: Value, b: Value) -> bool
    decreases a, 1int,
{
    match a {
        Value::Str(x) => b matches Value::Str(y) && x@ == y@,
        Value::Bytes(x) => b matches Value::Bytes(y) && x@ == y@,
        Value::UnitVariant(n, x) => b matches Value::UnitVariant(m, y) && n@ == m@ && x@ == y@,
        Value::Newtype(x) => b matches Value::Newtype(y) && same_graph(*x, *y),
        Value::NewtypeVariant(n, x) => b matches Value::NewtypeVariant(m, y) && n@ == m@
            && same_graph(*x, *y),
        Value::Array(x) => b matches Value::Array(y) && same_items(x@, y@),
        Value::TupleVariant(n, x) => b matches Value::TupleVariant(m, y) && n@ == m@ && same_items(
            x@,
            y@,
        ),
        Value::Entries(x) => b matches Value::Entries(y) && same_entries(x@, y@),
        Value::Struct(x) => b matches Value::Struct(y) && same_fields(x@, y@),
        Value::StructVariant(n, x) => b matches Value::StructVariant(m, y) && n@ == m@
            && same_fields(x@, y@),
        _ => a == b,
    }
}

/// Two lists of values that agree element by element.
pub open spec fn same_items(a: Seq<Value>, b: Seq<Value>) -> bool
    decreases a, 0int,
{
    a.len() == b.len() && (a.len() > 0 ==> same_items(
        a.subrange(0, a.len() - 1),
        b.subrange(0, b.len() - 1),
    ) && same_graph(a[a.len() - 1], b[b.len() - 1]))
}

/// Two lists of entries that agree entry by entry.
pub open spec fn same_entries(a: Seq<(Value, Value)>, b: Seq<(Value, Value)>) -> bool
    decreases a, 0int,
{
    a.len() == b.len() && (a.len() > 0 ==> same_entries(
        a.subrange(0, a.len() - 1),
        b.subrange(0, b.len() - 1),
    ) && same_graph(a[a.len() - 1].0, b[b.len() - 1].0) && same_graph(
        a[a.len() - 1].1,
        b[b.len() - 1].1,
    ))
}

/// Two lists of fields that agree field by field.
pub open spec fn same_fields(a: Seq<(String, Value)>, b: Seq<(String, Value)>) -> bool
    decreases a, 0int,
{
    a.len() == b.len() && (a.len() > 0 ==> same_fields(
        a.subrange(0, a.len() - 1),
        b.subrange(0, b.len() - 1),
    ) && a[a.len() - 1].0@ == b[b.len() - 1].0@ && same_graph(a[a.len() - 1].1, b[b.len() - 1].1))
}

/// Encoding is deterministic: two values that describe the same graph,
/// however they were built, encode to the same bytes.
pub proof fn lemma_encoding_deterministic(a: Value, b: Value)
    requires
        same_graph(a, b),
    ensures
        encoding(a) == encoding(b),
    decreases a, 1int,
{
    match a {
        Value::Newtype(x) => {
            let y = b->Newtype_0;
            lemma_encoding_deterministic(*x, *y);
        },
        Value::NewtypeVariant(_, x) => {
            let y = b->NewtypeVariant_1;
            lemma_encoding_deterministic(*x, *y);
        },
        Value::Array(x) => lemma_items_deterministic(x@, b->Array_0@),
        Value::TupleVariant(_, x) => lemma_items_deterministic(x@, b->TupleVariant_1@),
        Value::Entries(x) => lemma_entries_deterministic(x@, b->Entries_0@),
        Value::Struct(x) => lemma_fields_deterministic(x@, b->Struct_0@),
        Value::StructVariant(_, x) => lemma_fields_deterministic(x@, b->StructVariant_1@),
        _ => {},
    }
}

proof fn lemma_items_deterministic(a: Seq<Value>, b: Seq<Value>)
    requires
        same_items(a, b),
    ensures
        items_encoding(a) == items_encoding(b),
    decreases a, 0int,
{
    if a.len() > 0 {
        lemma_items_deterministic(a.subrange(0, a.len() - 1), b.subrange(0, b.len() - 1));
        lemma_encoding_deterministic(a[a.len() - 1], b[b.len() - 1]);
    }
}

proof fn lemma_entries_deterministic(a: Seq<(Value, Value)>, b: Seq<(Value, Value)>)
    requires
        same_entries(a, b),
    ensures
        entries_encoding(a) == entries_encoding(b),
    decreases a, 0int,
{
    if a.len() > 0 {
        lemma_entries_deterministic(a.subrange(0, a.len() - 1), b.subrange(0, b.len() - 1));
        lemma_encoding_deterministic(a[a.len() - 1].0, b[b.len() - 1].0);
        lemma_encoding_deterministic(a[a.len() - 1].1, b[b.len() - 1].1);
    }
}

proof fn lemma_fields_deterministic(a: Seq<(String, Value)>, b: Seq<(String, Value)>)
    requires
        same_fields(a, b),
    ensures
        fields_encoding(a) == fields_encoding(b),
    decreases a, 0int,
{
    if a.len() > 0 {
        lemma_fields_deterministic(a.subrange(0, a.len() - 1), b.subrange(0, b.len() - 1));
        lemma_encoding_deterministic(a[a.len() - 1].1, b[b.len() - 1].1);
    }
}

proof fn lemma_fields_concat(a: Seq<(String, Value)>, b: Seq<(String, Value)>)
    ensures
        fields_encoding(a + b) == fields_encoding(a) + fields_encoding(b),
    decreases b.len(),
{
    if b.len() == 0 {
        assert(a + b =~= a);
        assert(fields_encoding(a) + fields_encoding(b) =~= fields_encoding(a));
    } else {
        let n = b.len() - 1;
        lemma_fields_concat(a, b.subrange(0, n));
        assert((a + b).subrange(0, a.len() + n) =~= a + b.subrange(0, n));
        assert((a + b)[a.len() + n] == b[n]);
        assert(fields_encoding(a + b) =~= fields_encoding(a) + fields_encoding(b));
    }
}

proof fn lemma_entries_concat(a: Seq<(Value, Value)>, b: Seq<(Value, Value)>)
    ensures
        entries_encoding(a + b) == entries_encoding(a) + entries_encoding(b),
    decreases b.len(),
{
    if b.len() == 0 {
        assert(a + b =~= a);
        assert(entries_encoding(a) + entries_encoding(b) =~= entries_encoding(a));
    } else {
        let n = b.len() - 1;
        lemma_entries_concat(a, b.subrange(0, n));
        assert((a + b).subrange(0, a.len() + n) =~= a + b.subrange(0, n));
        assert((a + b)[a.len() + n] == b[n]);
        assert(entries_encoding(a + b) =~= entries_encoding(a) + entries_encoding(b));
    }
}

/// Fields keep their declaration order: the bytes of field `i` (its name,
/// then its value) come after those of every earlier field and before
/// those of every later one. Nothing is sorted or dropped.
pub proof fn lemma_field_order(fields: Seq<(String, Value)>, i: int)
    requires
        0 <= i < fields.len(),
    ensures
        fields_encoding(fields) == fields_encoding(fields.subrange(0, i)) + string_bytes(
            fields[i].0@,
        ) + encoding(fields[i].1) + fields_encoding(fields.subrange(i + 1, fields.len() as int)),
{
    let one = seq![fields[i]];
    assert(one.subrange(0, 0) =~= Seq::<(String, Value)>::empty());
    assert(fields_encoding(one.subrange(0, 0)) == Seq::<u8>::empty());
    assert(one[0] == fields[i]);
    assert(fields_encoding(one) =~= string_bytes(fields[i].0@) + encoding(fields[i].1));
    lemma_fields_concat(fields.subrange(0, i), one);
    lemma_fields_concat(
        fields.subrange(0, i) + one,
        fields.subrange(i + 1, fields.len() as int),
    );
    assert(fields =~= fields.subrange(0, i) + one + fields.subrange(i + 1, fields.len() as int));
}

/// Map entries keep their insertion order: the bytes of entry `i` (its key,
/// then its value) come after those of every earlier entry and before those
/// of every later one. Nothing is sorted or dropped.
pub proof fn lemma_entry_order(entries: Seq<(Value, Value)>, i: int)
    requires
        0 <= i < entries.len(),
    ensures
        entries_encoding(entries) == entries_encoding(entries.subrange(0, i)) + encoding(
            entries[i].0,
        ) + encoding(entries[i].1) + entries_encoding(
            entries.subrange(i + 1, entries.len() as int),
        ),
{
    let one = seq![entries[i]];
    assert(one.subrange(0, 0) =~= Seq::<(Value, Value)>::empty());
    assert(entries_encoding(one.subrange(0, 0)) == Seq::<u8>::empty());
    assert(one[0] == entries[i]);
    assert(entries_encoding(one) =~= encoding(entries[i].0) + encoding(entries[i].1));
    lemma_entries_concat(entries.subrange(0, i), one);
    lemma_entries_concat(
        entries.subrange(0, i) + one,
        entries.subrange(i + 1, entries.len() as int),
    );
    assert(entries =~= entries.subrange(0, i) + one + entries.subrange(
        i + 1,
        entries.len() as int,
    ));
}

} // verus!
