//! The encoding seen as a stream of tokens: container markers, and the runs
//! of bytes that lie between them. Container markers come in matched pairs.

use vstd::prelude::*;
use crate::value::{encoding, entries_encoding, fields_encoding, items_encoding, Value};
use crate::wire::{string_bytes, BEGIN, BEGIN_ARRAY, END, END_ARRAY};

verus! {

/// A piece of the encoding.
pub enum Token {
    /// A byte that opens or closes a container.
    Marker(u8),
    /// Any other bytes: a scalar with its tag, a string, raw bytes.
    Data(Seq<u8>),
}

/// The bytes of one token.
pub open spec fn token_bytes(t: Token) -> Seq<u8> {
    match t {
        Token::Marker(b) => seq![b],
        Token::Data(d) => d,
    }
}

/// The bytes of a token stream, in order.
pub open spec fn flatten(ts: Seq<Token>) -> Seq<u8>
    decreases ts.len(),
{
    if ts.len() == 0 {
        Seq::empty()
    } else {
        flatten(ts.drop_last()) + token_bytes(ts.last())
    }
}

/// How many tokens of the stream are the marker `m`.
pub open spec fn count_marker(ts: Seq<Token>, m: u8) -> nat
    decreases ts.len(),
{
    if ts.len() == 0 {
        0
    } else {
        count_marker(ts.drop_last(), m) + if ts.last() == Token::Marker(m) {
            1nat
        } else {
            0nat
        }
    }
}

/// Every container opened in the stream is closed in it.
pub open spec fn balanced(ts: Seq<Token>) -> bool {
    &&& count_marker(ts, BEGIN_ARRAY) == count_marker(ts, END_ARRAY)
    &&& count_marker(ts, BEGIN) == count_marker(ts, END)
}

/// The tokens of a value, in the order its bytes are written.
pub open spec fn tokens(v: Value) -> Seq<Token>
    decreases v,
{
    match v {
        Value::Newtype(inner) => tokens(*inner),
        Value::NewtypeVariant(variant, inner) => seq![Token::Data(string_bytes(variant@))]
            + tokens(*inner),
        Value::Array(items) => seq![Token::Marker(BEGIN_ARRAY)] + items_tokens(items@) + seq![
            Token::Marker(END_ARRAY),
        ],
        Value::TupleVariant(variant, items) => seq![
            Token::Data(string_bytes(variant@)),
            Token::Marker(BEGIN_ARRAY),
        ] + items_tokens(items@) + seq![Token::Marker(END_ARRAY)],
        Value::Entries(entries) => seq![Token::Marker(BEGIN)] + entries_tokens(entries@) + seq![
            Token::Marker(END),
        ],
        Value::Struct(fields) => seq![Token::Marker(BEGIN)] + fields_tokens(fields@) + seq![
            Token::Marker(END),
        ],
        Value::StructVariant(variant, fields) => seq![
            Token::Marker(BEGIN),
            Token::Data(string_bytes(variant@)),
            Token::Marker(BEGIN),
        ] + fields_tokens(fields@) + seq![Token::Marker(END), Token::Marker(END)],
        _ => seq![Token::Data(encoding(v))],
    }
}

/// The tokens of `items`, one after another.
pub open spec fn items_tokens(items: Seq<Value>) -> Seq<Token>
    decreases items,
{
    if items.len() == 0 {
        Seq::empty()
    } else {
        items_tokens(items.subrange(0, items.len() - 1)) + tokens(items[items.len() - 1])
    }
}

/// The tokens of each entry's key, then its value.
pub open spec fn entries_tokens(entries: Seq<(Value, Value)>) -> Seq<Token>
    decreases entries,
{
    if entries.len() == 0 {
        Seq::empty()
    } else {
        entries_tokens(entries.subrange(0, entries.len() - 1)) + tokens(
            entries[entries.len() - 1].0,
        ) + tokens(entries[entries.len() - 1].1)
    }
}

/// Each field's name as a data token, then the tokens of its value.
pub open spec fn fields_tokens(fields: Seq<(String, Value)>) -> Seq<Token>
    decreases fields,
{
    if fields.len() == 0 {
        Seq::empty()
    } else {
        fields_tokens(fields.subrange(0, fields.len() - 1)) + seq![
            Token::Data(string_bytes(fields[fields.len() - 1].0@)),
        ] + tokens(fields[fields.len() - 1].1)
    }
}

proof fn lemma_flatten_concat(a: Seq<Token>, b: Seq<Token>)
    ensures
        flatten(a + b) == flatten(a) + flatten(b),
        forall|m: u8| #[trigger]
            count_marker(a + b, m) == count_marker(a, m) + count_marker(b, m),
    decreases b.len(),
{
    if b.len() == 0 {
        assert(a + b =~= a);
        assert(flatten(a) + flatten(b) =~= flatten(a));
        assert forall|m: u8| #[trigger]
            count_marker(a + b, m) == count_marker(a, m) + count_marker(b, m) by {}
    } else {
        lemma_flatten_concat(a, b.drop_last());
        assert((a + b).drop_last() =~= a + b.drop_last());
        assert((a + b).last() == b.last());
        assert(flatten(a + b) =~= flatten(a) + flatten(b));
        assert forall|m: u8| #[trigger]
            count_marker(a + b, m) == count_marker(a, m) + count_marker(b, m) by {
            assert(count_marker(a + b.drop_last(), m) == count_marker(a, m) + count_marker(
                b.drop_last(),
                m,
            ));
        }
    }
}

proof fn lemma_concat3(a: Seq<Token>, b: Seq<Token>, c: Seq<Token>)
    ensures
        flatten(a + b + c) == flatten(a) + flatten(b) + flatten(c),
        forall|m: u8| #[trigger]
            count_marker(a + b + c, m) == count_marker(a, m) + count_marker(b, m) + count_marker(
                c,
                m,
            ),
{
    lemma_flatten_concat(a, b);
    lemma_flatten_concat(a + b, c);
    assert forall|m: u8| #[trigger]
        count_marker(a + b + c, m) == count_marker(a, m) + count_marker(b, m) + count_marker(
            c,
            m,
        ) by {
        assert(count_marker(a + b, m) == count_marker(a, m) + count_marker(b, m));
    }
}

proof fn lemma_singletons(t: Token, u: Token)
    ensures
        flatten(seq![t]) == token_bytes(t),
        flatten(seq![t, u]) == token_bytes(t) + token_bytes(u),
        forall|m: u8|
            #[trigger] count_marker(seq![t], m) == if t == Token::Marker(m) {
                1nat
            } else {
                0nat
            },
{
    let e = Seq::<Token>::empty();
    assert(seq![t].drop_last() =~= e);
    assert(seq![t, u].drop_last() =~= seq![t]);
    assert(flatten(e) == Seq::<u8>::empty());
    assert forall|m: u8|
        #[trigger] count_marker(seq![t], m) == if t == Token::Marker(m) {
            1nat
        } else {
            0nat
        } by {
        assert(count_marker(e, m) == 0);
        assert(seq![t].last() == t);
    }
    assert(flatten(seq![t]) =~= token_bytes(t));
}

/// The markers of one value's encoding are balanced, and its tokens spell
/// out exactly its encoding.
pub proof fn lemma_value_balanced(v: Value)
    ensures
        flatten(tokens(v)) == encoding(v),
        balanced(tokens(v)),
    decreases v, 1int,
{
    let ba = Token::Marker(BEGIN_ARRAY);
    let ea = Token::Marker(END_ARRAY);
    let bm = Token::Marker(BEGIN);
    let em = Token::Marker(END);
    lemma_singletons(ba, ea);
    lemma_singletons(bm, em);
    lemma_singletons(em, em);
    lemma_singletons(ea, ea);
    assert(count_marker(seq![ba], BEGIN_ARRAY) == 1);
    assert(count_marker(seq![ea], END_ARRAY) == 1);
    assert(count_marker(seq![bm], BEGIN) == 1);
    assert(count_marker(seq![em], END) == 1);
    match v {
        Value::Newtype(inner) => {
            lemma_value_balanced(*inner);
        },
        Value::NewtypeVariant(variant, inner) => {
            let d = Token::Data(string_bytes(variant@));
            lemma_singletons(d, d);
            lemma_value_balanced(*inner);
            lemma_flatten_concat(seq![d], tokens(*inner));
        },
        Value::Array(items) => {
            lemma_items_balanced(items@);
            lemma_concat3(seq![ba], items_tokens(items@), seq![ea]);
            assert(flatten(tokens(v)) =~= encoding(v));
        },
        Value::TupleVariant(variant, items) => {
            let d = Token::Data(string_bytes(variant@));
            lemma_singletons(d, ba);
            assert(seq![d, ba] =~= seq![d] + seq![ba]);
            lemma_flatten_concat(seq![d], seq![ba]);
            lemma_items_balanced(items@);
            lemma_concat3(seq![d, ba], items_tokens(items@), seq![ea]);
            assert(flatten(tokens(v)) =~= encoding(v));
        },
        Value::Entries(entries) => {
            lemma_entries_balanced(entries@);
            lemma_concat3(seq![bm], entries_tokens(entries@), seq![em]);
            assert(flatten(tokens(v)) =~= encoding(v));
        },
        Value::Struct(fields) => {
            lemma_fields_balanced(fields@);
            lemma_concat3(seq![bm], fields_tokens(fields@), seq![em]);
            assert(flatten(tokens(v)) =~= encoding(v));
        },
        Value::StructVariant(variant, fields) => {
            let d = Token::Data(string_bytes(variant@));
            lemma_singletons(d, bm);
            lemma_singletons(bm, d);
            let head = seq![bm, d, bm];
            assert(head =~= seq![bm] + seq![d] + seq![bm]);
            lemma_concat3(seq![bm], seq![d], seq![bm]);
            assert(seq![em, em] =~= seq![em] + seq![em]);
            lemma_flatten_concat(seq![em], seq![em]);
            lemma_fields_balanced(fields@);
            lemma_concat3(head, fields_tokens(fields@), seq![em, em]);
            assert(flatten(tokens(v)) =~= encoding(v));
        },
        _ => {
            lemma_singletons(Token::Data(encoding(v)), bm);
        },
    }
}

proof fn lemma_items_balanced(items: Seq<Value>)
    ensures
        flatten(items_tokens(items)) == items_encoding(items),
        balanced(items_tokens(items)),
    decreases items, 0int,
{
    if items.len() > 0 {
        let rest = items.subrange(0, items.len() - 1);
        lemma_items_balanced(rest);
        lemma_value_balanced(items[items.len() - 1]);
        lemma_flatten_concat(items_tokens(rest), tokens(items[items.len() - 1]));
    }
}

proof fn lemma_entries_balanced(entries: Seq<(Value, Value)>)
    ensures
        flatten(entries_tokens(entries)) == entries_encoding(entries),
        balanced(entries_tokens(entries)),
    decreases entries, 0int,
{
    if entries.len() > 0 {
        let rest = entries.subrange(0, entries.len() - 1);
        let last = entries[entries.len() - 1];
        lemma_entries_balanced(rest);
        lemma_value_balanced(last.0);
        lemma_value_balanced(last.1);
        lemma_concat3(entries_tokens(rest), tokens(last.0), tokens(last.1));
    }
}

proof fn lemma_fields_balanced(fields: Seq<(String, Value)>)
    ensures
        flatten(fields_tokens(fields)) == fields_encoding(fields),
        balanced(fields_tokens(fields)),
    decreases fields, 0int,
{
    if fields.len() > 0 {
        let rest = fields.subrange(0, fields.len() - 1);
        let last = fields[fields.len() - 1];
        let d = Token::Data(string_bytes(last.0@));
        lemma_fields_balanced(rest);
        lemma_value_balanced(last.1);
        lemma_singletons(d, d);
        lemma_concat3(fields_tokens(rest), seq![d], tokens(last.1));
    }
}

} // verus!
