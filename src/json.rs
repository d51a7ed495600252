use vstd::prelude::*;

use crate::wire::{base64_of, WireValue};

verus! {

/// A JSON number: a non-negative or a negative integer, or a finite float (as its IEEE-754
/// bit pattern).
#[derive(Debug, Clone, Copy, PartialEq, Eq)]
pub enum JsonNumber {
    PosInt(u64),
    NegInt(i64),
    Float(u64),
}

/// A generic structured document: the form in which rows are mapped onto application records.
#[derive(Debug, PartialEq, Eq)]
pub enum JsonValue {
    Null,
    Bool(bool),
    Number(JsonNumber),
    String(String),
    Array(Vec<JsonValue>),
    /// Entries in order; lookups read the first entry of a key. The documents this library
    /// builds hold their keys as [`keys_ordered`] says.
    Object(Vec<(String, JsonValue)>),
}

/// The JSON number for an integer.
pub open spec fn int_number(n: i64) -> JsonNumber {
    if n < 0 {
        JsonNumber::NegInt(n)
    } else {
        JsonNumber::PosInt(n as u64)
    }
}

/// Whether the float with bit pattern `bits` is finite (its exponent is not all ones).
pub open spec fn is_finite_bits(bits: u64) -> bool {
    (bits >> 52u64) & 0x7ffu64 != 0x7ffu64
}

/// Whether `j` is the document value of the cell `v`: byte strings become base64 text,
/// timestamps their microsecond count, and non-finite floats null.
pub open spec fn json_of_cell(v: WireValue, j: JsonValue) -> bool {
    match v {
        WireValue::Null => j == JsonValue::Null,
        WireValue::Integer(n) => j == JsonValue::Number(int_number(n)),
        WireValue::Float(bits) => if is_finite_bits(bits) {
            j == JsonValue::Number(JsonNumber::Float(bits))
        } else {
            j == JsonValue::Null
        },
        WireValue::Boolean(b) => j == JsonValue::Bool(b),
        WireValue::Utf8String(s) => j == JsonValue::String(s),
        WireValue::ByteString(b) => j is String && j->String_0@ == base64_of(b@),
        WireValue::Timestamp(t) => j == JsonValue::Number(int_number(t)),
    }
}

fn number_of_int(n: i64) -> (r: JsonNumber)
    ensures
        r == int_number(n),
{
    if n < 0 {
        JsonNumber::NegInt(n)
    } else {
        JsonNumber::PosInt(n as u64)
    }
}

/// The document value of a result cell.
pub fn cell_to_json(v: &WireValue) -> (j: JsonValue)
    requires
        v.fits(),
    ensures
        json_of_cell(*v, j),
{
    match v {
        WireValue::Null => JsonValue::Null,
        WireValue::Integer(n) => JsonValue::Number(number_of_int(*n)),
        WireValue::Float(bits) => {
            if (*bits >> 52u64) & 0x7ffu64 != 0x7ffu64 {
                JsonValue::Number(JsonNumber::Float(*bits))
            } else {
                JsonValue::Null
            }
        },
        WireValue::Boolean(b) => JsonValue::Bool(*b),
        WireValue::Utf8String(s) => JsonValue::String(s.clone()),
        WireValue::ByteString(b) => JsonValue::String(crate::wire::base64_text(b.as_slice())),
        WireValue::Timestamp(t) => JsonValue::Number(number_of_int(*t)),
    }
}

/// Position of the first entry keyed `k`, or -1 when there is none.
pub open spec fn key_index(entries: Seq<(String, JsonValue)>, k: Seq<char>) -> int
    decreases entries.len(),
{
    if entries.len() == 0 {
        -1
    } else if key_index(entries.drop_last(), k) >= 0 {
        key_index(entries.drop_last(), k)
    } else if entries.last().0@ == k {
        entries.len() - 1
    } else {
        -1
    }
}

/// The value of the first entry keyed `k`.
pub open spec fn lookup(entries: Seq<(String, JsonValue)>, k: Seq<char>) -> Option<JsonValue> {
    let i = key_index(entries, k);
    if 0 <= i < entries.len() {
        Some(entries[i].1)
    } else {
        None
    }
}

/// The value at `k` of an object; nothing for any other value.
pub open spec fn member(v: JsonValue, k: Seq<char>) -> Option<JsonValue> {
    match v {
        JsonValue::Object(entries) => lookup(entries@, k),
        _ => None,
    }
}

pub proof fn lemma_key_index_bounds(entries: Seq<(String, JsonValue)>, k: Seq<char>)
    ensures
        -1 <= key_index(entries, k) < entries.len(),
        key_index(entries, k) >= 0 ==> entries[key_index(entries, k)].0@ == k,
    decreases entries.len(),
{
    if entries.len() > 0 {
        lemma_key_index_bounds(entries.drop_last(), k);
    }
}

proof fn lemma_key_index_prefix(entries: Seq<(String, JsonValue)>, k: Seq<char>, j: int)
    requires
        0 <= j <= entries.len(),
    ensures
        key_index(entries.subrange(0, j), k) >= 0 ==> key_index(entries, k) == key_index(
            entries.subrange(0, j),
            k,
        ),
        key_index(entries.subrange(0, j), k) < 0 && j < entries.len() && entries[j].0@ == k
            ==> key_index(entries, k) == j,
    decreases entries.len() - j,
{
    if j < entries.len() {
        assert(entries.subrange(0, j + 1).drop_last() =~= entries.subrange(0, j));
        lemma_key_index_prefix(entries, k, j + 1);
    } else {
        assert(entries.subrange(0, j) =~= entries);
    }
}

/// The position of the first entry keyed `key`.
pub fn find_key(entries: &Vec<(String, JsonValue)>, key: &str) -> (r: Option<usize>)
    ensures
        match r {
            Some(i) => i as int == key_index(entries@, key@),
            None => key_index(entries@, key@) == -1,
        },
{
    let k = String::from_str(key);
    let mut p: usize = 0;
    while p < entries.len()
        invariant
            p <= entries@.len(),
            k@ == key@,
            key_index(entries@.subrange(0, p as int), key@) == -1,
        decreases entries@.len() - p,
    {
        if entries[p].0 == k {
            proof {
                lemma_key_index_prefix(entries@, key@, p as int);
            }
            return Some(p);
        }
        assert(entries@.subrange(0, p + 1).drop_last() =~= entries@.subrange(0, p as int));
        p = p + 1;
    }
    assert(entries@.subrange(0, p as int) =~= entries@);
    None
}

impl JsonValue {
    /// The value at `key` of an object.
    pub fn get(&self, key: &str) -> (r: Option<&JsonValue>)
        ensures
            match r {
                Some(v) => member(*self, key@) == Some(*v),
                None => member(*self, key@) is None,
            },
    {
        match self {
            JsonValue::Object(entries) => match find_key(entries, key) {
                Some(i) => {
                    proof {
                        lemma_key_index_bounds(entries@, key@);
                    }
                    Some(&entries[i].1)
                },
                None => None,
            },
            _ => None,
        }
    }

    pub fn as_str(&self) -> (r: Option<&String>)
        ensures
            match r {
                Some(s) => *self == JsonValue::String(*s),
                None => !(*self is String),
            },
    {
        match self {
            JsonValue::String(s) => Some(s),
            _ => None,
        }
    }

    /// A non-negative integer.
    pub fn as_u64(&self) -> (r: Option<u64>)
        ensures
            match r {
                Some(n) => *self == JsonValue::Number(JsonNumber::PosInt(n)),
                None => !(*self matches JsonValue::Number(JsonNumber::PosInt(_))),
            },
    {
        match self {
            JsonValue::Number(JsonNumber::PosInt(n)) => Some(*n),
            _ => None,
        }
    }

    pub fn as_bool(&self) -> (r: Option<bool>)
        ensures
            match r {
                Some(b) => *self == JsonValue::Bool(b),
                None => !(*self is Bool),
            },
    {
        match self {
            JsonValue::Bool(b) => Some(*b),
            _ => None,
        }
    }

    pub fn as_array(&self) -> (r: Option<&Vec<JsonValue>>)
        ensures
            match r {
                Some(a) => *self == JsonValue::Array(*a),
                None => !(*self is Array),
            },
    {
        match self {
            JsonValue::Array(a) => Some(a),
            _ => None,
        }
    }
}

/// Whether key `a` comes before key `b`: lexicographic order by code point, as a key-ordered
/// map of strings keeps them.
pub open spec fn key_lt(a: Seq<char>, b: Seq<char>) -> bool
    decreases a.len(),
{
    if a.len() == 0 {
        b.len() > 0
    } else if b.len() == 0 {
        false
    } else if a[0] != b[0] {
        (a[0] as int) < (b[0] as int)
    } else {
        key_lt(a.drop_first(), b.drop_first())
    }
}

/// Object entries as a key-ordered map holds them: keys strictly ascending, hence distinct.
pub open spec fn keys_ordered(entries: Seq<(String, JsonValue)>) -> bool {
    forall|a: int, b: int|
        0 <= a < b < entries.len() ==> key_lt(#[trigger] entries[a].0@, #[trigger] entries[b].0@)
}

pub proof fn lemma_key_lt_irreflexive(a: Seq<char>)
    ensures
        !key_lt(a, a),
    decreases a.len(),
{
    if a.len() > 0 {
        lemma_key_lt_irreflexive(a.drop_first());
    }
}

pub proof fn lemma_key_lt_transitive(a: Seq<char>, b: Seq<char>, c: Seq<char>)
    requires
        key_lt(a, b),
        key_lt(b, c),
    ensures
        key_lt(a, c),
    decreases a.len(),
{
    if a.len() > 0 && b.len() > 0 && c.len() > 0 && a[0] == b[0] && b[0] == c[0] {
        lemma_key_lt_transitive(a.drop_first(), b.drop_first(), c.drop_first());
    }
}

pub proof fn lemma_key_lt_total(a: Seq<char>, b: Seq<char>)
    ensures
        a == b || key_lt(a, b) || key_lt(b, a),
    decreases a.len(),
{
    if a.len() == 0 && b.len() == 0 {
        assert(a =~= b);
    } else if a.len() > 0 && b.len() > 0 && a[0] == b[0] {
        lemma_key_lt_total(a.drop_first(), b.drop_first());
        if a.drop_first() == b.drop_first() {
            assert(a.len() == b.len());
            assert forall|i: int| 0 <= i < a.len() implies a[i] == b[i] by {
                if i > 0 {
                    assert(a[i] == a.drop_first()[i - 1]);
                    assert(b[i] == b.drop_first()[i - 1]);
                }
            }
            assert(a =~= b);
        }
    } else if a.len() > 0 && b.len() > 0 {
        assert((a[0] as int) != (b[0] as int));
    }
}

/// Whether the text of `a` comes before that of `b` (see [`key_lt`]).
pub fn text_less(a: &String, b: &String) -> (r: bool)
    ensures
        r == key_lt(a@, b@),
{
    let ca = crate::column::chars_of(a.as_str());
    let cb = crate::column::chars_of(b.as_str());
    let na = ca.len();
    let nb = cb.len();
    let mut i: usize = 0;
    assert(ca@.subrange(0, na as int) =~= a@);
    assert(cb@.subrange(0, nb as int) =~= b@);
    while i < na && i < nb && ca[i] == cb[i]
        invariant
            i <= na == ca@.len(),
            i <= nb == cb@.len(),
            ca@ == a@,
            cb@ == b@,
            key_lt(a@, b@) == key_lt(
                ca@.subrange(i as int, na as int),
                cb@.subrange(i as int, nb as int),
            ),
        decreases na - i,
    {
        assert(ca@.subrange(i as int, na as int).drop_first() =~= ca@.subrange(i + 1, na as int));
        assert(cb@.subrange(i as int, nb as int).drop_first() =~= cb@.subrange(i + 1, nb as int));
        i = i + 1;
    }
    if i == na {
        i < nb
    } else if i == nb {
        false
    } else {
        ca[i] < cb[i]
    }
}

} // verus!
