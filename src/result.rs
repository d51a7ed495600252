use vstd::prelude::*;

use crate::column::{normalized, synth_label, synth_label_text};
use crate::error::{DecodeError, Error};
use crate::json::{
    cell_to_json, json_of_cell, key_lt, keys_ordered, lemma_key_lt_total, lemma_key_lt_transitive,
    text_less, JsonValue,
};
use crate::wire::{FromWire, WireValue};

verus! {

/// A result column: its label and its type tag.
#[derive(Debug, Clone, PartialEq, Eq)]
pub struct Column {
    pub name: String,
    pub column_type: String,
}

/// A result row: its cells, and the labels the server gave them, if any.
#[derive(Debug, Clone, PartialEq, Eq)]
pub struct Row {
    pub columns: Vec<String>,
    pub values: Vec<WireValue>,
}

/// One message of a streamed query answer: column metadata, possibly empty, and a batch of rows.
#[derive(Debug, Clone, PartialEq, Eq)]
pub struct QueryChunk {
    pub columns: Vec<Column>,
    pub rows: Vec<Row>,
}

/// The rows of a query, with the column list of the whole result.
#[derive(Debug, Clone, PartialEq, Eq)]
pub struct QueryResult {
    pub columns: Vec<Column>,
    pub rows: Vec<Row>,
}

/// The label at position `i`, or the synthesized one past the end of `labels`.
pub open spec fn raw_label(labels: Seq<Seq<char>>, i: int) -> Seq<char> {
    if i < labels.len() {
        labels[i]
    } else {
        synth_label(i)
    }
}

/// The document key of the column at position `i`.
pub open spec fn row_key(labels: Seq<Seq<char>>, i: int) -> Seq<char> {
    normalized(raw_label(labels, i))
}

/// Whether column `i` is the last one keyed as `entry` is, and `entry` holds its cell.
pub open spec fn last_with_key(
    labels: Seq<Seq<char>>,
    values: Seq<WireValue>,
    entry: (String, JsonValue),
    i: int,
) -> bool {
    &&& row_key(labels, i) == entry.0@
    &&& json_of_cell(values[i], entry.1)
    &&& forall|k: int| i < k < values.len() ==> row_key(labels, k) != entry.0@
}

/// Whether `entry` holds the cell of the last column with its key, at position `from` or later.
pub open spec fn sourced_from(
    labels: Seq<Seq<char>>,
    values: Seq<WireValue>,
    entry: (String, JsonValue),
    from: int,
) -> bool {
    exists|i: int| from <= i < values.len() && #[trigger] last_with_key(labels, values, entry, i)
}

/// Whether `entries` holds the document of the cells of `values` from position `from` on:
/// one entry per distinct key, holding the cell of the last column with that key.
#[verifier::opaque]
pub open spec fn document_from(
    labels: Seq<Seq<char>>,
    values: Seq<WireValue>,
    entries: Seq<(String, JsonValue)>,
    from: int,
) -> bool {
    &&& forall|a: int, b: int|
        0 <= a < b < entries.len() ==> #[trigger] entries[a].0@ != #[trigger] entries[b].0@
    &&& forall|i: int|
        from <= i < values.len() ==> exists|e: int|
            0 <= e < entries.len() && #[trigger] entries[e].0@ == #[trigger] row_key(labels, i)
    &&& forall|e: int|
        0 <= e < entries.len() ==> #[trigger] sourced_from(labels, values, entries[e], from)
}

/// Whether `entries` is the document of a row with cells `values` under `labels`.
pub open spec fn is_row_document(
    labels: Seq<Seq<char>>,
    values: Seq<WireValue>,
    entries: Seq<(String, JsonValue)>,
) -> bool {
    document_from(labels, values, entries, 0)
}

proof fn lemma_document_empty(labels: Seq<Seq<char>>, values: Seq<WireValue>)
    ensures
        document_from(labels, values, Seq::empty(), values.len() as int),
{
    reveal(document_from);
}

/// Column `c` adds nothing when a later column already has its key.
proof fn lemma_document_skip(
    labels: Seq<Seq<char>>,
    values: Seq<WireValue>,
    entries: Seq<(String, JsonValue)>,
    c: int,
    e0: int,
)
    requires
        0 <= c < values.len(),
        document_from(labels, values, entries, c + 1),
        0 <= e0 < entries.len(),
        entries[e0].0@ == row_key(labels, c),
    ensures
        document_from(labels, values, entries, c),
{
    reveal(document_from);
    assert forall|e: int| 0 <= e < entries.len() implies #[trigger] sourced_from(
        labels,
        values,
        entries[e],
        c,
    ) by {
        assert(sourced_from(labels, values, entries[e], c + 1));
        let i = choose|i: int|
            c + 1 <= i < values.len() && #[trigger] last_with_key(labels, values, entries[e], i);
        assert(c <= i < values.len() && last_with_key(labels, values, entries[e], i));
    }
    assert forall|i: int| c <= i < values.len() implies exists|e: int|
        0 <= e < entries.len() && #[trigger] entries[e].0@ == #[trigger] row_key(labels, i) by {
        if i == c {
            assert(entries[e0].0@ == row_key(labels, i));
        }
    }
}

/// Column `c` adds an entry, at any position, when no later column has its key.
proof fn lemma_document_insert(
    labels: Seq<Seq<char>>,
    values: Seq<WireValue>,
    entries: Seq<(String, JsonValue)>,
    c: int,
    entry: (String, JsonValue),
    p: int,
)
    requires
        0 <= c < values.len(),
        0 <= p <= entries.len(),
        document_from(labels, values, entries, c + 1),
        forall|e: int| 0 <= e < entries.len() ==> entries[e].0@ != row_key(labels, c),
        entry.0@ == row_key(labels, c),
        json_of_cell(values[c], entry.1),
    ensures
        document_from(labels, values, entries.insert(p, entry), c),
{
    reveal(document_from);
    let next = entries.insert(p, entry);
    assert forall|k: int| c < k < values.len() implies row_key(labels, k) != row_key(labels, c) by {
        let e = choose|e: int|
            0 <= e < entries.len() && #[trigger] entries[e].0@ == #[trigger] row_key(labels, k);
        assert(entries[e].0@ != row_key(labels, c));
    }
    assert forall|a: int, b: int| 0 <= a < b < next.len() implies #[trigger] next[a].0@
        != #[trigger] next[b].0@ by {
        if a == p {
            assert(next[b] == entries[b - 1]);
        } else if b == p {
            assert(next[a] == entries[a]);
        } else {
            let oa = if a < p {
                a
            } else {
                a - 1
            };
            let ob = if b < p {
                b
            } else {
                b - 1
            };
            assert(next[a] == entries[oa]);
            assert(next[b] == entries[ob]);
            assert(oa < ob);
        }
    }
    assert forall|e: int| 0 <= e < next.len() implies #[trigger] sourced_from(
        labels,
        values,
        next[e],
        c,
    ) by {
        if e == p {
            assert(last_with_key(labels, values, next[e], c));
        } else {
            let oe = if e < p {
                e
            } else {
                e - 1
            };
            assert(next[e] == entries[oe]);
            assert(sourced_from(labels, values, entries[oe], c + 1));
            let i = choose|i: int|
                c + 1 <= i < values.len() && #[trigger] last_with_key(labels, values, entries[oe], i);
            assert(c <= i < values.len() && last_with_key(labels, values, next[e], i));
        }
    }
    assert forall|i: int| c <= i < values.len() implies exists|e: int|
        0 <= e < next.len() && #[trigger] next[e].0@ == #[trigger] row_key(labels, i) by {
        if i == c {
            assert(next[p].0@ == row_key(labels, i));
        } else {
            let e = choose|e: int|
                0 <= e < entries.len() && #[trigger] entries[e].0@ == #[trigger] row_key(labels, i);
            let ne = if e < p {
                e
            } else {
                e + 1
            };
            assert(next[ne] == entries[e]);
        }
    }
}

/// Inserting a key between the keys before it and those after it keeps entries ordered.
proof fn lemma_ordered_insert(entries: Seq<(String, JsonValue)>, p: int, entry: (String, JsonValue))
    requires
        0 <= p <= entries.len(),
        keys_ordered(entries),
        forall|j: int| 0 <= j < p ==> key_lt(#[trigger] entries[j].0@, entry.0@),
        forall|j: int| p <= j < entries.len() ==> key_lt(entry.0@, #[trigger] entries[j].0@),
    ensures
        keys_ordered(entries.insert(p, entry)),
{
    let next = entries.insert(p, entry);
    assert forall|a: int, b: int| 0 <= a < b < next.len() implies key_lt(
        #[trigger] next[a].0@,
        #[trigger] next[b].0@,
    ) by {
        if a == p {
            assert(next[b] == entries[b - 1]);
        } else if b == p {
            assert(next[a] == entries[a]);
        } else {
            let oa = if a < p {
                a
            } else {
                a - 1
            };
            let ob = if b < p {
                b
            } else {
                b - 1
            };
            assert(next[a] == entries[oa]);
            assert(next[b] == entries[ob]);
            if a < p && b > p {
                lemma_key_lt_transitive(entries[oa].0@, entry.0@, entries[ob].0@);
            }
        }
    }
}

impl QueryResult {
    /// Every byte string in the result fits in memory.
    pub open spec fn fits(&self) -> bool {
        forall|i: int, j: int|
            0 <= i < self.rows@.len() && 0 <= j < self.rows@[i].values@.len()
                ==> #[trigger] self.rows@[i].values@[j].fits()
    }

    /// The labels that name the cells of `row`: its own, else those of the result.
    pub open spec fn labels_of(&self, row: Row) -> Seq<Seq<char>> {
        if row.columns@.len() > 0 {
            row.columns@.map_values(|s: String| s@)
        } else {
            self.columns@.map_values(|c: Column| c.name@)
        }
    }

    /// A result without columns or rows, to gather a streamed answer into.
    pub fn new() -> (r: QueryResult)
        ensures
            r.columns@.len() == 0,
            r.rows@.len() == 0,
    {
        QueryResult { columns: Vec::new(), rows: Vec::new() }
    }

    /// Gathers one chunk of a streamed answer: the first column metadata that arrives is kept,
    /// and the chunk's rows follow those gathered so far.
    pub fn absorb(&mut self, chunk: QueryChunk)
        ensures
            old(self).columns@.len() == 0 && chunk.columns@.len() > 0 ==> final(self).columns
                == chunk.columns,
            !(old(self).columns@.len() == 0 && chunk.columns@.len() > 0) ==> final(self).columns
                == old(self).columns,
            final(self).rows@ == old(self).rows@ + chunk.rows@,
    {
        let QueryChunk { columns, rows } = chunk;
        let mut rows = rows;
        if self.columns.len() == 0 && columns.len() > 0 {
            self.columns = columns;
        }
        self.rows.append(&mut rows);
    }

    /// The gathered answer once the stream has ended, or the error that broke it off; rows
    /// gathered before an error are dropped.
    pub fn finish_stream(self, end: Result<(), Error>) -> (r: Result<QueryResult, Error>)
        ensures
            end is Ok ==> r == Ok::<QueryResult, Error>(self),
            end is Err ==> r == Err::<QueryResult, Error>(end->Err_0),
    {
        match end {
            Ok(()) => Ok(self),
            Err(e) => Err(e),
        }
    }

    pub fn is_empty(&self) -> (r: bool)
        ensures
            r == (self.rows@.len() == 0),
    {
        self.rows.len() == 0
    }

    pub fn len(&self) -> (r: usize)
        ensures
            r == self.rows@.len(),
    {
        self.rows.len()
    }

    fn raw_label_at(&self, row: &Row, i: usize) -> (r: String)
        requires
            i < usize::MAX,
        ensures
            r@ == raw_label(self.labels_of(*row), i as int),
    {
        if row.columns.len() > 0 {
            if i < row.columns.len() {
                row.columns[i].clone()
            } else {
                synth_label_text(i)
            }
        } else if i < self.columns.len() {
            self.columns[i].name.clone()
        } else {
            synth_label_text(i)
        }
    }

    /// The row at `idx` as a document keyed by normalized column labels, its entries in key
    /// order.
    pub fn row_as_json(&self, idx: usize) -> (r: Result<JsonValue, Error>)
        requires
            self.fits(),
        ensures
            idx >= self.rows@.len() ==> r == Err::<JsonValue, Error>(
                Error::Decode(DecodeError::RowOutOfBounds { index: idx }),
            ),
            idx < self.rows@.len() ==> (r matches Ok(JsonValue::Object(entries))
                && is_row_document(
                self.labels_of(self.rows@[idx as int]),
                self.rows@[idx as int].values@,
                entries@,
            ) && keys_ordered(entries@)),
    {
        if idx >= self.rows.len() {
            return Err(Error::Decode(DecodeError::RowOutOfBounds { index: idx }));
        }
        let row = &self.rows[idx];
        let ghost labels = self.labels_of(*row);
        let ghost values = row.values@;
        let n = row.values.len();
        let mut entries: Vec<(String, JsonValue)> = Vec::new();
        let mut i = n;
        proof {
            lemma_document_empty(labels, values);
        }
        while i > 0
            invariant
                i <= n == values.len(),
                row == &self.rows@[idx as int],
                labels == self.labels_of(*row),
                values == row.values@,
                self.fits(),
                idx < self.rows@.len(),
                document_from(labels, values, entries@, i as int),
                keys_ordered(entries@),
            decreases i,
        {
            let c = i - 1;
            let raw = self.raw_label_at(row, c);
            let key = QueryResult::normalize_col(raw.as_str());
            let mut found: Option<usize> = None;
            let mut p: usize = 0;
            while p < entries.len()
                invariant
                    p <= entries@.len(),
                    found is None ==> forall|e: int| 0 <= e < p ==> entries@[e].0@ != key@,
                    found matches Some(f) ==> f < entries@.len() && entries@[f as int].0@ == key@,
                decreases entries@.len() - p,
            {
                if found.is_none() && entries[p].0 == key {
                    found = Some(p);
                }
                p = p + 1;
            }
            match found {
                Some(f) => {
                    proof {
                        lemma_document_skip(labels, values, entries@, c as int, f as int);
                    }
                },
                None => {
                    assert(values[c as int].fits());
                    let cell = cell_to_json(&row.values[c]);
                    let mut q: usize = 0;
                    while q < entries.len() && !text_less(&key, &entries[q].0)
                        invariant
                            q <= entries@.len(),
                            forall|j: int| 0 <= j < q ==> !key_lt(key@, #[trigger] entries@[j].0@),
                        decreases entries@.len() - q,
                    {
                        q = q + 1;
                    }
                    proof {
                        assert forall|j: int| 0 <= j < q implies key_lt(
                            #[trigger] entries@[j].0@,
                            key@,
                        ) by {
                            lemma_key_lt_total(entries@[j].0@, key@);
                        }
                        assert forall|j: int| q <= j < entries@.len() implies key_lt(
                            key@,
                            #[trigger] entries@[j].0@,
                        ) by {
                            if j > q {
                                lemma_key_lt_transitive(key@, entries@[q as int].0@, entries@[j].0@);
                            }
                        }
                        lemma_document_insert(labels, values, entries@, c as int, (key, cell), q as int);
                        lemma_ordered_insert(entries@, q as int, (key, cell));
                    }
                    entries.insert(q, (key, cell));
                },
            }
            i = c;
        }
        Ok(JsonValue::Object(entries))
    }

    /// The first cell of the first row, decoded as `T`.
    pub fn scalar<T: FromWire>(&self) -> (r: Result<T, Error>)
        requires
            self.fits(),
        ensures
            self.rows@.len() == 0 ==> r == Err::<T, Error>(Error::Decode(DecodeError::EmptyResult)),
            self.rows@.len() > 0 && self.rows@[0].values@.len() == 0 ==> r == Err::<T, Error>(
                Error::Decode(DecodeError::NoColumns),
            ),
            self.rows@.len() > 0 && self.rows@[0].values@.len() > 0 ==> T::decodes_to(
                self.rows@[0].values@[0],
                r,
            ),
    {
        if self.rows.len() == 0 {
            return Err(Error::Decode(DecodeError::EmptyResult));
        }
        let row = &self.rows[0];
        if row.values.len() == 0 {
            return Err(Error::Decode(DecodeError::NoColumns));
        }
        assert(self.rows@[0].values@[0].fits());
        T::from_wire(&row.values[0])
    }

    /// The first cell of every row, decoded as `T`; the first row that fails decides the error.
    pub fn first_col_as<T: FromWire>(&self) -> (r: Result<Vec<T>, Error>)
        requires
            self.fits(),
        ensures
            r is Ok ==> r->Ok_0@.len() == self.rows@.len() && forall|i: int|
                0 <= i < self.rows@.len() ==> #[trigger] first_cell_is::<T>(
                    self.rows@[i],
                    r->Ok_0@[i],
                ),
            r is Err ==> exists|i: int|
                0 <= i < self.rows@.len() && (forall|j: int|
                    0 <= j < i ==> #[trigger] first_cell_decodes::<T>(self.rows@[j]))
                    && first_cell_fails_with::<T>(#[trigger] self.rows@[i], r->Err_0),
    {
        let mut out: Vec<T> = Vec::new();
        let mut i: usize = 0;
        while i < self.rows.len()
            invariant
                i <= self.rows@.len(),
                self.fits(),
                out@.len() == i,
                forall|j: int| 0 <= j < i ==> #[trigger] first_cell_is::<T>(self.rows@[j], out@[j]),
            decreases self.rows@.len() - i,
        {
            let row = &self.rows[i];
            assert forall|j: int| 0 <= j < i implies #[trigger] first_cell_decodes::<T>(
                self.rows@[j],
            ) by {
                assert(first_cell_is::<T>(self.rows@[j], out@[j]));
            }
            if row.values.len() == 0 {
                assert(first_cell_fails_with::<T>(
                    self.rows@[i as int],
                    Error::Decode(DecodeError::NoColumns),
                ));
                return Err(Error::Decode(DecodeError::NoColumns));
            }
            assert(self.rows@[i as int].values@[0].fits());
            match T::from_wire(&row.values[0]) {
                Ok(v) => {
                    let ghost before = out@;
                    out.push(v);
                    assert forall|j: int| 0 <= j < i + 1 implies #[trigger] first_cell_is::<T>(
                        self.rows@[j],
                        out@[j],
                    ) by {
                        if j < i {
                            assert(out@[j] == before[j]);
                        }
                    }
                },
                Err(e) => {
                    assert(first_cell_fails_with::<T>(self.rows@[i as int], e));
                    return Err(e);
                },
            }
            i = i + 1;
        }
        Ok(out)
    }

    /// The only row of the result as a document; any other row count is an error.
    pub fn single_row(&self) -> (r: Result<JsonValue, Error>)
        requires
            self.fits(),
        ensures
            self.rows@.len() != 1 ==> r == Err::<JsonValue, Error>(
                Error::Decode(DecodeError::RowCount { rows: self.rows@.len() as usize }),
            ),
            self.rows@.len() == 1 ==> (r matches Ok(JsonValue::Object(entries)) && is_row_document(
                self.labels_of(self.rows@[0]),
                self.rows@[0].values@,
                entries@,
            ) && keys_ordered(entries@)),
    {
        if self.rows.len() != 1 {
            return Err(Error::Decode(DecodeError::RowCount { rows: self.rows.len() }));
        }
        self.row_as_json(0)
    }
}

/// Whether the first cell of `row` decodes into `x`.
pub open spec fn first_cell_is<T: FromWire>(row: Row, x: T) -> bool {
    row.values@.len() > 0 && T::decodes_to(row.values@[0], Ok(x))
}

/// Whether the first cell of `row` decodes into some `T`.
pub open spec fn first_cell_decodes<T: FromWire>(row: Row) -> bool {
    row.values@.len() > 0 && exists|x: T| T::decodes_to(row.values@[0], Ok(x))
}

/// Whether decoding the first cell of `row` into `T` fails with `e` (an empty row fails for
/// want of columns).
pub open spec fn first_cell_fails_with<T: FromWire>(row: Row, e: Error) -> bool {
    if row.values@.len() == 0 {
        e == Error::Decode(DecodeError::NoColumns)
    } else {
        T::decodes_to(row.values@[0], Err(e))
    }
}

} // verus!
