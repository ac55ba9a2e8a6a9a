//! Rows from CSV: the data source of a task, read by the `csv` crate and
//! handed out page by page.

use vstd::prelude::*;
use crate::error::ErrorStruct;
use crate::error::ErrorView;
use crate::value::lemma_members_push;
use crate::value::members_view;
use crate::value::Json;
use crate::value::JsonView;

verus! {

/// One record of a CSV text as the `csv` crate reads it: each field under
/// the name of its column, or the error that the record brought.
pub type Record = Result<Vec<(String, String)>, String>;

/// The mathematical content of a [`Record`].
pub type RecordView = Result<Seq<(Seq<char>, Seq<char>)>, Seq<char>>;

/// The records that the `csv` crate deserializes from a text whose first
/// line names the columns, in the order of the text. A record that can be
/// read is the map from column name to field, from the least name to the
/// greatest; one that cannot is the error, shown by its `Debug`.
pub uninterp spec fn csv_rows(data: Seq<u8>) -> Seq<RecordView>;

/// The contents of the fields of a record.
pub open spec fn fields_view(fields: Seq<(String, String)>) -> Seq<(Seq<char>, Seq<char>)> {
    Seq::new(fields.len(), |i: int| (fields[i].0@, fields[i].1@))
}

/// The content of a record.
pub open spec fn record_view(record: Record) -> RecordView {
    match record {
        Ok(fields) => Ok(fields_view(fields@)),
        Err(message) => Err(message@),
    }
}

/// The contents of a list of records.
pub open spec fn records_view(records: Seq<Record>) -> Seq<RecordView> {
    Seq::new(records.len(), |i: int| record_view(records[i]))
}

/// `csv::ReaderBuilder::new().from_reader`, and every item of the iterator
/// that `Reader::deserialize` gives for `BTreeMap<String, String>`: the
/// records of the text, each turned into the list of its map's entries or
/// into the `Debug` text of its error.
#[verifier::external_body]
fn read_rows(data: &[u8]) -> (records: Vec<Record>)
    ensures
        records_view(records@) == csv_rows(data@),
{
    csv::ReaderBuilder::new().from_reader(data).deserialize::<
        std::collections::BTreeMap<String, String>,
    >().map(|r| match r {
        Ok(fields) => Ok(fields.into_iter().collect()),
        Err(e) => Err(format!("{:?}", e)),
    }).collect()
}

/// The rows of a CSV text and a place among them.
#[derive(Debug)]
pub struct Loader {
    records: Vec<Record>,
    cursor: usize,
}

/// The mathematical content of a [`Loader`].
pub struct LoaderView {
    pub records: Seq<RecordView>,
    pub cursor: nat,
}

impl View for Loader {
    type V = LoaderView;

    closed spec fn view(&self) -> LoaderView {
        LoaderView { records: records_view(self.records@), cursor: self.cursor as nat }
    }
}

/// The members of the row that a record's fields make: each field a
/// string under the name of its column.
pub open spec fn row_members(fields: Seq<(Seq<char>, Seq<char>)>) -> Map<Seq<char>, JsonView>
    decreases fields.len(),
{
    if fields.len() == 0 {
        Map::empty()
    } else {
        row_members(fields.drop_last()).insert(fields.last().0, JsonView::Str(fields.last().1))
    }
}

/// The row that a record's fields make.
pub open spec fn row_of(fields: Seq<(Seq<char>, Seq<char>)>) -> JsonView {
    JsonView::Object(row_members(fields))
}

/// Where a page that starts at `from` and may hold `limit` rows ends, were
/// every record readable.
pub open spec fn page_end(records: Seq<RecordView>, from: nat, limit: nat) -> nat {
    if from >= records.len() {
        from
    } else if from + limit > records.len() {
        records.len()
    } else {
        from + limit
    }
}

/// The first record from `from` up to `to` that cannot be read.
pub open spec fn first_bad(records: Seq<RecordView>, from: int, to: int) -> Option<int>
    decreases to - from,
{
    if from >= to || from < 0 || to > records.len() {
        None
    } else if records[from] is Err {
        Some(from)
    } else {
        first_bad(records, from + 1, to)
    }
}

/// The rows of the records from `from` up to `to`.
pub open spec fn page_rows(records: Seq<RecordView>, from: int, to: int) -> Seq<JsonView> {
    Seq::new((to - from) as nat, |i: int| row_of(records[from + i]->Ok_0))
}

fn row(fields: &Vec<(String, String)>) -> (r: Json)
    ensures
        r@ == row_of(fields_view(fields@)),
{
    let ghost all = fields_view(fields@);
    let mut members: Vec<(String, Json)> = Vec::new();
    let mut i: usize = 0;
    proof {
        assert(all.take(0) =~= Seq::empty());
    }
    while i < fields.len()
        invariant
            i <= fields.len(),
            all == fields_view(fields@),
            members_view(members@) == row_members(all.take(i as int)),
        decreases fields.len() - i,
    {
        let member = (fields[i].0.clone(), Json::String(fields[i].1.clone()));
        proof {
            lemma_members_push(members@, member);
            let next = all.take(i as int + 1);
            assert(next.drop_last() =~= all.take(i as int));
            assert(next.last() == all[i as int]);
        }
        members.push(member);
        i += 1;
    }
    proof {
        assert(all.take(i as int) =~= all);
    }
    Json::Object(members)
}

impl Loader {
    /// A loader of the given records, which stands before the first.
    pub fn of(records: Vec<Record>) -> (reader: Loader)
        ensures
            reader@ == (LoaderView { records: records_view(records@), cursor: 0 }),
    {
        Loader { records, cursor: 0 }
    }
}

/// Reads the rows of a CSV text whose first line names the columns. The
/// loader stands before the first row.
pub fn mk_reader(data: &[u8]) -> (reader: Loader)
    ensures
        reader@ == (LoaderView { records: csv_rows(data@), cursor: 0 }),
{
    Loader::of(read_rows(data))
}

/// Hands out the next rows, `size_limit` at most; fewer only where no more
/// are left. A record that cannot be read is refused with the code `csv`:
/// the rows before it in the page are dropped, and the loader stands
/// behind it.
pub fn load(reader: &mut Loader, size_limit: usize) -> (r: Result<Vec<Json>, ErrorStruct>)
    ensures
        final(reader)@.records == old(reader)@.records,
        ({
            let records = old(reader)@.records;
            let from = old(reader)@.cursor;
            let to = page_end(records, from, size_limit as nat);
            match first_bad(records, from as int, to as int) {
                Some(bad) => r is Err && r->Err_0@ == (ErrorView {
                    code: "csv"@,
                    message: records[bad]->Err_0,
                    cause: None,
                }) && final(reader)@.cursor == bad + 1,
                None => r is Ok && crate::task::rows_view(r->Ok_0@) == page_rows(records, from as int, to as int)
                    && final(reader)@.cursor == to,
            }
        }),
{
    let ghost records = reader@.records;
    let ghost from = reader@.cursor;
    let ghost to = page_end(records, from, size_limit as nat);
    let mut rows: Vec<Json> = Vec::new();
    if reader.cursor >= reader.records.len() {
        proof {
            assert(crate::task::rows_view(rows@) =~= page_rows(records, from as int, to as int));
        }
        return Ok(rows);
    }
    let end = if size_limit > reader.records.len() - reader.cursor {
        reader.records.len()
    } else {
        reader.cursor + size_limit
    };
    let start = reader.cursor;
    let mut i: usize = start;
    while i < end
        invariant
            start <= i <= end,
            end <= reader.records.len(),
            end == to,
            start == from,
            records == old(reader)@.records,
            from == old(reader)@.cursor,
            to == page_end(records, from, size_limit as nat),
            reader@.records == records,
            records == records_view(reader.records@),
            rows.len() == i - start,
            first_bad(records, start as int, end as int) == first_bad(records, i as int, end as int),
            forall|k: int| start <= k < i ==> (#[trigger] records[k]) is Ok,
            forall|k: int| 0 <= k < rows.len() ==> (#[trigger] rows@[k])@ == row_of(records[start + k]->Ok_0),
        decreases end - i,
    {
        assert(records[i as int] == record_view(reader.records@[i as int]));
        match &reader.records[i] {
            Ok(fields) => {
                rows.push(row(fields));
            },
            Err(message) => {
                let e = ErrorStruct::new("csv", message.as_str());
                reader.cursor = i + 1;
                return Err(e);
            },
        }
        i += 1;
    }
    reader.cursor = end;
    proof {
        assert(crate::task::rows_view(rows@) =~= page_rows(records, from as int, to as int));
    }
    Ok(rows)
}

/// Puts the loader back before the first row.
pub fn reset(reader: &mut Loader)
    ensures
        final(reader)@ == (LoaderView { cursor: 0, ..old(reader)@ }),
{
    reader.cursor = 0;
}

} // verus!
