//! The tabular report: what a sink that writes CSV writes for a task.
//!
//! A report has one line for each case. The line begins with the case's
//! state, its error if it ended in one, and its start and end; then come
//! three cells for each step of the flow: state, start and end; the last
//! cell holds what the last step that ran returned.

use vstd::prelude::*;
use crate::case::records_view;
use crate::case::CaseAssessStruct;
use crate::case::CaseAssessView;
use crate::case::CaseState;
use crate::case::CaseStateView;
use crate::codec::json_text;
use crate::error::error_text;
use crate::error::ErrorStruct;
use crate::flow::names_view;
use crate::id::TaskIdSimple;
use crate::step::StepAssessStruct;
use crate::step::StepAssessView;
use crate::step::StepState;
use crate::step::StepStateView;
use crate::task::assesses_view;
use crate::task::TaskState;
use crate::task::TaskStateView;
use crate::text::digit_char;
use crate::text::str_eq;
use crate::value::Json;
use crate::value::JsonView;

verus! {

/// Whether `chrono` has a moment for a number of milliseconds since the
/// epoch: whether `DateTime::from_timestamp_millis` returns one.
pub uninterp spec fn in_calendar(millis: int) -> bool;

/// What `csv::Writer` writes for one record, terminator included; `None`
/// where it writes none.
pub uninterp spec fn csv_record(fields: Seq<Seq<char>>) -> Option<Seq<char>>;

/// A number below a hundred in two digits.
pub open spec fn two_digits(n: int) -> Seq<char> {
    seq![digit_char((n / 10) as nat), digit_char((n % 10) as nat)]
}

/// The time of day, `HH:MM:SS`, of a moment given in milliseconds since the
/// epoch, in UTC.
pub open spec fn clock_text(millis: int) -> Seq<char> {
    let second = (millis / 1000) % 86400;
    two_digits(second / 3600) + seq![':'] + two_digits((second % 3600) / 60) + seq![':'] + two_digits(
        second % 60,
    )
}

/// `chrono::DateTime::from_timestamp_millis`, and of the moment it returns
/// `format("%T")`: hour, minute and second of the day in UTC, each in two
/// digits. `from_timestamp_millis` takes the second of the day by Euclidean
/// division, so that moments before the epoch are covered by the same
/// formula. There is no moment where the day lies outside `chrono`'s
/// calendar.
#[verifier::external_body]
fn clock(millis: i64) -> (r: Option<String>)
    ensures
        r is Some <==> in_calendar(millis as int),
        r matches Some(text) ==> text@ == clock_text(millis as int),
{
    chrono::DateTime::from_timestamp_millis(millis).map(|t| t.format("%T").to_string())
}

/// `csv::Writer::write_record` on a writer made by `Writer::from_writer` over
/// an empty `Vec<u8>`, and the bytes that `into_inner` hands back: the record
/// as one line of CSV, or the message of the error.
#[verifier::external_body]
fn write_record(fields: &Vec<String>) -> (r: Result<String, String>)
    ensures
        match r {
            Ok(line) => csv_record(names_view(fields@)) == Some(line@),
            Err(_) => csv_record(names_view(fields@)) is None,
        },
{
    let mut writer = csv::Writer::from_writer(Vec::new());
    if let Err(e) = writer.write_record(fields) {
        return Err(e.to_string());
    }
    match writer.into_inner() {
        Ok(bytes) => String::from_utf8(bytes).map_err(|e| e.to_string()),
        Err(e) => Err(e.to_string()),
    }
}

/// The time of day of a moment as it stands in a report: empty where the
/// calendar has no such moment.
pub open spec fn time_cell(millis: int) -> Seq<char> {
    if in_calendar(millis) {
        clock_text(millis)
    } else {
        Seq::empty()
    }
}

fn time_text(millis: i64) -> (text: String)
    ensures
        text@ == time_cell(millis as int),
{
    match clock(millis) {
        Some(text) => text,
        None => String::new(),
    }
}

/// The head of the three cells of a step.
pub open spec fn step_head(id: Seq<char>) -> Seq<Seq<char>> {
    seq![id + "_state"@, id + "_start"@, id + "_end"@]
}

/// The heads of the cells of the steps.
pub open spec fn steps_head(ids: Seq<Seq<char>>) -> Seq<Seq<char>>
    decreases ids.len(),
{
    if ids.len() == 0 {
        Seq::empty()
    } else {
        steps_head(ids.drop_last()) + step_head(ids.last())
    }
}

/// The head of a report of a flow with the given steps.
pub open spec fn head_row(ids: Seq<Seq<char>>) -> Seq<Seq<char>> {
    seq!["case_state"@, "case_info"@, "case_start"@, "case_end"@] + steps_head(ids) + seq![
        "last_step_info"@,
    ]
}

fn suffixed(id: &str, suffix: &str) -> (text: String)
    ensures
        text@ == id@ + suffix@,
{
    let mut text = id.to_owned();
    text.append(suffix);
    text
}

/// The head of a report of a flow with the given steps.
pub fn create_head(sid_vec: &Vec<String>) -> (head: Vec<String>)
    ensures
        names_view(head@) == head_row(names_view(sid_vec@)),
{
    let ghost ids = names_view(sid_vec@);
    let mut head: Vec<String> = Vec::new();
    head.push("case_state".to_owned());
    head.push("case_info".to_owned());
    head.push("case_start".to_owned());
    head.push("case_end".to_owned());
    let ghost first = seq!["case_state"@, "case_info"@, "case_start"@, "case_end"@];
    proof {
        assert(names_view(head@) =~= first + steps_head(ids.take(0)));
    }
    let mut i: usize = 0;
    while i < sid_vec.len()
        invariant
            i <= sid_vec.len(),
            ids == names_view(sid_vec@),
            names_view(head@) == first + steps_head(ids.take(i as int)),
        decreases sid_vec.len() - i,
    {
        let ghost before = names_view(head@);
        let id = sid_vec[i].as_str();
        head.push(suffixed(id, "_state"));
        head.push(suffixed(id, "_start"));
        head.push(suffixed(id, "_end"));
        proof {
            let next = ids.take(i as int + 1);
            assert(next.drop_last() =~= ids.take(i as int));
            assert(next.last() == sid_vec@[i as int]@);
            assert(names_view(head@) =~= before + step_head(sid_vec@[i as int]@));
            assert(before + step_head(sid_vec@[i as int]@) =~= first + steps_head(next));
        }
        i += 1;
    }
    let ghost before = names_view(head@);
    head.push("last_step_info".to_owned());
    proof {
        assert(ids.take(i as int) =~= ids);
        assert(names_view(head@) =~= before + seq!["last_step_info"@]);
    }
    head
}

/// The mark of a case's state: `O` for a case that passed, `F` for one that
/// failed, `E` for one that ended in an error.
pub open spec fn case_mark(state: CaseStateView) -> Seq<char> {
    match state {
        CaseStateView::Pass(_) => "O"@,
        CaseStateView::Fail(_) => "F"@,
        CaseStateView::Error(_) => "E"@,
    }
}

/// The mark of a step's state.
pub open spec fn step_mark(state: StepStateView) -> Seq<char> {
    match state {
        StepStateView::Pass(_) => "O"@,
        StepStateView::Fail(_) => "F"@,
        StepStateView::Error(_) => "E"@,
    }
}

/// The mark of a task's state.
pub open spec fn task_mark(state: TaskStateView) -> Seq<char> {
    match state {
        TaskStateView::Pass => "O"@,
        TaskStateView::Fail => "F"@,
        TaskStateView::Error(_) => "E"@,
    }
}

/// What a report says of a case beside its state: the error, where it ended
/// in one.
pub open spec fn case_info(state: CaseStateView) -> Seq<char> {
    match state {
        CaseStateView::Error(e) => error_text(e.code, e.message),
        _ => Seq::empty(),
    }
}

/// The records of the steps that a case's state holds.
pub open spec fn steps_of(state: CaseStateView) -> Seq<StepAssessView> {
    match state {
        CaseStateView::Pass(records) => records,
        CaseStateView::Fail(records) => records,
        CaseStateView::Error(_) => Seq::empty(),
    }
}

/// What a value is shown as: a string as it is, anything else as JSON.
pub open spec fn value_text(v: JsonView) -> Seq<char> {
    match v {
        JsonView::Str(s) => s,
        _ => json_text(v),
    }
}

/// What a report says of the last step that ran: what it returned, or its
/// error; nothing where no step ran.
pub open spec fn last_info(records: Seq<StepAssessView>) -> Seq<char> {
    if records.len() == 0 {
        Seq::empty()
    } else {
        match records.last().state {
            StepStateView::Pass(v) => value_text(v),
            StepStateView::Fail(v) => value_text(v),
            StepStateView::Error(e) => error_text(e.code, e.message),
        }
    }
}

/// The first position of a name in a list.
pub open spec fn position(names: Seq<Seq<char>>, name: Seq<char>) -> Option<int>
    decreases names.len(),
{
    if names.len() == 0 {
        None
    } else {
        match position(names.drop_last(), name) {
            Some(p) => Some(p),
            None => if names.last() == name {
                Some(names.len() - 1)
            } else {
                None
            },
        }
    }
}

/// The three cells of a step in a line: the step's name, the mark of its
/// state, and its start and end.
#[derive(Debug)]
pub struct StepCells {
    pub step: String,
    pub mark: String,
    pub start: String,
    pub end: String,
}

/// The mathematical content of [`StepCells`].
pub struct StepCellsView {
    pub step: Seq<char>,
    pub mark: Seq<char>,
    pub start: Seq<char>,
    pub end: Seq<char>,
}

impl View for StepCells {
    type V = StepCellsView;

    open spec fn view(&self) -> StepCellsView {
        StepCellsView { step: self.step@, mark: self.mark@, start: self.start@, end: self.end@ }
    }
}

/// The contents of a list of cells.
pub open spec fn cells_view(cells: Seq<StepCells>) -> Seq<StepCellsView> {
    Seq::new(cells.len(), |i: int| cells[i]@)
}

/// A line with the cells of the steps filled in, step by step: each step's
/// cells stand at the step's place in the flow; a step that the flow does
/// not have is left out.
pub open spec fn with_cells(row: Seq<Seq<char>>, cells: Seq<StepCellsView>, ids: Seq<Seq<char>>) -> Seq<
    Seq<char>,
>
    decreases cells.len(),
{
    if cells.len() == 0 {
        row
    } else {
        let head = with_cells(row, cells.drop_last(), ids);
        let last = cells.last();
        match position(ids, last.step) {
            Some(p) => head.update(4 + 3 * p, last.mark).update(4 + 3 * p + 1, last.start).update(
                4 + 3 * p + 2,
                last.end,
            ),
            None => head,
        }
    }
}

/// The line of a case, given its cells: the case's mark, error, start and
/// end come first; the cells of the steps stand where the flow has the
/// steps; what the last step returned comes last.
pub open spec fn placed(
    mark: Seq<char>,
    info: Seq<char>,
    start: Seq<char>,
    end: Seq<char>,
    cells: Seq<StepCellsView>,
    last: Seq<char>,
    ids: Seq<Seq<char>>,
) -> Seq<Seq<char>> {
    let width = 4 + 3 * ids.len() + 1;
    let blank = Seq::new(width as nat, |i: int| Seq::<char>::empty());
    let base = blank.update(0, mark).update(1, info).update(2, start).update(3, end);
    with_cells(base, cells, ids).update(width - 1, last)
}

/// The cells of the steps of a case, record by record.
pub open spec fn step_cells(records: Seq<StepAssessView>) -> Seq<StepCellsView> {
    Seq::new(
        records.len(),
        |i: int|
            StepCellsView {
                step: records[i].id.step,
                mark: step_mark(records[i].state),
                start: time_cell(records[i].start),
                end: time_cell(records[i].end),
            },
    )
}

/// The line of a case in the report of a flow with the given steps.
pub open spec fn value_row(case: CaseAssessView, ids: Seq<Seq<char>>) -> Seq<Seq<char>> {
    placed(
        case_mark(case.state),
        case_info(case.state),
        time_cell(case.start),
        time_cell(case.end),
        step_cells(steps_of(case.state)),
        last_info(steps_of(case.state)),
        ids,
    )
}

fn find(names: &Vec<String>, name: &str) -> (r: Option<usize>)
    ensures
        match r {
            Some(p) => position(names_view(names@), name@) == Some(p as int) && p < names.len(),
            None => position(names_view(names@), name@) is None,
        },
{
    let ghost all = names_view(names@);
    let mut i: usize = 0;
    proof {
        assert(all.take(0) =~= Seq::empty());
    }
    while i < names.len()
        invariant
            i <= names.len(),
            all == names_view(names@),
            position(all.take(i as int), name@) is None,
        decreases names.len() - i,
    {
        proof {
            let next = all.take(i as int + 1);
            assert(next.drop_last() =~= all.take(i as int));
            assert(next.last() == names@[i as int]@);
        }
        if str_eq(names[i].as_str(), name) {
            proof {
                lemma_position_prefix(all, name@, i as int + 1);
            }
            return Some(i);
        }
        i += 1;
    }
    proof {
        assert(all.take(i as int) =~= all);
    }
    None
}

/// A name that is found among the first names of a list is found at the
/// same place in the list.
pub proof fn lemma_position_prefix(names: Seq<Seq<char>>, name: Seq<char>, n: int)
    requires
        0 <= n <= names.len(),
        position(names.take(n), name) is Some,
    ensures
        position(names, name) == position(names.take(n), name),
    decreases names.len() - n,
{
    if n < names.len() {
        assert(names.take(n + 1).drop_last() =~= names.take(n));
        lemma_position_prefix(names, name, n + 1);
    } else {
        assert(names.take(n) =~= names);
    }
}

fn mark_of(state: &StepState) -> (mark: String)
    ensures
        mark@ == step_mark(state@),
{
    match state {
        StepState::Pass(_) => "O".to_owned(),
        StepState::Fail(_) => "F".to_owned(),
        StepState::Error(_) => "E".to_owned(),
    }
}

fn show(v: &Json) -> (text: String)
    ensures
        text@ == value_text(v@),
{
    match v.as_str() {
        Some(s) => s.to_owned(),
        None => crate::codec::to_string(v),
    }
}

fn set_cell(row: &mut Vec<String>, at: usize, text: String)
    requires
        at < old(row).len(),
    ensures
        final(row)@.len() == old(row)@.len(),
        names_view(final(row)@) == names_view(old(row)@).update(at as int, text@),
{
    row.set(at, text);
    assert(names_view(row@) =~= names_view(old(row)@).update(at as int, text@));
}

/// Lays out the line of a case from its cells, for a flow with the given
/// steps.
pub fn place(
    mark: String,
    info: String,
    start: String,
    end: String,
    cells: &Vec<StepCells>,
    last: String,
    sid_vec: &Vec<String>,
) -> (row: Vec<String>)
    requires
        4 + 3 * sid_vec.len() + 1 <= usize::MAX,
    ensures
        names_view(row@) == placed(mark@, info@, start@, end@, cells_view(cells@), last@, names_view(sid_vec@)),
{
    let ghost ids = names_view(sid_vec@);
    let width: usize = 4 + 3 * sid_vec.len() + 1;
    let mut row: Vec<String> = Vec::new();
    let mut i: usize = 0;
    while i < width
        invariant
            i <= width,
            row.len() == i,
            forall|k: int| 0 <= k < i ==> row@[k]@ == Seq::<char>::empty(),
        decreases width - i,
    {
        row.push(String::new());
        i += 1;
    }
    proof {
        assert(names_view(row@) =~= Seq::new(width as nat, |i: int| Seq::<char>::empty()));
    }
    set_cell(&mut row, 0, mark);
    set_cell(&mut row, 1, info);
    set_cell(&mut row, 2, start);
    set_cell(&mut row, 3, end);
    let ghost all = cells_view(cells@);
    let ghost base = names_view(row@);
    proof {
        assert(all.take(0) =~= Seq::empty());
    }
    let mut k: usize = 0;
    while k < cells.len()
        invariant
            k <= cells.len(),
            row.len() == width,
            width == 4 + 3 * sid_vec.len() + 1,
            ids == names_view(sid_vec@),
            all == cells_view(cells@),
            names_view(row@) == with_cells(base, all.take(k as int), ids),
        decreases cells.len() - k,
    {
        let cell = &cells[k];
        proof {
            let next = all.take(k as int + 1);
            assert(next.drop_last() =~= all.take(k as int));
            assert(next.last() == cell@);
        }
        match find(sid_vec, cell.step.as_str()) {
            Some(p) => {
                set_cell(&mut row, 4 + 3 * p, cell.mark.clone());
                set_cell(&mut row, 4 + 3 * p + 1, cell.start.clone());
                set_cell(&mut row, 4 + 3 * p + 2, cell.end.clone());
            },
            None => {},
        }
        k += 1;
    }
    proof {
        assert(all.take(k as int) =~= all);
    }
    set_cell(&mut row, width - 1, last);
    row
}

/// The line of a case in the report of a flow with the given steps.
pub fn to_value_vec(ca: &CaseAssessStruct, sid_vec: &Vec<String>) -> (row: Vec<String>)
    requires
        4 + 3 * sid_vec.len() + 1 <= usize::MAX,
    ensures
        names_view(row@) == value_row(ca@, names_view(sid_vec@)),
{
    let empty: Vec<StepAssessStruct> = Vec::new();
    proof {
        assert(records_view(empty@) =~= Seq::empty());
    }
    let (mark, info, records) = match ca.state() {
        CaseState::Pass(records) => ("O".to_owned(), String::new(), records),
        CaseState::Fail(records) => ("F".to_owned(), String::new(), records),
        CaseState::Error(e) => ("E".to_owned(), e.to_string(), &empty),
    };
    let ghost all = records_view(records@);
    let mut cells: Vec<StepCells> = Vec::new();
    let mut k: usize = 0;
    while k < records.len()
        invariant
            k <= records.len(),
            cells.len() == k,
            all == records_view(records@),
            forall|j: int| 0 <= j < k ==> (#[trigger] cells@[j])@ == step_cells(all)[j],
        decreases records.len() - k,
    {
        let record = &records[k];
        assert(all[k as int] == record@);
        cells.push(
            StepCells {
                step: record.id().step().to_owned(),
                mark: mark_of(record.state()),
                start: time_text(record.start()),
                end: time_text(record.end()),
            },
        );
        k += 1;
    }
    proof {
        assert(cells_view(cells@) =~= step_cells(all));
    }
    let n = records.len();
    let last = if n == 0 {
        String::new()
    } else {
        assert(all.last() == records@[n - 1]@);
        match records[n - 1].state() {
            StepState::Pass(v) => show(v),
            StepState::Fail(v) => show(v),
            StepState::Error(e) => e.to_string(),
        }
    };
    place(mark, info, time_text(ca.start()), time_text(ca.end()), &cells, last, sid_vec)
}

/// How many steps a case's state holds records of.
pub open spec fn steps_count(case: CaseAssessView) -> nat {
    steps_of(case.state).len()
}

/// The position of the case with the most recorded steps; of the last such
/// case, where several have the most.
pub open spec fn longest(cases: Seq<CaseAssessView>) -> int
    decreases cases.len(),
{
    if cases.len() <= 1 {
        0
    } else {
        let before = longest(cases.drop_last());
        if steps_count(cases.last()) >= steps_count(cases[before]) {
            cases.len() - 1
        } else {
            before
        }
    }
}

/// The names of the steps of a list of records.
pub open spec fn step_names(records: Seq<StepAssessView>) -> Seq<Seq<char>> {
    Seq::new(records.len(), |i: int| records[i].id.step)
}

/// The head of a report that is laid out by what ran: the steps of the case
/// that recorded the most steps, then the case's result, the case's
/// error, and what the last step returned.
pub open spec fn head_of_cases(cases: Seq<CaseAssessView>) -> Seq<Seq<char>> {
    (if cases.len() == 0 {
        Seq::empty()
    } else {
        step_names(steps_of(cases[longest(cases)].state))
    }) + seq!["caseResult"@, "caseInfo"@, "lastPointInfo"@]
}

fn recorded(case: &CaseAssessStruct) -> (n: usize)
    ensures
        n == steps_count(case@),
{
    match case.state() {
        CaseState::Pass(records) => records.len(),
        CaseState::Fail(records) => records.len(),
        CaseState::Error(_) => 0,
    }
}

/// The head of a report that is laid out by what ran.
pub fn to_head_vec(cr_vec: &Vec<CaseAssessStruct>) -> (head: Vec<String>)
    ensures
        names_view(head@) == head_of_cases(assesses_view(cr_vec@)),
{
    let ghost all = assesses_view(cr_vec@);
    let mut head: Vec<String> = Vec::new();
    if cr_vec.len() > 0 {
        let mut best: usize = 0;
        let mut i: usize = 1;
        proof {
            assert(all.take(1).len() == 1);
        }
        while i < cr_vec.len()
            invariant
                1 <= i <= cr_vec.len(),
                all == assesses_view(cr_vec@),
                best == longest(all.take(i as int)),
                best < i,
            decreases cr_vec.len() - i,
        {
            proof {
                let next = all.take(i as int + 1);
                assert(next.drop_last() =~= all.take(i as int));
                assert(next.last() == cr_vec@[i as int]@);
                assert(next[best as int] == cr_vec@[best as int]@);
            }
            if recorded(&cr_vec[i]) >= recorded(&cr_vec[best]) {
                best = i;
            }
            i += 1;
        }
        proof {
            assert(all.take(i as int) =~= all);
            assert(all[best as int] == cr_vec@[best as int]@);
        }
        let empty: Vec<StepAssessStruct> = Vec::new();
        proof {
            assert(records_view(empty@) =~= Seq::empty());
        }
        let records = match cr_vec[best].state() {
            CaseState::Pass(records) => records,
            CaseState::Fail(records) => records,
            CaseState::Error(_) => &empty,
        };
        let mut k: usize = 0;
        while k < records.len()
            invariant
                k <= records.len(),
                head.len() == k,
                forall|j: int| 0 <= j < k ==> head@[j]@ == records@[j]@.id.step,
            decreases records.len() - k,
        {
            head.push(records[k].id().step().to_owned());
            k += 1;
        }
        proof {
            assert(names_view(head@) =~= step_names(records_view(records@)));
        }
    } else {
        proof {
            assert(names_view(head@) =~= Seq::empty());
        }
    }
    let ghost before = names_view(head@);
    head.push("caseResult".to_owned());
    head.push("caseInfo".to_owned());
    head.push("lastPointInfo".to_owned());
    proof {
        assert(names_view(head@) =~= before + seq!["caseResult"@, "caseInfo"@, "lastPointInfo"@]);
    }
    head
}

/// The lines of a list of rows as CSV, one after the other; `None` where a
/// row cannot be written.
pub open spec fn csv_text(rows: Seq<Seq<Seq<char>>>) -> Option<Seq<char>>
    decreases rows.len(),
{
    if rows.len() == 0 {
        Some(Seq::empty())
    } else {
        match (csv_text(rows.drop_last()), csv_record(rows.last())) {
            (Some(head), Some(line)) => Some(head + line),
            _ => None,
        }
    }
}

/// The lines of the cases of a batch.
pub open spec fn batch_rows(batch: Seq<CaseAssessView>, ids: Seq<Seq<char>>) -> Seq<Seq<Seq<char>>> {
    Seq::new(batch.len(), |i: int| value_row(batch[i], ids))
}

/// Where the first rows of a list cannot be written, the list cannot.
pub proof fn lemma_csv_text_prefix(rows: Seq<Seq<Seq<char>>>, n: int)
    requires
        0 <= n <= rows.len(),
        csv_text(rows.take(n)) is None,
    ensures
        csv_text(rows) is None,
    decreases rows.len() - n,
{
    if n < rows.len() {
        assert(rows.take(n + 1).drop_last() =~= rows.take(n));
        lemma_csv_text_prefix(rows, n + 1);
    } else {
        assert(rows.take(n) =~= rows);
    }
}

/// The head of the report of a flow with the given steps, as one line of
/// CSV. A head that cannot be written is refused with the code `csv`.
pub fn prepare(sid_vec: &Vec<String>) -> (r: Result<String, ErrorStruct>)
    ensures
        match r {
            Ok(line) => csv_record(head_row(names_view(sid_vec@))) == Some(line@),
            Err(e) => csv_record(head_row(names_view(sid_vec@))) is None && e@.code == "csv"@ && e@.cause
                is None,
        },
{
    let head = create_head(sid_vec);
    match write_record(&head) {
        Ok(line) => Ok(line),
        Err(message) => Err(ErrorStruct::new("csv", message.as_str())),
    }
}

/// The lines of a batch of cases in the report of a flow with the given
/// steps, as CSV: one line for each case, in the order of the batch, and no
/// text for a batch without cases. A line that cannot be written is
/// refused with the code `csv`.
pub fn report(ca_vec: &Vec<CaseAssessStruct>, sid_vec: &Vec<String>) -> (r: Result<String, ErrorStruct>)
    requires
        4 + 3 * sid_vec.len() + 1 <= usize::MAX,
    ensures
        match r {
            Ok(text) => csv_text(batch_rows(assesses_view(ca_vec@), names_view(sid_vec@))) == Some(text@),
            Err(e) => csv_text(batch_rows(assesses_view(ca_vec@), names_view(sid_vec@))) is None
                && e@.code == "csv"@ && e@.cause is None,
        },
{
    let ghost rows = batch_rows(assesses_view(ca_vec@), names_view(sid_vec@));
    let mut text = String::new();
    let mut i: usize = 0;
    proof {
        assert(rows.take(0) =~= Seq::empty());
    }
    while i < ca_vec.len()
        invariant
            i <= ca_vec.len(),
            4 + 3 * sid_vec.len() + 1 <= usize::MAX,
            rows == batch_rows(assesses_view(ca_vec@), names_view(sid_vec@)),
            csv_text(rows.take(i as int)) == Some(text@),
        decreases ca_vec.len() - i,
    {
        let row = to_value_vec(&ca_vec[i], sid_vec);
        proof {
            let next = rows.take(i as int + 1);
            assert(next.drop_last() =~= rows.take(i as int));
            assert(next.last() == value_row(ca_vec@[i as int]@, names_view(sid_vec@)));
        }
        match write_record(&row) {
            Ok(line) => {
                text.append(line.as_str());
            },
            Err(message) => {
                proof {
                    lemma_csv_text_prefix(rows, i as int + 1);
                }
                return Err(ErrorStruct::new("csv", message.as_str()));
            },
        }
        i += 1;
    }
    proof {
        assert(rows.take(i as int) =~= rows);
    }
    Ok(text)
}

/// The name of the file that a task's report is written to while the task
/// runs: `<task>_result.csv`.
pub open spec fn running_name(task: Seq<char>) -> Seq<char> {
    task + "_result.csv"@
}

/// The name of the file that a task's report is kept in once the task is
/// over: `<task>_result_<mark>.csv`, with the mark of the task's state.
pub open spec fn final_name(task: Seq<char>, state: TaskStateView) -> Seq<char> {
    task + "_result_"@ + task_mark(state) + ".csv"@
}

/// The name of the file that a task's report is written to while the task
/// runs.
pub fn report_file(task_id: &TaskIdSimple) -> (name: String)
    ensures
        name@ == running_name(task_id@.task_id),
{
    suffixed(task_id.task_id(), "_result.csv")
}

/// The mark of a task's state.
pub fn mark(state: &TaskState) -> (text: &'static str)
    ensures
        text@ == task_mark(state@),
{
    match state {
        TaskState::Pass => "O",
        TaskState::Fail => "F",
        TaskState::Error(_) => "E",
    }
}

/// The name of the file that a task's report is kept in once the task is
/// over.
pub fn final_file(task_id: &TaskIdSimple, state: &TaskState) -> (name: String)
    ensures
        name@ == final_name(task_id@.task_id, state@),
{
    let mut name = suffixed(task_id.task_id(), "_result_");
    name.append(mark(state));
    name.append(".csv");
    name
}

} // verus!
