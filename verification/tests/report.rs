//! The tabular report and the rows of a CSV text.

use chord::case::CaseAssessStruct;
use chord::case::CaseState;
use chord::error::ErrorStruct;
use chord::id::CaseIdStruct;
use chord::id::StepIdStruct;
use chord::id::TaskIdSimple;
use chord::load::load;
use chord::load::mk_reader;
use chord::load::reset;
use chord::report::create_head;
use chord::report::final_file;
use chord::report::prepare;
use chord::report::report;
use chord::report::report_file;
use chord::report::to_head_vec;
use chord::report::to_value_vec;
use chord::step::StepAssessStruct;
use chord::step::StepState;
use chord::task::TaskState;
use chord::value::Json;
use chord::value::Number;

fn text(s: &str) -> Json {
    Json::String(s.to_string())
}

fn object(members: Vec<(&str, Json)>) -> Json {
    Json::Object(members.into_iter().map(|(k, v)| (k.to_string(), v)).collect())
}

fn case_id() -> CaseIdStruct {
    CaseIdStruct::new(
        TaskIdSimple::new("e1".to_string(), "t1".to_string()),
        "1".to_string(),
        "s1_1".to_string(),
    )
}

fn record(step: &str, start: i64, end: i64, state: StepState) -> StepAssessStruct {
    StepAssessStruct::new(StepIdStruct::new(case_id(), step.to_string()), start, end, state)
}

fn case(state: CaseState) -> CaseAssessStruct {
    // 2001-09-09 01:46:40.000 and 01:46:41.500 UTC
    CaseAssessStruct::new(case_id(), 1_000_000_000_000, 1_000_000_001_500, Json::Null, state)
}

fn names(list: Vec<&str>) -> Vec<String> {
    list.into_iter().map(|s| s.to_string()).collect()
}

#[test]
fn head_has_three_cells_for_each_step() {
    assert_eq!(
        create_head(&names(vec!["a", "b"])),
        names(vec![
            "case_state",
            "case_info",
            "case_start",
            "case_end",
            "a_state",
            "a_start",
            "a_end",
            "b_state",
            "b_start",
            "b_end",
            "last_step_info",
        ])
    );
    assert_eq!(
        create_head(&vec![]),
        names(vec!["case_state", "case_info", "case_start", "case_end", "last_step_info"])
    );
}

#[test]
fn line_of_a_case_that_passed() {
    let passed = case(CaseState::Pass(vec![
        record("a", 0, 3_723_000, StepState::Pass(text("one"))),
        record("b", -1000, 86_399_999, StepState::Pass(object(vec![("k", Json::Number(Number::PosInt(2)))]))),
    ]));
    assert_eq!(
        to_value_vec(&passed, &names(vec!["a", "b", "c"])),
        names(vec![
            "O",
            "",
            "01:46:40",
            "01:46:41",
            "O",
            "00:00:00",
            "01:02:03",
            "O",
            "23:59:59",
            "23:59:59",
            "",
            "",
            "",
            "{\"k\":2}",
        ])
    );
}

#[test]
fn line_of_a_case_that_failed() {
    let failed = case(CaseState::Fail(vec![
        record("b", 1000, 2000, StepState::Pass(Json::Null)),
        record("a", 60_000, 61_000, StepState::Fail(text("bad"))),
    ]));
    assert_eq!(
        to_value_vec(&failed, &names(vec!["a", "b"])),
        names(vec![
            "F", "", "01:46:40", "01:46:41", "F", "00:01:00", "00:01:01", "O", "00:00:01", "00:00:02", "bad",
        ])
    );
}

#[test]
fn line_of_a_case_that_ended_in_an_error() {
    let erred = case(CaseState::Error(ErrorStruct::new("001", "timeout")));
    assert_eq!(
        to_value_vec(&erred, &names(vec!["a"])),
        names(vec![
            "E",
            "{ \"code\": \"001\", \"message\": \"timeout\" }",
            "01:46:40",
            "01:46:41",
            "",
            "",
            "",
            "",
        ])
    );
}

#[test]
fn line_shows_the_error_of_the_last_step_and_skips_unknown_steps() {
    let failed = case(CaseState::Fail(vec![
        record("zz", 0, 0, StepState::Pass(Json::Null)),
        record("a", 0, 0, StepState::Error(ErrorStruct::new("act", "no"))),
    ]));
    assert_eq!(
        to_value_vec(&failed, &names(vec!["a"])),
        names(vec![
            "F",
            "",
            "01:46:40",
            "01:46:41",
            "E",
            "00:00:00",
            "00:00:00",
            "{ \"code\": \"act\", \"message\": \"no\" }",
        ])
    );
}

#[test]
fn moment_outside_the_calendar_leaves_its_cell_empty() {
    let odd = CaseAssessStruct::new(case_id(), i64::MAX, i64::MIN, Json::Null, CaseState::Pass(vec![]));
    assert_eq!(to_value_vec(&odd, &vec![]), names(vec!["O", "", "", "", ""]));
}

#[test]
fn head_by_what_ran_follows_the_longest_case() {
    let short = case(CaseState::Fail(vec![record("a", 0, 0, StepState::Fail(Json::Null))]));
    let long = case(CaseState::Pass(vec![
        record("a", 0, 0, StepState::Pass(Json::Null)),
        record("b", 0, 0, StepState::Pass(Json::Null)),
    ]));
    let other = case(CaseState::Pass(vec![
        record("x", 0, 0, StepState::Pass(Json::Null)),
        record("y", 0, 0, StepState::Pass(Json::Null)),
    ]));
    let erred = case(CaseState::Error(ErrorStruct::new("001", "timeout")));
    assert_eq!(
        to_head_vec(&vec![short, long, other, erred]),
        names(vec!["x", "y", "caseResult", "caseInfo", "lastPointInfo"])
    );
    assert_eq!(to_head_vec(&vec![]), names(vec!["caseResult", "caseInfo", "lastPointInfo"]));
}

#[test]
fn batch_is_written_as_csv_lines() {
    let batch = vec![
        case(CaseState::Pass(vec![record("a", 0, 1000, StepState::Pass(text("x,y")))])),
        case(CaseState::Fail(vec![record("a", 0, 1000, StepState::Fail(text("say \"no\"")))])),
    ];
    assert_eq!(
        report(&batch, &names(vec!["a"])).unwrap(),
        "O,,01:46:40,01:46:41,O,00:00:00,00:00:01,\"x,y\"\nF,,01:46:40,01:46:41,F,00:00:00,00:00:01,\"say \"\"no\"\"\"\n"
    );
    assert_eq!(report(&vec![], &names(vec!["a"])).unwrap(), "");
    assert_eq!(
        prepare(&names(vec!["a"])).unwrap(),
        "case_state,case_info,case_start,case_end,a_state,a_start,a_end,last_step_info\n"
    );
}

#[test]
fn report_file_is_named_after_task_and_state() {
    let task = TaskIdSimple::new("e1".to_string(), "login".to_string());
    assert_eq!(report_file(&task), "login_result.csv");
    assert_eq!(final_file(&task, &TaskState::Pass), "login_result_O.csv");
    assert_eq!(final_file(&task, &TaskState::Fail), "login_result_F.csv");
    assert_eq!(final_file(&task, &TaskState::Error(ErrorStruct::new("x", "y"))), "login_result_E.csv");
    assert_eq!(chord::report::mark(&TaskState::Fail), "F");
}

#[test]
fn rows_are_handed_out_page_by_page() {
    let mut reader = mk_reader(b"name,age\nA,1\nB,2\nC,3\nD,4\nE,5\n");
    let row = |name: &str, age: &str| object(vec![("age", text(age)), ("name", text(name))]);
    assert_eq!(load(&mut reader, 2).unwrap(), vec![row("A", "1"), row("B", "2")]);
    assert_eq!(load(&mut reader, 2).unwrap(), vec![row("C", "3"), row("D", "4")]);
    assert_eq!(load(&mut reader, 2).unwrap(), vec![row("E", "5")]);
    assert_eq!(load(&mut reader, 2).unwrap(), vec![]);
    reset(&mut reader);
    assert_eq!(load(&mut reader, 0).unwrap(), vec![]);
    assert_eq!(load(&mut reader, 10).unwrap().len(), 5);
}

#[test]
fn record_that_cannot_be_read_is_an_error_where_it_stands() {
    let mut reader = mk_reader(b"name,age\nA,1\nB\nC,3\n");
    assert_eq!(load(&mut reader, 1).unwrap().len(), 1);
    let error = load(&mut reader, 5).unwrap_err();
    assert_eq!(error.get_code(), "csv");
    assert!(error.get_message().contains("UnequalLengths"));
    let rest = load(&mut reader, 5).unwrap();
    assert_eq!(rest, vec![object(vec![("age", text("3")), ("name", text("C"))])]);
}

#[test]
fn text_without_rows_has_none() {
    let mut reader = mk_reader(b"name,age\n");
    assert_eq!(load(&mut reader, 3).unwrap(), vec![]);
    let mut empty = mk_reader(b"");
    assert_eq!(load(&mut empty, 3).unwrap(), vec![]);
}

#[test]
fn loader_of_given_records_hands_them_out() {
    let records = vec![
        Ok(vec![("b".to_string(), "2".to_string()), ("a".to_string(), "1".to_string())]),
        Err("broken".to_string()),
        Ok(vec![]),
    ];
    let mut reader = chord::load::Loader::of(records);
    assert_eq!(load(&mut reader, 1).unwrap(), vec![object(vec![("b", text("2")), ("a", text("1"))])]);
    let error = load(&mut reader, 1).unwrap_err();
    assert_eq!(error.get_code(), "csv");
    assert_eq!(error.get_message(), "broken");
    assert_eq!(load(&mut reader, 1).unwrap(), vec![object(vec![])]);
    assert_eq!(load(&mut reader, 1).unwrap(), vec![]);
}

#[test]
fn line_is_laid_out_from_its_cells() {
    let cell = |step: &str, mark: &str| chord::report::StepCells {
        step: step.to_string(),
        mark: mark.to_string(),
        start: "s".to_string(),
        end: "e".to_string(),
    };
    let cells = vec![cell("b", "O"), cell("zz", "O"), cell("a", "F"), cell("b", "E")];
    assert_eq!(
        chord::report::place(
            "F".to_string(),
            "info".to_string(),
            "t0".to_string(),
            "t1".to_string(),
            &cells,
            "last".to_string(),
            &names(vec!["a", "b", "c"]),
        ),
        names(vec!["F", "info", "t0", "t1", "F", "s", "e", "E", "s", "e", "", "", "", "last"])
    );
    assert_eq!(
        chord::report::place(
            "O".to_string(),
            String::new(),
            String::new(),
            String::new(),
            &vec![],
            String::new(),
            &vec![],
        ),
        names(vec!["O", "", "", "", ""])
    );
}
