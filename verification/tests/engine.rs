//! The engine, driven by a world that lives in memory.

use chord::case::CaseArgStruct;
use chord::case::CaseAssessStruct;
use chord::case::CaseRun;
use chord::case::CaseState;
use chord::error::ErrorStruct;
use chord::flow::BreakOn;
use chord::flow::Flow;
use chord::flow::Stage;
use chord::flow::Step;
use chord::id::CaseId;
use chord::id::TaskIdSimple;
use chord::runner::select;
use chord::runner::Phase;
use chord::runner::TaskRunner;
use chord::step::state_of;
use chord::step::Invocation;
use chord::step::RunArgStruct;
use chord::step::StepState;
use chord::task::TaskAction;
use chord::task::TaskAssessStruct;
use chord::task::TaskEvent;
use chord::task::TaskState;
use chord::value::Json;
use chord::value::Number;

fn text(s: &str) -> Json {
    Json::String(s.to_string())
}

fn num(n: u64) -> Json {
    Json::Number(Number::PosInt(n))
}

fn object(members: Vec<(&str, Json)>) -> Json {
    Json::Object(members.into_iter().map(|(k, v)| (k.to_string(), v)).collect())
}

fn step(id: &str, action: &str, config: Json, condition: Option<&str>) -> Step {
    Step {
        id: id.to_string(),
        action: action.to_string(),
        config,
        condition: condition.map(|c| c.to_string()),
        timeout: 1,
        dynamic: None,
    }
}

fn stage(id: &str, steps: Vec<&str>, concurrency: usize, round: usize) -> Stage {
    Stage {
        id: id.to_string(),
        step: steps.into_iter().map(|s| s.to_string()).collect(),
        concurrency,
        round,
        duration: 600,
        break_on: BreakOn::Never,
        case_filter: None,
    }
}

fn task_id() -> TaskIdSimple {
    TaskIdSimple::new("e1".to_string(), "t1".to_string())
}

/// What the actions of the tests do, by kind.
fn invoke(arg: &RunArgStruct) -> Invocation {
    let kind = match arg.config().get("kind") {
        Some(k) => k.as_str().unwrap_or("").to_string(),
        None => String::new(),
    };
    match kind.as_str() {
        "echo" => Invocation::Returned(arg.render_value(arg.config().get("say").unwrap())),
        "slow" => {
            let slow = arg.render_str("{{case.slow}}").unwrap();
            if slow == "true" {
                Invocation::TimedOut
            } else {
                Invocation::Returned(Ok(Json::Null))
            }
        }
        "crash" => Invocation::Crashed,
        "error" => Invocation::Returned(Err(ErrorStruct::new("act", "the action failed"))),
        _ => Invocation::Returned(Ok(Json::Null)),
    }
}

fn run_case(arg: CaseArgStruct) -> CaseAssessStruct {
    let mut case = CaseRun::new(arg, 10);
    while !case.is_finished() {
        let invocation = {
            let run_arg = case.pending();
            invoke(&run_arg)
        };
        case = chord::case::run(case, invocation, 11, 12);
    }
    case.finish(13)
}

struct World {
    rows: Vec<Json>,
    cursor: usize,
    loads: Vec<usize>,
    resets: usize,
    starts: usize,
    created: Vec<Vec<String>>,
    batches: Vec<Vec<String>>,
    reports: Vec<(String, Vec<CaseAssessStruct>)>,
    ends: Vec<TaskAssessStruct>,
    fail_create: bool,
    fail_load: bool,
    fail_report: bool,
    step_ms: i64,
    clock: i64,
}

impl World {
    fn new(rows: Vec<Json>) -> World {
        World {
            rows,
            cursor: 0,
            loads: vec![],
            resets: 0,
            starts: 0,
            created: vec![],
            batches: vec![],
            reports: vec![],
            ends: vec![],
            fail_create: false,
            fail_load: false,
            fail_report: false,
            step_ms: 1,
            clock: 1000,
        }
    }

    fn tick(&mut self) -> i64 {
        self.clock += self.step_ms;
        self.clock
    }
}

fn fail(code: &str) -> Result<(), ErrorStruct> {
    Err(ErrorStruct::new(code, "refused"))
}

/// Runs a task to its end. The cases of a batch finish last first.
fn drive(flow: Flow, world: &mut World) -> Result<TaskAssessStruct, ErrorStruct> {
    let mut runner = TaskRunner::new(flow, task_id());
    let mut event = TaskEvent::Begin;
    loop {
        let now = world.tick();
        let (next, action) = runner.run(event, now);
        runner = next;
        event = match action {
            TaskAction::Create { step } => {
                world.created.push(step);
                TaskEvent::Created(if world.fail_create { fail("make") } else { Ok(()) })
            }
            TaskAction::Start => {
                world.starts += 1;
                TaskEvent::Acknowledged(Ok(()))
            }
            TaskAction::Load { size } => {
                world.loads.push(size);
                if world.fail_load {
                    TaskEvent::Loaded(Err(ErrorStruct::new("csv", "unreadable")))
                } else {
                    let end = (world.cursor + size).min(world.rows.len());
                    let rows: Vec<Json> = world.rows[world.cursor..end].to_vec();
                    world.cursor = end;
                    TaskEvent::Loaded(Ok(rows))
                }
            }
            TaskAction::RunBatch { cases } => {
                world.batches.push(cases.iter().map(|c| c.id().to_string()).collect());
                let mut done: Vec<(usize, CaseAssessStruct)> =
                    cases.into_iter().map(run_case).enumerate().collect();
                done.reverse();
                let last = done.pop().unwrap();
                for (slot, assess) in done {
                    let now = world.tick();
                    let (next, action) = runner.run(TaskEvent::CaseDone { slot, assess }, now);
                    assert!(matches!(action, TaskAction::Wait));
                    runner = next;
                }
                TaskEvent::CaseDone { slot: last.0, assess: last.1 }
            }
            TaskAction::Report { stage_id, batch } => {
                world.reports.push((stage_id, batch));
                TaskEvent::Acknowledged(if world.fail_report { fail("sink") } else { Ok(()) })
            }
            TaskAction::Reset => {
                world.resets += 1;
                world.cursor = 0;
                TaskEvent::Acknowledged(Ok(()))
            }
            TaskAction::End { assess } => {
                world.ends.push(assess);
                TaskEvent::Acknowledged(Ok(()))
            }
            TaskAction::Done { result } => {
                assert_eq!(runner.phase(), Phase::Done);
                return result;
            }
            TaskAction::Wait => panic!("the runner waits for nothing"),
        };
    }
}

fn echo(say: Json) -> Json {
    object(vec![("kind", text("echo")), ("say", say)])
}

fn kind(name: &str) -> Json {
    object(vec![("kind", text(name))])
}

fn rows_named(names: Vec<&str>) -> Vec<Json> {
    names.into_iter().map(|n| object(vec![("name", text(n))])).collect()
}

fn case_names(batch: &Vec<CaseAssessStruct>) -> Vec<String> {
    batch
        .iter()
        .map(|c| c.data().get("name").unwrap().as_str().unwrap().to_string())
        .collect()
}

#[test]
fn four_rows_two_at_a_time_are_reported_in_row_order() {
    let flow = Flow::from_parts(
        None,
        None,
        vec![stage("s1", vec!["a"], 2, 1)],
        vec![step("a", "echo", echo(text("{{case.name}}")), None)],
    )
    .unwrap();
    let mut world = World::new(rows_named(vec!["A", "B", "C", "D"]));
    let assess = drive(flow, &mut world).unwrap();
    assert!(assess.state().is_ok());
    assert_eq!(world.reports.len(), 2);
    assert_eq!(world.reports[0].0, "s1");
    assert_eq!(case_names(&world.reports[0].1), vec!["A", "B"]);
    assert_eq!(case_names(&world.reports[1].1), vec!["C", "D"]);
    assert_eq!(world.batches[0], vec!["e1-t1-s1_1-1", "e1-t1-s1_1-2"]);
    assert_eq!(world.batches[1], vec!["e1-t1-s1_1-3", "e1-t1-s1_1-4"]);
    assert_eq!(world.loads, vec![2, 2, 2]);
    assert_eq!(world.resets, 1);
    assert_eq!(world.starts, 1);
    assert_eq!(world.ends.len(), 1);
    assert!(world.ends[0].state().is_ok());
    assert_eq!(world.created, vec![vec!["a".to_string()]]);
}

#[test]
fn report_is_called_once_per_batch() {
    let flow = Flow::from_parts(
        None,
        None,
        vec![stage("s1", vec!["a"], 3, 1)],
        vec![step("a", "echo", echo(text("x")), None)],
    )
    .unwrap();
    let mut world = World::new(rows_named(vec!["1", "2", "3", "4", "5", "6", "7"]));
    drive(flow, &mut world).unwrap();
    let sizes: Vec<usize> = world.reports.iter().map(|r| r.1.len()).collect();
    assert_eq!(sizes, vec![3, 3, 1]);
    assert_eq!(world.batches.len(), 3);
    assert_eq!(world.loads, vec![3, 3, 3]);
}

#[test]
fn step_value_is_read_by_the_next_step() {
    let flow = Flow::from_parts(
        None,
        None,
        vec![stage("s1", vec!["a", "b"], 1, 1)],
        vec![
            step("a", "echo", echo(text("{{case.name}}!")), None),
            step("b", "echo", echo(text("got {{step.a.value}}")), None),
        ],
    )
    .unwrap();
    let mut world = World::new(rows_named(vec!["A"]));
    drive(flow, &mut world).unwrap();
    let case = &world.reports[0].1[0];
    match case.state() {
        CaseState::Pass(steps) => {
            assert_eq!(steps.len(), 2);
            assert_eq!(steps[0].id().step(), "a");
            assert_eq!(steps[1].id().step(), "b");
            assert_eq!(steps[1].id().to_string(), "e1-t1-s1_1-1-b");
            match steps[1].state() {
                StepState::Pass(v) => assert_eq!(v, &text("got A!")),
                other => panic!("{:?}", other),
            }
            assert_eq!(steps[0].start(), 11);
            assert_eq!(steps[0].end(), 12);
        }
        other => panic!("{:?}", other),
    }
    assert_eq!(case.start(), 10);
    assert_eq!(case.end(), 13);
}

#[test]
fn failed_condition_fails_the_case_at_that_step() {
    let flow = Flow::from_parts(
        None,
        None,
        vec![stage("s1", vec!["a", "b", "c"], 1, 1)],
        vec![
            step("a", "echo", echo(num(1)), Some("(eq res 1)")),
            step("b", "echo", echo(num(2)), Some("(eq res 1)")),
            step("c", "echo", echo(num(3)), None),
        ],
    )
    .unwrap();
    let mut world = World::new(rows_named(vec!["A"]));
    let assess = drive(flow, &mut world).unwrap();
    assert!(matches!(assess.state(), TaskState::Fail));
    match world.reports[0].1[0].state() {
        CaseState::Fail(steps) => {
            assert_eq!(steps.len(), 2);
            assert!(steps[0].state().is_ok());
            assert_eq!(steps[1].id().step(), "b");
            match steps[1].state() {
                StepState::Fail(v) => assert_eq!(v, &num(2)),
                other => panic!("{:?}", other),
            }
        }
        other => panic!("{:?}", other),
    }
}

#[test]
fn timeout_is_an_error_of_its_case_alone() {
    let flow = Flow::from_parts(
        None,
        None,
        vec![stage("s1", vec!["a"], 2, 1)],
        vec![step("a", "slow", kind("slow"), None)],
    )
    .unwrap();
    let rows = vec![
        object(vec![("name", text("A")), ("slow", Json::Bool(true))]),
        object(vec![("name", text("B")), ("slow", Json::Bool(false))]),
    ];
    let mut world = World::new(rows);
    let assess = drive(flow, &mut world).unwrap();
    assert!(matches!(assess.state(), TaskState::Fail));
    assert_eq!(world.reports.len(), 1);
    let batch = &world.reports[0].1;
    match batch[0].state() {
        CaseState::Error(e) => {
            assert_eq!(e.get_code(), "001");
            assert_eq!(e.get_message(), "timeout");
        }
        other => panic!("{:?}", other),
    }
    assert!(batch[1].state().is_ok());
}

#[test]
fn crash_and_action_error_are_errors_of_the_step() {
    let flow = Flow::from_parts(
        None,
        None,
        vec![stage("s1", vec!["a"], 1, 1), stage("s2", vec!["b"], 1, 1)],
        vec![step("a", "crash", kind("crash"), None), step("b", "error", kind("error"), None)],
    )
    .unwrap();
    let mut world = World::new(rows_named(vec!["A"]));
    let assess = drive(flow, &mut world).unwrap();
    assert!(matches!(assess.state(), TaskState::Fail));
    assert_eq!(world.reports.len(), 2);
    match world.reports[0].1[0].state() {
        CaseState::Error(e) => {
            assert_eq!(e.get_code(), "002");
            assert_eq!(e.get_message(), "unwind");
        }
        other => panic!("{:?}", other),
    }
    match world.reports[1].1[0].state() {
        CaseState::Error(e) => assert_eq!(e.get_code(), "act"),
        other => panic!("{:?}", other),
    }
}

#[test]
fn failing_pre_stage_ends_the_task_before_any_stage() {
    let flow = Flow::from_parts(
        None,
        Some(vec!["p".to_string()]),
        vec![stage("s1", vec!["a"], 1, 1)],
        vec![
            step("p", "echo", echo(num(5)), Some("(eq res 6)")),
            step("a", "echo", echo(text("x")), None),
        ],
    )
    .unwrap();
    let mut world = World::new(rows_named(vec!["A"]));
    let error = drive(flow, &mut world).unwrap_err();
    assert_eq!(error.get_code(), "020");
    assert_eq!(error.get_message(), "pre Fail : e1-t1-pre-0-p");
    assert_eq!(world.reports.len(), 0);
    assert_eq!(world.loads.len(), 0);
    assert_eq!(world.starts, 0);
    assert_eq!(world.ends.len(), 0);
    assert_eq!(world.batches, vec![vec!["e1-t1-pre-0".to_string()]]);
}

#[test]
fn erring_pre_stage_ends_the_task_in_its_error() {
    let flow = Flow::from_parts(
        None,
        Some(vec!["p".to_string()]),
        vec![stage("s1", vec!["a"], 1, 1)],
        vec![step("p", "crash", kind("crash"), None), step("a", "echo", echo(text("x")), None)],
    )
    .unwrap();
    let mut world = World::new(rows_named(vec!["A"]));
    let error = drive(flow, &mut world).unwrap_err();
    assert_eq!(error.get_code(), "021");
    assert_eq!(error.get_message(), "pre Err  : { \"code\": \"002\", \"message\": \"unwind\" }");
    assert_eq!(world.reports.len(), 0);
}

#[test]
fn pre_stage_output_is_read_by_every_stage() {
    let flow = Flow::from_parts(
        Some(object(vec![("greeting", text("hello"))])),
        Some(vec!["p".to_string()]),
        vec![stage("s1", vec!["a"], 1, 1)],
        vec![
            step("p", "echo", echo(text("{{def.greeting}} from pre")), None),
            step("a", "echo", echo(text("{{pre.step.p.value}} to {{case.name}}")), None),
        ],
    )
    .unwrap();
    let mut world = World::new(rows_named(vec!["A"]));
    let assess = drive(flow, &mut world).unwrap();
    assert!(assess.state().is_ok());
    match world.reports[0].1[0].state() {
        CaseState::Pass(steps) => match steps[0].state() {
            StepState::Pass(v) => assert_eq!(v, &text("hello from pre to A")),
            other => panic!("{:?}", other),
        },
        other => panic!("{:?}", other),
    }
    assert_eq!(world.created, vec![vec!["p".to_string()], vec!["a".to_string()]]);
}

#[test]
fn filter_keeps_nine_of_ten_rows_in_every_round() {
    let mut filtered = stage("s1", vec!["a"], 4, 3);
    filtered.case_filter = Some("(gt case.x 1)".to_string());
    let flow = Flow::from_parts(
        None,
        None,
        vec![filtered],
        vec![step("a", "echo", echo(text("{{case.x}}")), None)],
    )
    .unwrap();
    let rows: Vec<Json> = (1..=10).map(|x| object(vec![("x", num(x))])).collect();
    let mut world = World::new(rows);
    let assess = drive(flow, &mut world).unwrap();
    assert!(assess.state().is_ok());
    assert_eq!(world.resets, 3);
    let cases: usize = world.reports.iter().map(|r| r.1.len()).sum();
    assert_eq!(cases, 27);
    let sizes: Vec<usize> = world.reports.iter().map(|r| r.1.len()).collect();
    assert_eq!(sizes, vec![4, 4, 1, 4, 4, 1, 4, 4, 1]);
    assert_eq!(world.batches[0], vec!["e1-t1-s1_1-2", "e1-t1-s1_1-3", "e1-t1-s1_1-4", "e1-t1-s1_1-5"]);
    assert_eq!(world.batches[3], vec!["e1-t1-s1_2-2", "e1-t1-s1_2-3", "e1-t1-s1_2-4", "e1-t1-s1_2-5"]);
    assert_eq!(world.batches[8], vec!["e1-t1-s1_3-10"]);
}

#[test]
fn no_row_on_the_first_pull_is_an_error() {
    let flow = Flow::from_parts(
        None,
        None,
        vec![stage("s1", vec!["a"], 2, 1)],
        vec![step("a", "echo", echo(text("x")), None)],
    )
    .unwrap();
    let mut world = World::new(vec![]);
    let assess = drive(flow, &mut world).unwrap();
    match assess.state() {
        TaskState::Error(e) => {
            assert_eq!(e.get_code(), "011");
            assert_eq!(e.get_message(), "no case provided");
        }
        other => panic!("{:?}", other),
    }
    assert_eq!(world.reports.len(), 0);
    assert_eq!(world.ends.len(), 1);
}

#[test]
fn failed_stage_may_stop_the_stages_after_it() {
    let mut first = stage("s1", vec!["a"], 2, 1);
    first.break_on = BreakOn::StageFail;
    let flow = Flow::from_parts(
        None,
        None,
        vec![first, stage("s2", vec!["b"], 2, 1)],
        vec![
            step("a", "echo", echo(num(1)), Some("(eq res 2)")),
            step("b", "echo", echo(text("x")), None),
        ],
    )
    .unwrap();
    let mut world = World::new(rows_named(vec!["A", "B", "C"]));
    let assess = drive(flow, &mut world).unwrap();
    assert!(matches!(assess.state(), TaskState::Fail));
    assert!(world.reports.iter().all(|r| r.0 == "s1"));
    assert_eq!(world.reports.len(), 2);
    assert_eq!(world.created, vec![vec!["a".to_string()]]);
}

#[test]
fn failed_stage_does_not_stop_the_next_by_default() {
    let flow = Flow::from_parts(
        None,
        None,
        vec![stage("s1", vec!["a"], 2, 1), stage("s2", vec!["b"], 2, 1)],
        vec![
            step("a", "echo", echo(num(1)), Some("(eq res 2)")),
            step("b", "echo", echo(text("x")), None),
        ],
    )
    .unwrap();
    let mut world = World::new(rows_named(vec!["A", "B"]));
    let assess = drive(flow, &mut world).unwrap();
    assert!(matches!(assess.state(), TaskState::Fail));
    let stages: Vec<&str> = world.reports.iter().map(|r| r.0.as_str()).collect();
    assert_eq!(stages, vec!["s1", "s2"]);
}

#[test]
fn data_source_error_ends_the_task_in_that_error() {
    let flow = Flow::from_parts(
        None,
        None,
        vec![stage("s1", vec!["a"], 2, 1)],
        vec![step("a", "echo", echo(text("x")), None)],
    )
    .unwrap();
    let mut world = World::new(rows_named(vec!["A"]));
    world.fail_load = true;
    let assess = drive(flow, &mut world).unwrap();
    match assess.state() {
        TaskState::Error(e) => assert_eq!(e.get_code(), "csv"),
        other => panic!("{:?}", other),
    }
    assert_eq!(world.ends.len(), 1);
}

#[test]
fn factory_error_ends_the_task_in_that_error() {
    let flow = Flow::from_parts(
        None,
        None,
        vec![stage("s1", vec!["a"], 2, 1)],
        vec![step("a", "echo", echo(text("x")), None)],
    )
    .unwrap();
    let mut world = World::new(rows_named(vec!["A"]));
    world.fail_create = true;
    let assess = drive(flow, &mut world).unwrap();
    match assess.state() {
        TaskState::Error(e) => assert_eq!(e.get_code(), "make"),
        other => panic!("{:?}", other),
    }
    assert_eq!(world.loads.len(), 0);
}

#[test]
fn report_sink_error_ends_the_task_in_that_error() {
    let flow = Flow::from_parts(
        None,
        None,
        vec![stage("s1", vec!["a"], 1, 1)],
        vec![step("a", "echo", echo(text("x")), None)],
    )
    .unwrap();
    let mut world = World::new(rows_named(vec!["A", "B"]));
    world.fail_report = true;
    let assess = drive(flow, &mut world).unwrap();
    match assess.state() {
        TaskState::Error(e) => assert_eq!(e.get_code(), "sink"),
        other => panic!("{:?}", other),
    }
    assert_eq!(world.reports.len(), 1);
}

#[test]
fn stage_out_of_time_dispatches_no_new_batch() {
    let mut short = stage("s1", vec!["a"], 1, 0);
    short.duration = 1;
    let flow = Flow::from_parts(
        None,
        None,
        vec![short],
        vec![step("a", "echo", echo(text("x")), None)],
    )
    .unwrap();
    let mut world = World::new(rows_named(vec!["A", "B", "C"]));
    world.step_ms = 300;
    let assess = drive(flow, &mut world).unwrap();
    assert!(assess.state().is_ok());
    assert_eq!(world.reports.len(), 1);
    assert_eq!(world.resets, 0);
}

#[test]
fn unbounded_rounds_run_until_the_stage_is_out_of_time() {
    let mut unbounded = stage("s1", vec!["a"], 2, 0);
    unbounded.duration = 1;
    let flow = Flow::from_parts(
        None,
        None,
        vec![unbounded],
        vec![step("a", "echo", echo(text("x")), None)],
    )
    .unwrap();
    let mut world = World::new(rows_named(vec!["A"]));
    world.step_ms = 10;
    let assess = drive(flow, &mut world).unwrap();
    assert!(assess.state().is_ok());
    assert!(world.resets > 1);
    assert_eq!(world.reports.len(), world.resets);
}

#[test]
fn flow_that_names_an_unknown_step_is_refused() {
    let error = Flow::from_parts(
        None,
        None,
        vec![stage("s1", vec!["a", "zz"], 1, 1)],
        vec![step("a", "echo", echo(text("x")), None)],
    )
    .unwrap_err();
    assert_eq!(error.get_code(), "flow");
    let error = Flow::from_parts(
        None,
        Some(vec!["zz".to_string()]),
        vec![],
        vec![step("a", "echo", echo(text("x")), None)],
    )
    .unwrap_err();
    assert_eq!(error.get_code(), "flow");
    let error = Flow::from_parts(
        None,
        None,
        vec![stage("s1", vec!["a"], 0, 1)],
        vec![step("a", "echo", echo(text("x")), None)],
    )
    .unwrap_err();
    assert_eq!(error.get_code(), "flow");
}

#[test]
fn events_that_are_not_waited_for_change_nothing() {
    let flow = Flow::from_parts(
        None,
        None,
        vec![stage("s1", vec!["a"], 1, 1)],
        vec![step("a", "echo", echo(text("x")), None)],
    )
    .unwrap();
    let runner = TaskRunner::new(flow, task_id());
    assert_eq!(runner.phase(), Phase::Idle);
    let (runner, action) = runner.run(TaskEvent::Acknowledged(Ok(())), 5);
    assert!(matches!(action, TaskAction::Wait));
    assert_eq!(runner.phase(), Phase::Idle);
    let (runner, action) = runner.run(TaskEvent::Begin, 5);
    assert!(matches!(action, TaskAction::Start));
    assert_eq!(runner.phase(), Phase::Starting);
    let (runner, action) = runner.run(TaskEvent::Begin, 6);
    assert!(matches!(action, TaskAction::Wait));
    assert_eq!(runner.phase(), Phase::Starting);
}

fn simple_flow(concurrency: usize) -> Flow {
    Flow::from_parts(
        None,
        Some(vec!["a".to_string()]),
        vec![stage("s1", vec!["a"], concurrency, 1)],
        vec![step("a", "echo", echo(text("x")), None)],
    )
    .unwrap()
}

fn pre_case_of(action: TaskAction) -> CaseArgStruct {
    match action {
        TaskAction::RunBatch { mut cases } => {
            assert_eq!(cases.len(), 1);
            cases.pop().unwrap()
        }
        other => panic!("{:?}", other),
    }
}

#[test]
fn pre_case_that_is_said_to_pass_with_a_step_that_did_not_is_refused() {
    let runner = TaskRunner::new(simple_flow(1), task_id());
    let (runner, action) = runner.run(TaskEvent::Begin, 1);
    assert!(matches!(action, TaskAction::Create { .. }));
    let (runner, action) = runner.run(TaskEvent::Created(Ok(())), 2);
    let arg = pre_case_of(action);
    assert_eq!(arg.id().to_string(), "e1-t1-pre-0");
    assert_eq!(arg.data(), &Json::Null);
    let record = chord::step::StepAssessStruct::new(
        chord::id::StepIdStruct::new(arg.id().clone(), "a".to_string()),
        0,
        0,
        StepState::Fail(Json::Null),
    );
    let odd = CaseAssessStruct::new(arg.id().clone(), 0, 0, Json::Null, CaseState::Pass(vec![record]));
    let (runner, action) = runner.run(TaskEvent::CaseDone { slot: 0, assess: odd }, 3);
    match action {
        TaskAction::Done { result: Err(e) } => {
            assert_eq!(e.get_code(), "012");
            assert_eq!(e.get_message(), "pre step run failure");
        }
        other => panic!("{:?}", other),
    }
    assert_eq!(runner.phase(), Phase::Done);
    assert!(matches!(runner.state(), TaskState::Error(_)));
    let (_, action) = runner.run(TaskEvent::Begin, 4);
    assert!(matches!(action, TaskAction::Wait));
}

#[test]
fn factory_error_before_the_pre_stage_ends_the_task_unreported() {
    let runner = TaskRunner::new(simple_flow(1), task_id());
    let (runner, _) = runner.run(TaskEvent::Begin, 1);
    let (runner, action) = runner.run(TaskEvent::Created(Err(ErrorStruct::new("make", "no"))), 2);
    match action {
        TaskAction::Done { result: Err(e) } => assert_eq!(e.get_code(), "make"),
        other => panic!("{:?}", other),
    }
    assert_eq!(runner.phase(), Phase::Done);
}

fn runner_that_loads(concurrency: usize) -> TaskRunner {
    let flow = Flow::from_parts(
        None,
        None,
        vec![stage("s1", vec!["a"], concurrency, 1)],
        vec![step("a", "echo", echo(text("x")), None)],
    )
    .unwrap();
    let runner = TaskRunner::new(flow, task_id());
    let (runner, action) = runner.run(TaskEvent::Begin, 1);
    assert!(matches!(action, TaskAction::Start));
    let (runner, action) = runner.run(TaskEvent::Acknowledged(Ok(())), 2);
    assert!(matches!(action, TaskAction::Create { .. }));
    let (runner, action) = runner.run(TaskEvent::Created(Ok(())), 3);
    assert!(matches!(action, TaskAction::Load { size } if size == concurrency));
    assert_eq!(runner.phase(), Phase::Loading);
    runner
}

#[test]
fn more_rows_than_asked_for_are_an_error() {
    let runner = runner_that_loads(2);
    let (runner, action) =
        runner.run(TaskEvent::Loaded(Ok(rows_named(vec!["A", "B", "C"]))), 4);
    match action {
        TaskAction::End { assess } => match assess.state() {
            TaskState::Error(e) => {
                assert_eq!(e.get_code(), "013");
                assert_eq!(e.get_message(), "more rows than asked for");
            }
            other => panic!("{:?}", other),
        },
        other => panic!("{:?}", other),
    }
    assert_eq!(runner.phase(), Phase::Ending);
    let (runner, action) = runner.run(TaskEvent::Acknowledged(Ok(())), 5);
    match action {
        TaskAction::Done { result: Ok(assess) } => {
            assert!(matches!(assess.state(), TaskState::Error(_)));
            assert_eq!(assess.start(), 1);
            assert_eq!(assess.end(), 4);
        }
        other => panic!("{:?}", other),
    }
    assert_eq!(runner.phase(), Phase::Done);
}

#[test]
fn report_sink_that_fails_at_the_end_ends_the_task_in_its_error() {
    let runner = runner_that_loads(2);
    let (runner, _) = runner.run(TaskEvent::Loaded(Err(ErrorStruct::new("csv", "bad"))), 4);
    let (runner, action) = runner.run(TaskEvent::Acknowledged(Err(ErrorStruct::new("sink", "full"))), 5);
    match action {
        TaskAction::Done { result: Err(e) } => assert_eq!(e.get_code(), "sink"),
        other => panic!("{:?}", other),
    }
    assert_eq!(runner.phase(), Phase::Done);
}

#[test]
fn report_sink_that_fails_at_the_start_ends_the_task_in_its_error() {
    let flow = Flow::from_parts(None, None, vec![], vec![]).unwrap();
    let runner = TaskRunner::new(flow, task_id());
    let (runner, _) = runner.run(TaskEvent::Begin, 1);
    let (runner, action) = runner.run(TaskEvent::Acknowledged(Err(ErrorStruct::new("sink", "full"))), 2);
    match action {
        TaskAction::Done { result: Err(e) } => assert_eq!(e.get_code(), "sink"),
        other => panic!("{:?}", other),
    }
    assert_eq!(runner.phase(), Phase::Done);
}

#[test]
fn flow_without_stages_starts_and_ends() {
    let flow = Flow::from_parts(None, None, vec![], vec![]).unwrap();
    let mut world = World::new(vec![]);
    let assess = drive(flow, &mut world).unwrap();
    assert!(assess.state().is_ok());
    assert_eq!(world.starts, 1);
    assert_eq!(world.ends.len(), 1);
    assert_eq!(world.loads.len(), 0);
}

#[test]
fn record_takes_the_place_of_its_case_once() {
    let runner = runner_that_loads(3);
    let (runner, action) = runner.run(TaskEvent::Loaded(Ok(rows_named(vec!["A", "B"]))), 4);
    let cases = match action {
        TaskAction::RunBatch { cases } => cases,
        other => panic!("{:?}", other),
    };
    assert_eq!(cases.len(), 2);
    assert_eq!(runner.phase(), Phase::Running);
    let mut done: Vec<CaseAssessStruct> = cases.into_iter().map(run_case).collect();
    let second = done.pop().unwrap();
    let first = done.pop().unwrap();
    let stray = CaseAssessStruct::new(first.id().clone(), 0, 0, text("stray"), CaseState::Pass(vec![]));
    let (runner, action) = runner.run(TaskEvent::CaseDone { slot: 2, assess: stray }, 5);
    assert!(matches!(action, TaskAction::Wait));
    let (runner, action) = runner.run(TaskEvent::CaseDone { slot: 1, assess: second }, 6);
    assert!(matches!(action, TaskAction::Wait));
    let again = CaseAssessStruct::new(first.id().clone(), 0, 0, text("again"), CaseState::Pass(vec![]));
    let (runner, action) = runner.run(TaskEvent::CaseDone { slot: 1, assess: again }, 7);
    assert!(matches!(action, TaskAction::Wait));
    let (runner, action) = runner.run(TaskEvent::Loaded(Ok(vec![])), 8);
    assert!(matches!(action, TaskAction::Wait));
    assert_eq!(runner.phase(), Phase::Running);
    let (runner, action) = runner.run(TaskEvent::CaseDone { slot: 0, assess: first }, 9);
    match action {
        TaskAction::Report { stage_id, batch } => {
            assert_eq!(stage_id, "s1");
            assert_eq!(case_names(&batch), vec!["A", "B"]);
        }
        other => panic!("{:?}", other),
    }
    assert_eq!(runner.phase(), Phase::Reporting);
    let (runner, action) = runner.run(TaskEvent::Acknowledged(Ok(())), 10);
    assert!(matches!(action, TaskAction::Reset));
    assert_eq!(runner.phase(), Phase::Resetting);
}

#[test]
fn rows_loaded_after_the_stage_ran_out_of_time_are_not_run() {
    let mut short = stage("s1", vec!["a"], 2, 1);
    short.duration = 1;
    let flow = Flow::from_parts(
        None,
        None,
        vec![short],
        vec![step("a", "echo", echo(text("x")), None)],
    )
    .unwrap();
    let runner = TaskRunner::new(flow, task_id());
    let (runner, _) = runner.run(TaskEvent::Begin, 0);
    let (runner, _) = runner.run(TaskEvent::Acknowledged(Ok(())), 0);
    let (runner, action) = runner.run(TaskEvent::Created(Ok(())), 999);
    assert!(matches!(action, TaskAction::Load { size: 2 }));
    let (runner, action) = runner.run(TaskEvent::Loaded(Ok(rows_named(vec!["A", "B"]))), 1000);
    match action {
        TaskAction::End { assess } => assert!(assess.state().is_ok()),
        other => panic!("{:?}", other),
    }
    assert_eq!(runner.phase(), Phase::Ending);
}

#[test]
fn value_of_a_step_is_published_where_the_step_asks_for_it() {
    let mut first = step("a", "echo", echo(text("token-1")), None);
    first.dynamic = Some("token".to_string());
    let flow = Flow::from_parts(
        None,
        None,
        vec![stage("s1", vec!["a", "b", "c"], 1, 1)],
        vec![
            first,
            step("b", "echo", echo(text("{{dyn.a}}")), None),
            step("c", "echo", echo(text("{{dyn.b}}")), None),
        ],
    )
    .unwrap();
    let mut world = World::new(rows_named(vec!["A"]));
    drive(flow, &mut world).unwrap();
    match world.reports[0].1[0].state() {
        CaseState::Error(e) => assert_eq!(e.get_code(), "tpl"),
        other => panic!("{:?}", other),
    }
}

#[test]
fn case_is_made_of_the_steps_that_the_flow_defines() {
    let flow = Flow::from_parts(
        Some(object(vec![("k", text("v"))])),
        None,
        vec![],
        vec![step("a", "echo", echo(text("x")), None), step("b", "echo", echo(text("y")), None)],
    )
    .unwrap();
    let arg = CaseArgStruct::new(
        &flow,
        &vec!["b".to_string(), "a".to_string()],
        text("row"),
        Some(text("pre")),
        task_id(),
        "4".to_string(),
        "s9_2".to_string(),
    )
    .unwrap();
    assert_eq!(arg.id().to_string(), "e1-t1-s9_2-4");
    assert_eq!(arg.data(), &text("row"));
    let steps: Vec<&str> = arg.step_vec().iter().map(|s| s.id.as_str()).collect();
    assert_eq!(steps, vec!["b", "a"]);
    let mut context = arg.create_render_context();
    assert_eq!(context.render_str("{{def.k}} {{pre}} {{case}}").unwrap(), "v pre row");
    chord::case::register_dynamic(&mut context, "n", &num(1));
    assert_eq!(context.render_str("{{dyn.n}}").unwrap(), "1");
    assert_eq!(arg.take_data(), text("row"));
    let error = CaseArgStruct::new(
        &flow,
        &vec!["zz".to_string()],
        Json::Null,
        None,
        task_id(),
        "1".to_string(),
        "s1_1".to_string(),
    )
    .unwrap_err();
    assert_eq!(error.get_code(), "010");
    assert_eq!(error.get_message(), "invalid step");
}

#[test]
fn case_without_steps_passes_at_once() {
    let flow = Flow::from_parts(None, None, vec![], vec![]).unwrap();
    let arg = CaseArgStruct::new(&flow, &vec![], Json::Null, None, task_id(), "1".to_string(), "s".to_string())
        .unwrap();
    let case = CaseRun::new(arg, 5);
    assert!(case.is_finished());
    let assess = case.finish(6);
    assert!(assess.state().is_ok());
    assert_eq!(assess.start(), 5);
    assert_eq!(assess.end(), 6);
    match assess.state() {
        CaseState::Pass(steps) => assert!(steps.is_empty()),
        other => panic!("{:?}", other),
    }
}

#[test]
fn state_of_a_step_follows_from_what_came_of_its_action() {
    assert!(matches!(state_of(Invocation::Returned(Ok(num(1))), true), StepState::Pass(v) if v == num(1)));
    assert!(matches!(state_of(Invocation::Returned(Ok(num(1))), false), StepState::Fail(v) if v == num(1)));
    match state_of(Invocation::Returned(Err(ErrorStruct::new("act", "no"))), false) {
        StepState::Error(e) => assert_eq!(e.get_code(), "act"),
        other => panic!("{:?}", other),
    }
    match state_of(Invocation::TimedOut, true) {
        StepState::Error(e) => assert_eq!(e.to_string(), "{ \"code\": \"001\", \"message\": \"timeout\" }"),
        other => panic!("{:?}", other),
    }
    match state_of(Invocation::Crashed, true) {
        StepState::Error(e) => assert_eq!(e.get_code(), "002"),
        other => panic!("{:?}", other),
    }
    assert!(StepState::Pass(Json::Null).is_ok());
    assert!(StepState::Fail(Json::Null).is_fail());
    assert!(StepState::Error(ErrorStruct::new("a", "b")).is_err());
    assert!(!StepState::Fail(Json::Null).is_ok());
    assert!(!StepState::Pass(Json::Null).is_err());
    assert!(!StepState::Error(ErrorStruct::new("a", "b")).is_fail());
}

#[test]
fn rows_are_selected_and_numbered_by_their_place_in_the_round() {
    let rows = rows_named(vec!["A", "B", "C"]);
    let kept = select(vec![(2, text("before"))], &rows, &vec![true, false, true], 10);
    assert_eq!(
        kept,
        vec![
            (2, text("before")),
            (11, object(vec![("name", text("A"))])),
            (13, object(vec![("name", text("C"))])),
        ]
    );
    assert_eq!(select(vec![], &rows, &vec![false, false, false], 0), vec![]);
    assert_eq!(select(vec![], &rows[..1].to_vec(), &vec![true], u64::MAX), vec![(u64::MAX, rows[0].clone())]);
}
