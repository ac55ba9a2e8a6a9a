//! The actions that need nothing but the library, and the flow as a
//! document.

use chord::action::crypto::Crypto;
use chord::action::crypto::CryptoFactory;
use chord::action::echo::Factory;
use chord::action::echo::Runner;
use chord::action::sleep::Sleep;
use chord::action::sleep::SleepFactory;
use chord::action::url_decode::create;
use chord::codec::from_yaml;
use chord::flow::BreakOn;
use chord::flow::Flow;
use chord::id::CaseIdStruct;
use chord::id::TaskIdSimple;
use chord::render::RenderContext;
use chord::step::CreateArgStruct;
use chord::step::RunArgStruct;
use chord::value::Json;
use chord::value::Number;

fn text(s: &str) -> Json {
    Json::String(s.to_string())
}

fn num(n: u64) -> Json {
    Json::Number(Number::PosInt(n))
}

fn object(members: Vec<(&str, Json)>) -> Json {
    Json::Object(members.into_iter().map(|(k, v)| (k.to_string(), v)).collect())
}

fn flow_with(config: Json) -> Flow {
    let doc = object(vec![
        ("stage", Json::Array(vec![])),
        (
            "step",
            object(vec![(
                "a",
                object(vec![("action", text("any")), ("timeout", num(5)), ("config", config)]),
            )]),
        ),
    ]);
    Flow::new(&doc).unwrap()
}

fn task_id() -> TaskIdSimple {
    TaskIdSimple::new("e1".to_string(), "t1".to_string())
}

fn case_id() -> CaseIdStruct {
    CaseIdStruct::new(task_id(), "1".to_string(), "s1_1".to_string())
}

fn context() -> RenderContext {
    RenderContext::new(None, None, object(vec![("word", text("hello")), ("n", num(3))]))
}

#[test]
fn crypto_takes_the_md5_digest() {
    let flow = flow_with(object(vec![("by", text("md5")), ("from", text("{{case.word}}"))]));
    let ctx = context();
    let arg = RunArgStruct::new(&flow, &ctx, case_id(), "a".to_string()).unwrap();
    let action = CryptoFactory::new(None).unwrap();
    let create_arg = CreateArgStruct::new(&flow, &ctx, task_id(), "crypto".to_string(), "a".to_string()).unwrap();
    let crypto: Crypto = action.create(&create_arg).unwrap();
    assert_eq!(crypto.run(&arg).unwrap(), text("5d41402abc4b2a76b9719d911017c592"));
}

#[test]
fn crypto_refuses_what_it_does_not_know() {
    let ctx = context();
    let crypto = Crypto {};
    let flow = flow_with(object(vec![("by", text("sha1")), ("from", text("x"))]));
    let error = crypto.run(&RunArgStruct::new(&flow, &ctx, case_id(), "a".to_string()).unwrap()).unwrap_err();
    assert_eq!(error.get_code(), "crypto");
    assert_eq!(error.get_message(), "unsupported sha1");
    let flow = flow_with(object(vec![("from", text("x"))]));
    let error = crypto.run(&RunArgStruct::new(&flow, &ctx, case_id(), "a".to_string()).unwrap()).unwrap_err();
    assert_eq!(error.get_code(), "010");
    assert_eq!(error.get_message(), "missing by");
    let flow = flow_with(object(vec![("by", text("md5"))]));
    let error = crypto.run(&RunArgStruct::new(&flow, &ctx, case_id(), "a".to_string()).unwrap()).unwrap_err();
    assert_eq!(error.get_message(), "missing from");
    let flow = flow_with(object(vec![("by", text("md5")), ("from", text("{{case.none}}"))]));
    let error = crypto.run(&RunArgStruct::new(&flow, &ctx, case_id(), "a".to_string()).unwrap()).unwrap_err();
    assert_eq!(error.get_code(), "tpl");
}

#[test]
fn url_decode_replaces_percent_escapes() {
    let ctx = RenderContext::new(None, None, object(vec![("raw", text("a%20b%2Fc+d"))]));
    let flow = flow_with(object(vec![("raw", text("{{case.raw}}"))]));
    let create_arg = CreateArgStruct::new(&flow, &ctx, task_id(), "url_decode".to_string(), "a".to_string()).unwrap();
    let action = create(None, &create_arg).unwrap();
    let arg = RunArgStruct::new(&flow, &ctx, case_id(), "a".to_string()).unwrap();
    assert_eq!(action.run(&arg).unwrap(), text("a b/c+d"));
    let flow = flow_with(object(vec![("raw", text("%ff%fe"))]));
    let arg = RunArgStruct::new(&flow, &ctx, case_id(), "a".to_string()).unwrap();
    assert_eq!(action.run(&arg).unwrap_err().get_code(), "url");
    let flow = flow_with(Json::Null);
    let arg = RunArgStruct::new(&flow, &ctx, case_id(), "a".to_string()).unwrap();
    assert_eq!(action.run(&arg).unwrap_err().get_message(), "missing raw");
}

#[test]
fn echo_returns_its_configuration_rendered() {
    let ctx = context();
    let flow = flow_with(object(vec![("say", text("{{case.word}}!")), ("n", num(1))]));
    let create_arg = CreateArgStruct::new(&flow, &ctx, task_id(), "echo".to_string(), "a".to_string()).unwrap();
    let runner: Runner = Factory::new(None).unwrap().create(&create_arg).unwrap();
    let arg = RunArgStruct::new(&flow, &ctx, case_id(), "a".to_string()).unwrap();
    assert_eq!(runner.run(&arg).unwrap(), object(vec![("n", num(1)), ("say", text("hello!"))]));
}

#[test]
fn sleep_reads_its_duration() {
    assert_eq!(Sleep::seconds(&num(3)).unwrap(), 3);
    assert_eq!(Sleep::seconds(&text("12")).unwrap(), 12);
    assert_eq!(Sleep::seconds(&Json::Number(Number::NegInt(4))).unwrap(), 4);
    for bad in vec![
        Json::Null,
        num(0),
        text("0"),
        text("abc"),
        text(""),
        Json::Bool(true),
        Json::Number(Number::NegInt(-1)),
        Json::Number(Number::Float("1.5".to_string())),
        Json::Array(vec![]),
    ] {
        let error = Sleep::seconds(&bad).unwrap_err();
        assert_eq!(error.get_code(), "sleep");
        assert_eq!(error.get_message(), "duration must > 0");
    }
}

#[test]
fn sleep_renders_its_duration() {
    let ctx = context();
    let flow = flow_with(object(vec![("duration", text("{{case.n}}"))]));
    let create_arg = CreateArgStruct::new(&flow, &ctx, task_id(), "sleep".to_string(), "a".to_string()).unwrap();
    let sleep = SleepFactory::new(None).unwrap().create(&create_arg).unwrap();
    let arg = RunArgStruct::new(&flow, &ctx, case_id(), "a".to_string()).unwrap();
    assert_eq!(sleep.run(&arg).unwrap(), 3);
    let flow = flow_with(object(vec![]));
    let arg = RunArgStruct::new(&flow, &ctx, case_id(), "a".to_string()).unwrap();
    assert_eq!(sleep.run(&arg).unwrap_err().get_code(), "sleep");
    let flow = flow_with(object(vec![("duration", text("{{case.none}}"))]));
    let arg = RunArgStruct::new(&flow, &ctx, case_id(), "a".to_string()).unwrap();
    assert_eq!(sleep.run(&arg).unwrap_err().get_code(), "tpl");
}

#[test]
fn run_arg_tells_of_its_step() {
    let ctx = context();
    let doc = from_yaml(
        "stage: []\nstep:\n  a:\n    action: echo\n    timeout: 7\n    assert: (eq res \"hello\")\n    config:\n      say: hi\n",
    )
    .unwrap();
    let flow = Flow::new(&doc).unwrap();
    let arg = RunArgStruct::new(&flow, &ctx, case_id(), "a".to_string()).unwrap();
    assert_eq!(arg.id().step(), "a");
    assert_eq!(arg.id_str(), "e1-t1-s1_1-1-a");
    assert_eq!(arg.timeout(), 7);
    assert_eq!(arg.condition(), Some("(eq res \"hello\")"));
    assert_eq!(arg.config(), &object(vec![("say", text("hi"))]));
    assert_eq!(arg.render_str("{{case.word}}").unwrap(), "hello");
    assert_eq!(arg.render_value(&Json::Array(vec![text("{{case.n}}"), num(1)])).unwrap(), Json::Array(vec![text("3"), num(1)]));
    assert_eq!(arg.render_value(&text("{{case.none}}")).unwrap_err().get_code(), "tpl");
    assert!(arg.check(&text("hello")));
    assert!(!arg.check(&text("bye")));
    let error = RunArgStruct::new(&flow, &ctx, case_id(), "zz".to_string()).err().unwrap();
    assert_eq!(error.get_code(), "010");
    assert_eq!(error.get_message(), "invalid step");
}

#[test]
fn create_arg_tells_of_its_step() {
    let ctx = context();
    let flow = flow_with(object(vec![("url", text("redis://{{def.host}}"))]));
    let arg = CreateArgStruct::new(&flow, &ctx, task_id(), "redis".to_string(), "a".to_string()).unwrap();
    assert_eq!(arg.id(), "e1-t1-create-create-a");
    assert_eq!(arg.action(), "redis");
    assert_eq!(arg.config(), &object(vec![("url", text("redis://{{def.host}}"))]));
    assert_eq!(arg.render_str("{{case.word}}").unwrap(), "hello");
    assert!(arg.is_task_shared("redis://{{def.host}}"));
    assert!(!arg.is_task_shared("redis://{{case.host}}"));
    assert!(CreateArgStruct::new(&flow, &ctx, task_id(), "redis".to_string(), "b".to_string()).is_err());
}

const FLOW: &str = "
def:
  host: h1
pre: [login]
stage:
  - id: s1
    step: [a, b]
    concurrency: 4
    round: 2
    duration: 60
    break_on: stage_fail
    case_filter: (gt case.x 1)
  - id: s2
    step: [b]
    duration: 5
step:
  login:
    action: echo
    timeout: 3
  a:
    action: crypto
    timeout: 10
    assert: (eq res 1)
    dyn: token
    config:
      by: md5
  b:
    action: sleep
    timeout: 1
";

#[test]
fn flow_is_read_from_its_document() {
    let flow = Flow::new(&from_yaml(FLOW).unwrap()).unwrap();
    assert_eq!(flow.def(), Some(&object(vec![("host", text("h1"))])));
    assert_eq!(flow.pre_step_id_vec(), Some(&vec!["login".to_string()]));
    assert_eq!(flow.stage_count(), 2);
    let first = flow.stage(0);
    assert_eq!(first.id, "s1");
    assert_eq!(first.step, vec!["a".to_string(), "b".to_string()]);
    assert_eq!(first.concurrency, 4);
    assert_eq!(first.round, 2);
    assert_eq!(first.duration, 60);
    assert_eq!(first.break_on, BreakOn::StageFail);
    assert_eq!(first.case_filter, Some("(gt case.x 1)".to_string()));
    let second = flow.stage(1);
    assert_eq!(second.concurrency, 1);
    assert_eq!(second.round, 1);
    assert_eq!(second.break_on, BreakOn::Never);
    assert_eq!(second.case_filter, None);
    let a = flow.step("a").unwrap();
    assert_eq!(a.action, "crypto");
    assert_eq!(a.timeout, 10);
    assert_eq!(a.condition, Some("(eq res 1)".to_string()));
    assert_eq!(a.dynamic, Some("token".to_string()));
    assert_eq!(a.config, object(vec![("by", text("md5"))]));
    let login = flow.step("login").unwrap();
    assert_eq!(login.config, Json::Null);
    assert_eq!(login.condition, None);
    assert!(flow.step("zz").is_none());
}

#[test]
fn document_that_is_no_flow_is_refused() {
    let bad = vec![
        "step: {}\n",
        "stage: []\n",
        "stage: {}\nstep: {}\n",
        "stage: []\nstep: []\n",
        "stage: [{id: s, step: [a], duration: 1}]\nstep: {}\n",
        "stage: [{step: [], duration: 1}]\nstep: {}\n",
        "stage: [{id: s, duration: 1}]\nstep: {}\n",
        "stage: [{id: s, step: [], duration: 1, concurrency: 0}]\nstep: {}\n",
        "stage: [{id: s, step: []}]\nstep: {}\n",
        "stage: [{id: s, step: [], duration: -1}]\nstep: {}\n",
        "stage: [{id: s, step: [], duration: 1, round: x}]\nstep: {}\n",
        "stage: [{id: s, step: [], duration: 1, break_on: sometimes}]\nstep: {}\n",
        "stage: [{id: s, step: [], duration: 1, case_filter: 3}]\nstep: {}\n",
        "stage: [{id: s, step: [1], duration: 1}]\nstep: {}\n",
        "stage: []\nstep: {a: {timeout: 1}}\n",
        "stage: []\nstep: {a: {action: echo}}\n",
        "stage: []\nstep: {a: {action: echo, timeout: 1, assert: 3}}\n",
        "stage: []\nstep: {a: 3}\n",
        "stage: []\nstep: {}\npre: [a]\n",
        "stage: []\nstep: {}\npre: a\n",
    ];
    for text in bad {
        let error = Flow::new(&from_yaml(text).unwrap()).err().unwrap_or_else(|| panic!("{}", text));
        assert_eq!(error.get_code(), "flow");
    }
    assert!(Flow::new(&from_yaml("stage: []\nstep: {}\n").unwrap()).is_ok());
    assert!(Flow::new(&from_yaml("stage: []\nstep: {}\npre: ~\ndef: ~\n").unwrap()).is_ok());
}
