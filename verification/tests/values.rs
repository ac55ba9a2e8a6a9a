//! Documents, their text, templates and texts.

use chord::codec::from_str;
use chord::codec::from_yaml;
use chord::codec::to_string;
use chord::conf::load_conf;
use chord::conf::Config;
use chord::error::ErrorStruct;
use chord::id::CaseId;
use chord::id::CaseIdStruct;
use chord::id::StepIdStruct;
use chord::id::TaskIdSimple;
use chord::render::evaluate;
use chord::render::is_true;
use chord::render::is_task_shared;
use chord::render::render;
use chord::render::RenderContext;
use chord::text::contains;
use chord::text::decimal;
use chord::text::parse_u64;
use chord::text::str_eq;
use chord::value::Json;
use chord::value::Number;

fn text(s: &str) -> Json {
    Json::String(s.to_string())
}

fn num(n: u64) -> Json {
    Json::Number(Number::PosInt(n))
}

fn object(members: Vec<(&str, Json)>) -> Json {
    Json::Object(members.into_iter().map(|(k, v)| (k.to_string(), v)).collect())
}

#[test]
fn error_holds_code_message_and_cause() {
    let e = ErrorStruct::new("001", "timeout");
    assert_eq!(e.get_code(), "001");
    assert_eq!(e.get_message(), "timeout");
    assert!(e.get_cause().is_none());
    assert_eq!(e.to_string(), "{ \"code\": \"001\", \"message\": \"timeout\" }");
    let outer = ErrorStruct::cause("io", "cannot read", e);
    assert_eq!(outer.get_code(), "io");
    assert_eq!(outer.get_message(), "cannot read");
    assert_eq!(outer.get_cause().unwrap().get_code(), "001");
    let copy = outer.clone();
    assert_eq!(copy.get_cause().unwrap().get_message(), "timeout");
}

#[test]
fn identities_are_shown_as_text() {
    let task = TaskIdSimple::new("e1".to_string(), "t1".to_string());
    assert_eq!(task.exec_id(), "e1");
    assert_eq!(task.task_id(), "t1");
    assert_eq!(task.to_string(), "e1-t1");
    let case = CaseIdStruct::new(task, "7".to_string(), "s1_2".to_string());
    assert_eq!(case.case(), "7");
    assert_eq!(case.exec_id(), "s1_2");
    assert_eq!(case.task_id().task_id(), "t1");
    assert_eq!(case.to_string(), "e1-t1-s1_2-7");
    let step = StepIdStruct::new(case, "login".to_string());
    assert_eq!(step.step(), "login");
    assert_eq!(step.case_id().case(), "7");
    assert_eq!(step.to_string(), "e1-t1-s1_2-7-login");
}

#[test]
fn json_is_written_compact_with_sorted_keys() {
    let doc = object(vec![
        ("b", Json::Array(vec![num(1), Json::Number(Number::NegInt(-2)), Json::Null])),
        ("a", Json::Bool(true)),
        ("c", Json::Number(Number::Float("1.5".to_string()))),
    ]);
    assert_eq!(to_string(&doc), "{\"a\":true,\"b\":[1,-2,null],\"c\":1.5}");
    assert_eq!(to_string(&text("x\"y")), "\"x\\\"y\"");
}

#[test]
fn later_member_of_the_same_key_counts() {
    let doc = object(vec![("a", num(1)), ("a", num(2))]);
    assert_eq!(to_string(&doc), "{\"a\":2}");
    assert_eq!(doc.get("a"), Some(&num(2)));
    assert_eq!(doc.get("b"), None);
    assert_eq!(num(1).get("a"), None);
}

#[test]
fn json_is_read_from_text() {
    let doc = from_str("{\"b\": [1, -2, 2.5, \"x\"], \"a\": null}").unwrap();
    assert_eq!(
        doc,
        object(vec![
            ("a", Json::Null),
            (
                "b",
                Json::Array(vec![
                    num(1),
                    Json::Number(Number::NegInt(-2)),
                    Json::Number(Number::Float("2.5".to_string())),
                    text("x"),
                ])
            ),
        ])
    );
    let error = from_str("{\"b\": ").unwrap_err();
    assert_eq!(error.get_code(), "json");
}

#[test]
fn yaml_is_read_as_a_document() {
    let doc = from_yaml("log:\n  path: /tmp/x.log\n  level:\n    chord: debug\n    other: 3\n").unwrap();
    assert_eq!(
        doc,
        object(vec![(
            "log",
            object(vec![
                ("level", object(vec![("chord", text("debug")), ("other", num(3))])),
                ("path", text("/tmp/x.log")),
            ])
        )])
    );
    assert_eq!(from_yaml("a: [1, 2").unwrap_err().get_code(), "yaml");
}

#[test]
fn accessors_tell_what_a_document_is() {
    assert!(Json::Null.is_null());
    assert!(!num(0).is_null());
    assert!(text("a").is_string());
    assert_eq!(text("a").as_str(), Some("a"));
    assert_eq!(num(1).as_str(), None);
    assert_eq!(Json::Bool(true).as_bool(), Some(true));
    assert_eq!(num(7).as_u64(), Some(7));
    assert_eq!(Json::Number(Number::NegInt(7)).as_u64(), Some(7));
    assert_eq!(Json::Number(Number::NegInt(-7)).as_u64(), None);
    assert_eq!(Json::Number(Number::Float("7.0".to_string())).as_u64(), None);
    assert_eq!(Json::Array(vec![num(1)]).as_array().unwrap().len(), 1);
    assert!(num(1).as_array().is_none());
    assert_eq!(object(vec![("a", num(1))]).as_object().unwrap().len(), 1);
    let doc = object(vec![("a", Json::Array(vec![text("x")]))]);
    assert_eq!(doc.clone(), doc);
}

#[test]
fn template_is_rendered_against_data() {
    let data = object(vec![("case", object(vec![("name", text("A")), ("n", num(3))]))]);
    assert_eq!(render("hello {{case.name}} {{case.n}}", &data).unwrap(), "hello A 3");
    assert_eq!(render("plain", &data).unwrap(), "plain");
}

#[test]
fn undefined_variable_and_bad_syntax_are_render_errors() {
    let data = object(vec![("case", object(vec![("name", text("A"))]))]);
    assert_eq!(render("{{case.missing}}", &data).unwrap_err().get_code(), "tpl");
    assert_eq!(render("{{#if}", &data).unwrap_err().get_code(), "tpl");
}

#[test]
fn condition_is_decided_and_errors_do_not_hold() {
    let data = object(vec![("res", num(3)), ("flag", Json::Bool(false))]);
    assert!(evaluate("(eq res 3)", &data));
    assert!(!evaluate("(eq res 4)", &data));
    assert!(evaluate("(gt res 1)", &data));
    assert!(!evaluate("flag", &data));
    assert!(!evaluate("(eq missing 3)", &data));
    assert!(!evaluate("(((", &data));
}

#[test]
fn namespace_holds_what_steps_returned() {
    let mut context = RenderContext::new(
        Some(object(vec![("host", text("h1"))])),
        Some(object(vec![("step", object(vec![("p", object(vec![("value", num(9))]))]))])),
        object(vec![("name", text("A"))]),
    );
    assert_eq!(
        to_string(&context.data()),
        "{\"case\":{\"name\":\"A\"},\"curr\":null,\"def\":{\"host\":\"h1\"},\"dyn\":{},\"pre\":{\"step\":{\"p\":{\"value\":9}}},\"step\":{}}"
    );
    context.register_step("a", &num(1));
    context.register_dynamic("a", &num(1));
    context.register_step("b", &text("two"));
    assert_eq!(
        context.render_str("{{def.host}} {{pre.step.p.value}} {{case.name}} {{step.a.value}} {{step.b.value}} {{dyn.a}}").unwrap(),
        "h1 9 A 1 two 1"
    );
    assert_eq!(context.render_str("{{step.c.value}}").unwrap_err().get_code(), "tpl");
    assert!(context.evaluate_boolean("(eq res 5)", Some(("res", &num(5)))));
    assert!(!context.evaluate_boolean("(eq res 5)", None));
    assert!(context.evaluate_boolean("(eq step.a.value 1)", None));
    let copy = context.clone();
    assert_eq!(to_string(&copy.data()), to_string(&context.data()));
    assert_eq!(
        to_string(&context.data_with("res", &num(5))),
        "{\"case\":{\"name\":\"A\"},\"curr\":null,\"def\":{\"host\":\"h1\"},\"dyn\":{\"a\":1},\"pre\":{\"step\":{\"p\":{\"value\":9}}},\"res\":5,\"step\":{\"a\":{\"value\":1},\"b\":{\"value\":\"two\"}}}"
    );
}

#[test]
fn namespace_without_constants_has_no_such_member() {
    let context = RenderContext::new(None, None, Json::Null);
    assert_eq!(to_string(&context.data()), "{\"case\":null,\"curr\":null,\"dyn\":{},\"step\":{}}");
}

#[test]
fn text_that_reads_a_case_is_not_shared() {
    assert!(is_task_shared("redis://{{def.host}}:6379"));
    assert!(is_task_shared("{{pre.step.login.value}}"));
    assert!(is_task_shared(""));
    assert!(!is_task_shared("redis://{{case.host}}"));
    assert!(!is_task_shared("x{{step.a.value}}"));
    assert!(!is_task_shared("{{curr.x}}"));
    assert!(is_task_shared("case.host"));
}

#[test]
fn texts_are_compared_and_searched_by_content() {
    assert!(str_eq("abc", "abc"));
    assert!(!str_eq("abc", "abd"));
    assert!(!str_eq("abc", "ab"));
    assert!(str_eq("", ""));
    assert!(contains("hello world", "lo w"));
    assert!(contains("hello", ""));
    assert!(contains("hello", "hello"));
    assert!(!contains("hello", "hello!"));
    assert!(!contains("hello", "xyz"));
    assert!(contains("héllo", "éll"));
}

#[test]
fn numbers_are_written_and_read_in_decimal() {
    assert_eq!(decimal(0), "0");
    assert_eq!(decimal(7), "7");
    assert_eq!(decimal(10), "10");
    assert_eq!(decimal(1234567890), "1234567890");
    assert_eq!(decimal(u64::MAX), "18446744073709551615");
    assert_eq!(parse_u64("0"), Some(0));
    assert_eq!(parse_u64("42"), Some(42));
    assert_eq!(parse_u64("+42"), Some(42));
    assert_eq!(parse_u64("007"), Some(7));
    assert_eq!(parse_u64("18446744073709551615"), Some(u64::MAX));
    assert_eq!(parse_u64("18446744073709551616"), None);
    assert_eq!(parse_u64(""), None);
    assert_eq!(parse_u64("+"), None);
    assert_eq!(parse_u64("-1"), None);
    assert_eq!(parse_u64("4 2"), None);
    assert_eq!(parse_u64("4a"), None);
}

#[test]
fn configuration_falls_back_where_it_says_nothing() {
    let config = Config::new(Json::Null);
    assert_eq!(config.log_path(), "/data/chord/job/output/cmd.log");
    assert_eq!(config.log_level(), vec![]);
    assert_eq!(config.action(), None);
    assert_eq!(
        config.report(),
        Some(&object(vec![("csv", object(vec![("dir", text("/data/chord/job/output"))]))]))
    );
}

#[test]
fn configuration_says_where_and_what_to_log() {
    let doc = object(vec![
        (
            "log",
            object(vec![
                ("path", text("/tmp/chord.log")),
                (
                    "level",
                    object(vec![("chord", text("debug")), ("n", num(3)), ("surf", text("warn"))]),
                ),
            ]),
        ),
        ("action", object(vec![("redis", Json::Null)])),
        ("report", object(vec![("mongodb", text("url"))])),
    ]);
    let config = Config::new(doc);
    assert_eq!(config.log_path(), "/tmp/chord.log");
    assert_eq!(
        config.log_level(),
        vec![("chord".to_string(), "debug".to_string()), ("surf".to_string(), "warn".to_string())]
    );
    assert_eq!(config.action(), Some(&object(vec![("redis", Json::Null)])));
    assert_eq!(config.report(), Some(&object(vec![("mongodb", text("url"))])));
}

#[test]
fn configuration_counts_the_later_level_of_a_target() {
    let doc = object(vec![(
        "log",
        object(vec![(
            "level",
            object(vec![("a", text("info")), ("b", text("warn")), ("a", text("debug")), ("b", num(1))]),
        )]),
    )]);
    assert_eq!(Config::new(doc).log_level(), vec![("a".to_string(), "debug".to_string())]);
}

#[test]
fn level_of_a_target_is_that_of_its_longest_beginning() {
    let levels = vec![
        ("chord".to_string(), "info".to_string()),
        ("chord::flow".to_string(), "trace".to_string()),
        ("".to_string(), "warn".to_string()),
        ("chord".to_string(), "error".to_string()),
    ];
    assert_eq!(chord::conf::level_for(&levels, "chord::flow::task"), Some(1));
    assert_eq!(chord::conf::level_for(&levels, "chord::step"), Some(0));
    assert_eq!(chord::conf::level_for(&levels, "surf"), Some(2));
    assert_eq!(chord::conf::level_for(&levels[..2].to_vec(), "surf"), None);
    assert_eq!(chord::conf::level_for(&vec![], "surf"), None);
    assert!(chord::text::starts_with("chord::flow", "chord"));
    assert!(chord::text::starts_with("chord", ""));
    assert!(!chord::text::starts_with("chord", "chord::flow"));
    assert!(!chord::text::starts_with("chord", "chore"));
}

#[test]
fn missing_configuration_file_is_null() {
    assert_eq!(load_conf(None).unwrap(), Json::Null);
    assert_eq!(load_conf(Some("a: 1")).unwrap(), object(vec![("a", num(1))]));
    assert_eq!(load_conf(Some("a: [")).unwrap_err().get_code(), "yaml");
}

#[test]
fn condition_holds_where_its_template_rendered_to_true() {
    assert!(is_true(&Ok("true".to_string())));
    assert!(!is_true(&Ok("false".to_string())));
    assert!(!is_true(&Ok("True".to_string())));
    assert!(!is_true(&Ok(String::new())));
    assert!(!is_true(&Err(ErrorStruct::new("tpl", "true"))));
}
