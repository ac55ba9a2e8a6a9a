//! The action that invokes a Dubbo service through a gateway: what the
//! gateway is started with, what it is asked, and what is made of its
//! answer.

use vstd::prelude::*;
use crate::action::crypto::action_value_view;
use crate::action::crypto::missing;
use crate::action::crypto::missing_error;
use crate::action::crypto::text_member;
use crate::codec::json_from_text;
use crate::codec::json_text;
use crate::conf::member;
use crate::error::ErrorStruct;
use crate::error::ErrorView;
use crate::flow::names_view;
use crate::render::context_data;
use crate::render::render_result;
use crate::step::ActionValue;
use crate::step::RunArgStruct;
use crate::text::decimal;
use crate::text::decimal_text;
use crate::value::items_view;
use crate::value::lemma_items_push;
use crate::value::lemma_members_push;
use crate::value::Json;
use crate::value::JsonView;

verus! {

/// The pieces that `str::split` cuts a text into at any of the given
/// characters.
pub uninterp spec fn split_text(text: Seq<char>, separators: Seq<char>) -> Seq<Seq<char>>;

/// What `str::trim` leaves of a text.
pub uninterp spec fn trimmed(text: Seq<char>) -> Seq<char>;

/// `str::split` with a slice of characters as the pattern: the pieces of
/// the text between the characters, in order.
#[verifier::external_body]
fn split_any(text: &str, separators: &Vec<char>) -> (pieces: Vec<String>)
    ensures
        names_view(pieces@) == split_text(text@, separators@),
{
    text.split(separators.as_slice()).map(String::from).collect()
}

/// `str::trim`: the text without the white space at its ends.
#[verifier::external_body]
fn trim(text: &str) -> (out: String)
    ensures
        out@ == trimmed(text@),
{
    text.trim().to_string()
}

/// The characters at which the name of a method is cut: `#`, `(`, `,` and
/// `)`.
pub open spec fn method_separators() -> Seq<char> {
    seq!['#', '(', ',', ')']
}

/// The texts of a list, each trimmed.
pub open spec fn trimmed_all(pieces: Seq<Seq<char>>) -> Seq<Seq<char>> {
    Seq::new(pieces.len(), |i: int| trimmed(pieces[i]))
}

/// The texts of a list that are not empty, in order.
pub open spec fn filled_pieces(pieces: Seq<Seq<char>>) -> Seq<Seq<char>>
    decreases pieces.len(),
{
    if pieces.len() == 0 {
        Seq::empty()
    } else {
        let head = filled_pieces(pieces.drop_last());
        if pieces.last().len() > 0 {
            head.push(pieces.last())
        } else {
            head
        }
    }
}

/// The parts of the name of a method, written as
/// `interface#method(type, type)`: the interface, the method, and the types
/// of the arguments.
pub open spec fn method_parts(name: Seq<char>) -> Seq<Seq<char>> {
    filled_pieces(trimmed_all(split_text(name, method_separators())))
}

/// The error of a name that does not hold an interface and a method.
pub open spec fn method_error() -> ErrorView {
    ErrorView { code: "010"@, message: "invalid method"@, cause: None }
}

/// The parts of the name of a method, given the trimmed pieces that it was
/// cut into: those that are not empty. Fewer than two parts are refused with
/// the code `010`.
pub fn parts_of(pieces: Vec<String>) -> (r: Result<Vec<String>, ErrorStruct>)
    ensures
        match r {
            Ok(parts) => names_view(parts@) == filled_pieces(names_view(pieces@)) && parts.len() >= 2,
            Err(e) => filled_pieces(names_view(pieces@)).len() < 2 && e@ == method_error(),
        },
{
    let ghost all = names_view(pieces@);
    let mut parts: Vec<String> = Vec::new();
    let mut i: usize = 0;
    proof {
        assert(all.take(0) =~= Seq::empty());
        assert(names_view(parts@) =~= Seq::empty());
    }
    while i < pieces.len()
        invariant
            i <= pieces.len(),
            all == names_view(pieces@),
            names_view(parts@) == filled_pieces(all.take(i as int)),
        decreases pieces.len() - i,
    {
        proof {
            let next = all.take(i as int + 1);
            assert(next.drop_last() =~= all.take(i as int));
            assert(next.last() == pieces@[i as int]@);
        }
        if pieces[i].as_str().unicode_len() > 0 {
            let ghost before = names_view(parts@);
            parts.push(pieces[i].clone());
            proof {
                assert(names_view(parts@) =~= before.push(pieces@[i as int]@));
            }
        }
        i += 1;
    }
    proof {
        assert(all.take(i as int) =~= all);
    }
    if parts.len() < 2 {
        Err(ErrorStruct::new("010", "invalid method"))
    } else {
        Ok(parts)
    }
}

/// The parts of the name of a method. A name that does not hold an
/// interface and a method is refused with the code `010`.
pub fn parse_method(name: &str) -> (r: Result<Vec<String>, ErrorStruct>)
    ensures
        match r {
            Ok(parts) => names_view(parts@) == method_parts(name@) && parts.len() >= 2,
            Err(e) => method_parts(name@).len() < 2 && e@ == method_error(),
        },
{
    let mut separators: Vec<char> = Vec::new();
    separators.push('#');
    separators.push('(');
    separators.push(',');
    separators.push(')');
    assert(separators@ =~= method_separators());
    let pieces = split_any(name, &separators);
    let mut trimmed_pieces: Vec<String> = Vec::new();
    let mut i: usize = 0;
    while i < pieces.len()
        invariant
            i <= pieces.len(),
            trimmed_pieces.len() == i,
            forall|k: int| 0 <= k < i ==> trimmed_pieces@[k]@ == trimmed(pieces@[k]@),
        decreases pieces.len() - i,
    {
        trimmed_pieces.push(trim(pieces[i].as_str()));
        i += 1;
    }
    assert(names_view(trimmed_pieces@) =~= trimmed_all(names_view(pieces@)));
    parts_of(trimmed_pieces)
}

/// What the gateway is started with.
#[derive(Debug)]
pub struct Factory {
    /// The file that holds the gateway.
    pub jar_path: String,
    /// The port that the gateway listens on.
    pub port: u64,
    /// The kind of registry that the services are found in.
    pub registry_protocol: String,
    /// Where the registry is.
    pub registry_address: String,
}

/// The mathematical content of a [`Factory`].
pub struct FactoryView {
    pub jar_path: Seq<char>,
    pub port: int,
    pub registry_protocol: Seq<char>,
    pub registry_address: Seq<char>,
}

impl View for Factory {
    type V = FactoryView;

    open spec fn view(&self) -> FactoryView {
        FactoryView {
            jar_path: self.jar_path@,
            port: self.port as int,
            registry_protocol: self.registry_protocol@,
            registry_address: self.registry_address@,
        }
    }
}

/// What a configuration says the gateway is started with: `jar_path`,
/// `port` and `registry.address` have to be there; `registry.protocol` is
/// `zookeeper` where it is not.
pub open spec fn factory_of(config: Option<JsonView>) -> Result<FactoryView, ErrorView> {
    match config {
        None => Err(missing("config"@)),
        Some(JsonView::Null) => Err(missing("config"@)),
        Some(c) => match member(c, "jar_path"@) {
            JsonView::Str(jar_path) => match member(c, "port"@) {
                JsonView::Int(port) => if 0 <= port <= u64::MAX {
                    match member(member(c, "registry"@), "address"@) {
                        JsonView::Str(registry_address) => Ok(
                            FactoryView {
                                jar_path,
                                port,
                                registry_protocol: match member(member(c, "registry"@), "protocol"@) {
                                    JsonView::Str(p) => p,
                                    _ => "zookeeper"@,
                                },
                                registry_address,
                            },
                        ),
                        _ => Err(missing("registry_address"@)),
                    }
                } else {
                    Err(missing("port"@))
                },
                _ => Err(missing("port"@)),
            },
            _ => Err(missing("jar_path"@)),
        },
    }
}

/// The line by which the gateway says that it has started.
pub open spec fn started_line() -> Seq<char> {
    "----dubbo-generic-gateway-started----"@
}

impl Factory {
    /// What a configuration says the gateway is started with. A
    /// configuration that lacks a member is refused with the code `010`.
    pub fn new(config: Option<&Json>) -> (r: Result<Factory, ErrorStruct>)
        ensures
            match r {
                Ok(f) => factory_of(
                    match config {
                        Some(c) => Some(c@),
                        None => None,
                    },
                ) == Ok::<FactoryView, ErrorView>(f@),
                Err(e) => factory_of(
                    match config {
                        Some(c) => Some(c@),
                        None => None,
                    },
                ) == Err::<FactoryView, ErrorView>(e@),
            },
    {
        let config = match config {
            Some(c) => c,
            None => {
                return Err(missing_error("config"));
            },
        };
        if config.is_null() {
            return Err(missing_error("config"));
        }
        let jar_path = match text_member(config, "jar_path") {
            Some(p) => p.to_owned(),
            None => {
                return Err(missing_error("jar_path"));
            },
        };
        let port = match config.get("port") {
            Some(p) => match p.as_u64() {
                Some(n) => n,
                None => {
                    return Err(missing_error("port"));
                },
            },
            None => {
                return Err(missing_error("port"));
            },
        };
        let null = Json::Null;
        let registry = match config.get("registry") {
            Some(r) => r,
            None => &null,
        };
        let registry_protocol = match text_member(registry, "protocol") {
            Some(p) => p.to_owned(),
            None => "zookeeper".to_owned(),
        };
        let registry_address = match text_member(registry, "address") {
            Some(a) => a.to_owned(),
            None => {
                return Err(missing_error("registry_address"));
            },
        };
        Ok(Factory { jar_path, port, registry_protocol, registry_address })
    }

    /// The argument that tells the gateway its port: `--server.port=<port>`.
    pub fn port_argument(&self) -> (text: String)
        ensures
            text@ == "--server.port="@ + decimal_text(self.port as nat),
    {
        let mut text = "--server.port=".to_owned();
        text.append(decimal(self.port).as_str());
        text
    }

    /// Where the gateway takes invocations:
    /// `http://127.0.0.1:<port>/api/dubbo/generic/invoke`.
    pub fn invoke_url(&self) -> (text: String)
        ensures
            text@ == "http://127.0.0.1:"@ + decimal_text(self.port as nat) + "/api/dubbo/generic/invoke"@,
    {
        let mut text = "http://127.0.0.1:".to_owned();
        text.append(decimal(self.port).as_str());
        text.append("/api/dubbo/generic/invoke");
        text
    }

    /// Whether a line that the gateway prints says that it has started.
    pub fn is_started(line: &str) -> (b: bool)
        ensures
            b == (line@ == started_line()),
    {
        crate::text::str_eq(line, "----dubbo-generic-gateway-started----")
    }
}

/// The content of a document or an error.
pub open spec fn rendered_content(content: JsonView, data: JsonView) -> Result<JsonView, ErrorView> {
    match content {
        JsonView::Null => Ok(JsonView::Null),
        _ => {
            let template = match content {
                JsonView::Str(s) => s,
                _ => json_text(content),
            };
            match render_result(template, data) {
                Ok(text) => match json_from_text(text) {
                    Some(v) => Ok(v),
                    None => Err(ErrorView { code: "json"@, message: Seq::empty(), cause: None }),
                },
                Err(message) => Err(ErrorView { code: "tpl"@, message, cause: None }),
            }
        },
    }
}

/// Whether a result is what rendering a content comes to: the same value,
/// or an error of the same code, with the same message where the template
/// could not be rendered.
pub open spec fn is_rendering(r: Result<JsonView, ErrorView>, wanted: Result<JsonView, ErrorView>) -> bool {
    match wanted {
        Ok(v) => r == Ok::<JsonView, ErrorView>(v),
        Err(e) => r is Err && r->Err_0.code == e.code && r->Err_0.cause is None && (e.code == "tpl"@
            ==> r->Err_0.message == e.message),
    }
}

/// An argument of an invocation, rendered: null stays null; a string is
/// rendered and read as JSON; anything else is written as JSON, rendered,
/// and read back.
pub fn render(arg: &RunArgStruct, content: &Json) -> (r: Result<Json, ErrorStruct>)
    ensures
        is_rendering(action_value_view(r), rendered_content(content@, context_data(arg.context()))),
{
    if content.is_null() {
        return Ok(Json::Null);
    }
    proof {
        reveal_strlit("json");
        reveal_strlit("tpl");
        assert("json"@.len() == 4);
        assert("tpl"@.len() == 3);
    }
    let rendered = match content.as_str() {
        Some(template) => arg.render_str(template),
        None => {
            let text = crate::codec::to_string(content);
            arg.render_str(text.as_str())
        },
    };
    match rendered {
        Ok(text) => crate::codec::from_str(text.as_str()),
        Err(e) => Err(e),
    }
}

/// What the gateway is asked:
/// `{"reference": {"application": {"name": "chord"}, "registry":
/// {"protocol": .., "address": ..}, "interface": ..}, "method": ..,
/// "arg_types": [..], "args": [..]}`.
pub open spec fn invocation(factory: FactoryView, parts: Seq<Seq<char>>, args: Seq<JsonView>) -> JsonView {
    let application = JsonView::Object(Map::<Seq<char>, JsonView>::empty().insert("name"@, JsonView::Str("chord"@)));
    let registry = JsonView::Object(
        Map::<Seq<char>, JsonView>::empty().insert("protocol"@, JsonView::Str(factory.registry_protocol)).insert(
            "address"@,
            JsonView::Str(factory.registry_address),
        ),
    );
    let reference = JsonView::Object(
        Map::<Seq<char>, JsonView>::empty().insert("application"@, application).insert(
            "registry"@,
            registry,
        ).insert("interface"@, JsonView::Str(parts[0])),
    );
    JsonView::Object(
        Map::<Seq<char>, JsonView>::empty().insert("reference"@, reference).insert(
            "method"@,
            JsonView::Str(parts[1]),
        ).insert("arg_types"@, JsonView::Array(Seq::new((parts.len() - 2) as nat, |i: int| JsonView::Str(parts[i + 2])))).insert(
            "args"@,
            JsonView::Array(args),
        ),
    )
}

fn pair(key: &str, value: Json) -> (member: (String, Json))
    ensures
        member.0@ == key@,
        member.1@ == value@,
{
    (key.to_owned(), value)
}

fn object1(a: (String, Json)) -> (v: Json)
    ensures
        v@ == JsonView::Object(Map::<Seq<char>, JsonView>::empty().insert(a.0@, a.1@)),
{
    let mut members: Vec<(String, Json)> = Vec::new();
    proof {
        lemma_members_push(members@, a);
    }
    members.push(a);
    Json::Object(members)
}

impl Factory {
    /// What the gateway is asked, for a method by its parts and the
    /// arguments to invoke it with.
    pub fn request(&self, parts: &Vec<String>, args: Vec<Json>) -> (v: Json)
        requires
            parts.len() >= 2,
        ensures
            v@ == invocation(self@, names_view(parts@), items_view(args@)),
    {
        let application = object1(pair("name", Json::String("chord".to_owned())));
        let mut registry: Vec<(String, Json)> = Vec::new();
        let protocol = pair("protocol", Json::String(self.registry_protocol.clone()));
        proof {
            lemma_members_push(registry@, protocol);
        }
        registry.push(protocol);
        let address = pair("address", Json::String(self.registry_address.clone()));
        proof {
            lemma_members_push(registry@, address);
        }
        registry.push(address);
        let mut reference: Vec<(String, Json)> = Vec::new();
        let a = pair("application", application);
        proof {
            lemma_members_push(reference@, a);
        }
        reference.push(a);
        let b = pair("registry", Json::Object(registry));
        proof {
            lemma_members_push(reference@, b);
        }
        reference.push(b);
        let c = pair("interface", Json::String(parts[0].clone()));
        proof {
            lemma_members_push(reference@, c);
        }
        reference.push(c);
        let mut types: Vec<Json> = Vec::new();
        let mut i: usize = 2;
        while i < parts.len()
            invariant
                2 <= i <= parts.len(),
                items_view(types@) == Seq::new((i - 2) as nat, |k: int| JsonView::Str(names_view(parts@)[k + 2])),
            decreases parts.len() - i,
        {
            let item = Json::String(parts[i].clone());
            proof {
                lemma_items_push(types@, item);
                assert(items_view(types@).push(item@) =~= Seq::new(
                    (i + 1 - 2) as nat,
                    |k: int| JsonView::Str(names_view(parts@)[k + 2]),
                ));
            }
            types.push(item);
            i += 1;
        }
        let mut members: Vec<(String, Json)> = Vec::new();
        let d = pair("reference", Json::Object(reference));
        proof {
            lemma_members_push(members@, d);
        }
        members.push(d);
        let e = pair("method", Json::String(parts[1].clone()));
        proof {
            lemma_members_push(members@, e);
        }
        members.push(e);
        let f = pair("arg_types", Json::Array(types));
        proof {
            lemma_members_push(members@, f);
        }
        members.push(f);
        let g = pair("args", Json::Array(args));
        proof {
            lemma_members_push(members@, g);
        }
        members.push(g);
        Json::Object(members)
    }
}

/// What an invocation returned, given the gateway's answer: the member
/// `data` where the member `success` is true; else an error that holds the
/// members `code` and `message`, as JSON, with `::` between them.
pub open spec fn answer_value(answer: JsonView) -> Result<JsonView, ErrorView> {
    if member(answer, "success"@) == JsonView::Bool(true) {
        Ok(member(answer, "data"@))
    } else {
        Err(
            ErrorView {
                code: "dubbo"@,
                message: json_text(member(answer, "code"@)) + "::"@ + json_text(member(answer, "message"@)),
                cause: None,
            },
        )
    }
}

/// What an invocation returned, given the gateway's answer.
pub fn answer(reply: &Json) -> (r: ActionValue)
    ensures
        action_value_view(r) == answer_value(reply@),
{
    let null = Json::Null;
    let success = match reply.get("success") {
        Some(s) => match s.as_bool() {
            Some(b) => b,
            None => false,
        },
        None => false,
    };
    if success {
        match reply.get("data") {
            Some(data) => Ok(data.clone()),
            None => Ok(Json::Null),
        }
    } else {
        let code = match reply.get("code") {
            Some(c) => c,
            None => &null,
        };
        let message = match reply.get("message") {
            Some(m) => m,
            None => &null,
        };
        let mut text = crate::codec::to_string(code);
        text.append("::");
        text.append(crate::codec::to_string(message).as_str());
        Err(ErrorStruct::new("dubbo", text.as_str()))
    }
}

} // verus!
