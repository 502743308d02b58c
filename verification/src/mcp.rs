//! Answering JSON-RPC lines: from the text of a line to the reply the server
//! writes, or to the tool call it has to run first.
use vstd::prelude::*;

use crate::fields::{is_blank, missing_message, required_message, required_string};
use crate::json::{
    entry_lookup, entries_view, get_str, items_view, json_array, json_bool, json_entry, json_get, json_object,
    json_parse_spec, json_result_view, json_str, json_string, json_u64, parse_json, JsonV, Json,
};
use crate::listing::{list_limit, list_limit_spec};
use crate::rpc::{
    catalog_spec, properties_spec, property_view, required_spec, tool_catalog,
    lemma_catalog_matches_dispatch, route_rpc, rpc_route_spec, tool_description_spec, tool_from_name, tool_name_spec, tool_named,
    unknown_tool_message, unsupported_method_message, PropertyKind, RpcRoute, Tool, ToolProperty,
    METHOD_NOT_FOUND, PARSE_ERROR, PROTOCOL_VERSION, SERVER_NAME,
};
use crate::surface::{create_error, EventInput, SurfaceInput};
use crate::text::{dec, dec_signed, digits_u64_spec, fmt_u128, push_dec_signed};

verus! {

/// The version the server reports in `initialize`.
pub const SERVER_VERSION: &'static str = "0.1.0";

/// A successful reply: `{"jsonrpc": "2.0", "id": id, "result": result}`.
pub open spec fn result_message_spec(id: JsonV, result: JsonV) -> JsonV {
    JsonV::Object(seq![("jsonrpc"@, JsonV::Str("2.0"@)), ("id"@, id), ("result"@, result)])
}

/// An error reply: `{"jsonrpc": "2.0", "id": id, "error": {"code": code,
/// "message": message}}`.
pub open spec fn error_message_spec(id: JsonV, code: int, message: Seq<char>) -> JsonV {
    JsonV::Object(
        seq![
            ("jsonrpc"@, JsonV::Str("2.0"@)),
            ("id"@, id),
            (
                "error"@,
                JsonV::Object(
                    seq![("code"@, JsonV::Number(dec_signed(code))), ("message"@, JsonV::Str(message))],
                ),
            ),
        ],
    )
}

/// The result of `initialize`: protocol version, capabilities and server info.
pub open spec fn initialize_result_spec() -> JsonV {
    JsonV::Object(
        seq![
            ("protocolVersion"@, JsonV::Str(PROTOCOL_VERSION@)),
            ("capabilities"@, JsonV::Object(seq![("tools"@, JsonV::Object(seq![]))])),
            (
                "serverInfo"@,
                JsonV::Object(
                    seq![("name"@, JsonV::Str(SERVER_NAME@)), ("version"@, JsonV::Str(SERVER_VERSION@))],
                ),
            ),
        ],
    )
}

/// The reply to a `tools/call` whose tool ran: the tool's text (its JSON
/// result, or its error message) as one text item, and whether it failed.
pub open spec fn tool_reply_spec(id: JsonV, outcome: Result<Seq<char>, Seq<char>>) -> JsonV {
    let (text, is_error) = match outcome {
        Ok(t) => (t, false),
        Err(e) => (e, true),
    };
    result_message_spec(
        id,
        JsonV::Object(
            seq![
                (
                    "content"@,
                    JsonV::Array(
                        seq![JsonV::Object(seq![("type"@, JsonV::Str("text"@)), ("text"@, JsonV::Str(text))])],
                    ),
                ),
                ("isError"@, JsonV::Bool(is_error)),
            ],
        ),
    )
}

/// A successful reply to the request `id`.
pub fn result_message(id: Json, result: Json) -> (res: Json)
    ensures
        res@ == result_message_spec(id@, result@),
{
    let mut es: Vec<(String, Json)> = Vec::new();
    es.push(json_entry("jsonrpc", json_string("2.0")));
    es.push(json_entry("id", id));
    es.push(json_entry("result", result));
    let res = json_object(es);
    assert(entries_view(es@) =~= seq![("jsonrpc"@, JsonV::Str("2.0"@)), ("id"@, id@), ("result"@, result@)]);
    res
}

/// An error reply to the request `id`.
pub fn error_message(id: Json, code: i64, message: String) -> (res: Json)
    ensures
        res@ == error_message_spec(id@, code as int, message@),
{
    let mut code_text = String::new();
    push_dec_signed(&mut code_text, code);
    let mut inner: Vec<(String, Json)> = Vec::new();
    inner.push(json_entry("code", Json::Number(code_text)));
    inner.push(json_entry("message", Json::Str(message)));
    let err = json_object(inner);
    assert(entries_view(inner@) =~= seq![("code"@, JsonV::Number(dec_signed(code as int))), ("message"@, JsonV::Str(message@))]);
    let mut es: Vec<(String, Json)> = Vec::new();
    es.push(json_entry("jsonrpc", json_string("2.0")));
    es.push(json_entry("id", id));
    es.push(json_entry("error", err));
    let res = json_object(es);
    assert(entries_view(es@) =~= seq![("jsonrpc"@, JsonV::Str("2.0"@)), ("id"@, id@), ("error"@, err@)]);
    res
}

/// The result of `initialize`.
pub fn initialize_result() -> (res: Json)
    ensures
        res@ == initialize_result_spec(),
{
    let tools = json_object(Vec::new());
    assert(entries_view(Seq::<(String, Json)>::empty()) =~= seq![]);
    let mut caps: Vec<(String, Json)> = Vec::new();
    caps.push(json_entry("tools", tools));
    let caps = json_object(caps);
    let mut info: Vec<(String, Json)> = Vec::new();
    info.push(json_entry("name", json_string(SERVER_NAME)));
    info.push(json_entry("version", json_string(SERVER_VERSION)));
    let ghost info_view = entries_view(info@);
    let info = json_object(info);
    assert(info_view =~= seq![("name"@, JsonV::Str(SERVER_NAME@)), ("version"@, JsonV::Str(SERVER_VERSION@))]);
    let mut es: Vec<(String, Json)> = Vec::new();
    es.push(json_entry("protocolVersion", json_string(PROTOCOL_VERSION)));
    es.push(json_entry("capabilities", caps));
    es.push(json_entry("serverInfo", info));
    let ghost es_view = entries_view(es@);
    let res = json_object(es);
    assert(caps@->Object_0 =~= seq![("tools"@, JsonV::Object(seq![]))]);
    assert(es_view =~= seq![
        ("protocolVersion"@, JsonV::Str(PROTOCOL_VERSION@)),
        ("capabilities"@, JsonV::Object(seq![("tools"@, JsonV::Object(seq![]))])),
        ("serverInfo"@, info@),
    ]);
    res
}

/// The reply to a `tools/call` of the request `id`, given what the tool gave:
/// its result as JSON text, or its error message.
pub fn tool_reply(id: Json, outcome: Result<String, String>) -> (res: Json)
    ensures
        res@ == tool_reply_spec(
            id@,
            match outcome {
                Ok(t) => Ok(t@),
                Err(e) => Err(e@),
            },
        ),
{
    let (text, is_error) = match outcome {
        Ok(t) => (t, false),
        Err(e) => (e, true),
    };
    let ghost text_view = text@;
    let mut item: Vec<(String, Json)> = Vec::new();
    item.push(json_entry("type", json_string("text")));
    item.push(json_entry("text", Json::Str(text)));
    let ghost item_view = entries_view(item@);
    let item = json_object(item);
    assert(item_view =~= seq![("type"@, JsonV::Str("text"@)), ("text"@, JsonV::Str(text_view))]);
    let mut content: Vec<Json> = Vec::new();
    content.push(item);
    let ghost content_view = items_view(content@);
    let content = json_array(content);
    assert(content_view =~= seq![item@]);
    let mut es: Vec<(String, Json)> = Vec::new();
    es.push(json_entry("content", content));
    es.push(json_entry("isError", Json::Bool(is_error)));
    let ghost es_view = entries_view(es@);
    let body = json_object(es);
    assert(es_view =~= seq![("content"@, content@), ("isError"@, JsonV::Bool(is_error))]);
    result_message(id, body)
}

// ---------------------------------------------------------------------------
// tools/list
// ---------------------------------------------------------------------------

/// `{"type": kind}`.
pub open spec fn typed_spec(kind: Seq<char>) -> JsonV {
    JsonV::Object(seq![("type"@, JsonV::Str(kind))])
}

/// The schema of one tool argument.
pub open spec fn kind_json_spec(k: PropertyKind) -> JsonV {
    match k {
        PropertyKind::String => typed_spec("string"@),
        PropertyKind::Boolean => typed_spec("boolean"@),
        PropertyKind::Array => typed_spec("array"@),
        PropertyKind::Any => JsonV::Object(seq![]),
        PropertyKind::BoundedInteger { minimum, maximum } => JsonV::Object(
            seq![
                ("type"@, JsonV::Str("integer"@)),
                ("minimum"@, JsonV::Number(dec(minimum as nat))),
                ("maximum"@, JsonV::Number(dec(maximum as nat))),
            ],
        ),
    }
}

/// The `properties` of a tool's input schema: each argument with its schema.
pub open spec fn properties_json_spec(t: Tool) -> JsonV {
    JsonV::Object(
        properties_spec(t).map_values(
            |p: (Seq<char>, PropertyKind)| (p.0, kind_json_spec(p.1)),
        ),
    )
}

/// A tool's input schema: an object with its properties, and the list of
/// required arguments where there are any.
pub open spec fn input_schema_spec(t: Tool) -> JsonV {
    if required_spec(t).len() == 0 {
        JsonV::Object(
            seq![("type"@, JsonV::Str("object"@)), ("properties"@, properties_json_spec(t))],
        )
    } else {
        JsonV::Object(
            seq![
                ("type"@, JsonV::Str("object"@)),
                ("required"@, JsonV::Array(required_spec(t).map_values(|n: Seq<char>| JsonV::Str(n)))),
                ("properties"@, properties_json_spec(t)),
            ],
        )
    }
}

/// How `tools/list` describes a tool.
pub open spec fn tool_json_spec(t: Tool) -> JsonV {
    JsonV::Object(
        seq![
            ("name"@, JsonV::Str(tool_name_spec(t))),
            ("description"@, JsonV::Str(tool_description_spec(t))),
            ("inputSchema"@, input_schema_spec(t)),
        ],
    )
}

/// The result of `tools/list`: every tool of the catalog, in order.
pub open spec fn tools_list_spec() -> JsonV {
    JsonV::Object(
        seq![("tools"@, JsonV::Array(catalog_spec().map_values(|t: Tool| tool_json_spec(t))))],
    )
}

fn typed(kind: &str) -> (res: Json)
    ensures
        res@ == typed_spec(kind@),
{
    let mut es: Vec<(String, Json)> = Vec::new();
    es.push(json_entry("type", json_string(kind)));
    let ghost v = entries_view(es@);
    let res = json_object(es);
    assert(v =~= seq![("type"@, JsonV::Str(kind@))]);
    res
}

/// The schema of one tool argument.
pub fn kind_json(k: PropertyKind) -> (res: Json)
    ensures
        res@ == kind_json_spec(k),
{
    match k {
        PropertyKind::String => typed("string"),
        PropertyKind::Boolean => typed("boolean"),
        PropertyKind::Array => typed("array"),
        PropertyKind::Any => {
            let res = json_object(Vec::new());
            assert(entries_view(Seq::<(String, Json)>::empty()) =~= seq![]);
            res
        },
        PropertyKind::BoundedInteger { minimum, maximum } => {
            let mut es: Vec<(String, Json)> = Vec::new();
            es.push(json_entry("type", json_string("integer")));
            es.push(json_entry("minimum", Json::Number(fmt_u128(minimum as u128))));
            es.push(json_entry("maximum", Json::Number(fmt_u128(maximum as u128))));
            let ghost v = entries_view(es@);
            let res = json_object(es);
            assert(v =~= seq![
                ("type"@, JsonV::Str("integer"@)),
                ("minimum"@, JsonV::Number(dec(minimum as nat))),
                ("maximum"@, JsonV::Number(dec(maximum as nat))),
            ]);
            res
        },
    }
}

/// The `properties` of a tool's input schema.
fn properties_json(t: Tool) -> (res: Json)
    ensures
        res@ == properties_json_spec(t),
{
    let ps = t.properties();
    let ghost spec_ps = properties_spec(t);
    assert(spec_ps.len() == ps@.len() && forall|k: int| 0 <= k < ps@.len() ==> spec_ps[k] == property_view(#[trigger] ps@[k])) by {
        assert(ps@.map_values(|p: ToolProperty| property_view(p)).len() == ps@.len());
        assert forall|k: int| 0 <= k < ps@.len() implies spec_ps[k] == property_view(#[trigger] ps@[k]) by {
            assert(ps@.map_values(|p: ToolProperty| property_view(p))[k] == property_view(ps@[k]));
        }
    }
    let mut es: Vec<(String, Json)> = Vec::new();
    for i in 0..ps.len()
        invariant
            es@.len() == i,
            spec_ps == properties_spec(t),
            spec_ps.len() == ps@.len(),
            forall|k: int| 0 <= k < ps@.len() ==> spec_ps[k] == property_view(#[trigger] ps@[k]),
            forall|k: int|
                0 <= k < i ==> (#[trigger] es@[k]).0@ == ps@[k].name@ && es@[k].1@ == kind_json_spec(
                    ps@[k].kind,
                ),
    {
        let p = ps[i];
        es.push(json_entry(p.name, kind_json(p.kind)));
    }
    let ghost v = entries_view(es@);
    let res = json_object(es);
    assert(v =~= spec_ps.map_values(|p: (Seq<char>, PropertyKind)| (p.0, kind_json_spec(p.1))));
    res
}

/// A tool's input schema.
pub fn input_schema(t: Tool) -> (res: Json)
    ensures
        res@ == input_schema_spec(t),
{
    let props = properties_json(t);
    let required = t.required();
    let mut es: Vec<(String, Json)> = Vec::new();
    es.push(json_entry("type", json_string("object")));
    if required.len() == 0 {
        assert(required_spec(t).len() == 0) by {
            assert(required@.map_values(|n: &'static str| n@).len() == required@.len());
        }
        es.push(json_entry("properties", props));
        let ghost v = entries_view(es@);
        let res = json_object(es);
        assert(v =~= seq![("type"@, JsonV::Str("object"@)), ("properties"@, properties_json_spec(t))]);
        res
    } else {
        let ghost rs = required_spec(t);
        assert(rs.len() == required@.len() && forall|k: int| 0 <= k < required@.len() ==> rs[k] == (#[trigger] required@[k])@) by {
            assert(required@.map_values(|n: &'static str| n@).len() == required@.len());
            assert forall|k: int| 0 <= k < required@.len() implies rs[k] == (#[trigger] required@[k])@ by {
                assert(required@.map_values(|n: &'static str| n@)[k] == required@[k]@);
            }
        }
        let mut names: Vec<Json> = Vec::new();
        for i in 0..required.len()
            invariant
                names@.len() == i,
                rs.len() == required@.len(),
                forall|k: int| 0 <= k < required@.len() ==> rs[k] == (#[trigger] required@[k])@,
                forall|k: int| 0 <= k < i ==> (#[trigger] names@[k])@ == JsonV::Str(required@[k]@),
        {
            names.push(json_string(required[i]));
        }
        let ghost nv = items_view(names@);
        let names = json_array(names);
        assert(nv =~= rs.map_values(|n: Seq<char>| JsonV::Str(n)));
        es.push(json_entry("required", names));
        es.push(json_entry("properties", props));
        let ghost v = entries_view(es@);
        let res = json_object(es);
        assert(v =~= seq![
            ("type"@, JsonV::Str("object"@)),
            ("required"@, JsonV::Array(rs.map_values(|n: Seq<char>| JsonV::Str(n)))),
            ("properties"@, properties_json_spec(t)),
        ]);
        res
    }
}

/// How `tools/list` describes a tool.
pub fn tool_json(t: Tool) -> (res: Json)
    ensures
        res@ == tool_json_spec(t),
{
    let mut es: Vec<(String, Json)> = Vec::new();
    es.push(json_entry("name", json_string(t.name())));
    es.push(json_entry("description", json_string(t.description())));
    es.push(json_entry("inputSchema", input_schema(t)));
    let ghost v = entries_view(es@);
    let res = json_object(es);
    assert(v =~= seq![
        ("name"@, JsonV::Str(tool_name_spec(t))),
        ("description"@, JsonV::Str(tool_description_spec(t))),
        ("inputSchema"@, input_schema_spec(t)),
    ]);
    res
}

/// The result of `tools/list`.
pub fn tools_list() -> (res: Json)
    ensures
        res@ == tools_list_spec(),
{
    let all = tool_catalog();
    let mut items: Vec<Json> = Vec::new();
    for i in 0..all.len()
        invariant
            all@ == catalog_spec(),
            items@.len() == i,
            forall|k: int| 0 <= k < i ==> (#[trigger] items@[k])@ == tool_json_spec(all@[k]),
    {
        items.push(tool_json(all[i]));
    }
    let ghost iv = items_view(items@);
    let arr = json_array(items);
    assert(iv =~= catalog_spec().map_values(|t: Tool| tool_json_spec(t)));
    let mut es: Vec<(String, Json)> = Vec::new();
    es.push(json_entry("tools", arr));
    let ghost v = entries_view(es@);
    let res = json_object(es);
    assert(v =~= seq![("tools"@, arr@)]);
    res
}

// ---------------------------------------------------------------------------
// One line
// ---------------------------------------------------------------------------

/// What the server does with one JSON-RPC line.
#[derive(Debug)]
pub enum RpcAction {
    /// Write this reply.
    Reply(Json),
    /// Write nothing: the line is a notification.
    Silent,
    /// Run the tool `name` on `arguments`, then answer the request `id` with
    /// [`tool_reply`].
    CallTool { id: Json, name: String, arguments: Json },
}

/// The mathematical form of an [`RpcAction`].
pub ghost enum RpcActionV {
    Reply(JsonV),
    Silent,
    CallTool { id: JsonV, name: Seq<char>, arguments: JsonV },
}

impl View for RpcAction {
    type V = RpcActionV;

    open spec fn view(&self) -> RpcActionV {
        match self {
            RpcAction::Reply(j) => RpcActionV::Reply(j@),
            RpcAction::Silent => RpcActionV::Silent,
            RpcAction::CallTool { id, name, arguments } => RpcActionV::CallTool {
                id: id@,
                name: name@,
                arguments: arguments@,
            },
        }
    }
}

/// `v`, or `default` when there is none.
pub open spec fn or_else<T>(v: Option<T>, default: T) -> T {
    match v {
        Some(x) => x,
        None => default,
    }
}

/// What the server does with a line, given what parsing it gave.
///
/// A line that is not JSON is answered with a parse error for id `null`. A
/// request without an `id` is a notification and gets no answer. Otherwise
/// the answer echoes the request's `id` and depends on its `method`:
/// `initialize`, `ping`, `notifications/initialized`, `tools/list` are
/// answered at once, `tools/call` runs a tool first, and any other method is
/// answered with a method-not-found error.
pub open spec fn rpc_action_spec(request: Result<JsonV, Seq<char>>) -> RpcActionV {
    match request {
        Err(message) => RpcActionV::Reply(error_message_spec(JsonV::Null, PARSE_ERROR as int, message)),
        Ok(r) => {
            let id = or_else(json_get(r, "id"@), JsonV::Null);
            let method = or_else(json_str(json_get(r, "method"@)), seq![]);
            match rpc_route_spec(true, json_get(r, "id"@) is Some, method) {
                RpcRoute::Silent => RpcActionV::Silent,
                RpcRoute::Empty => RpcActionV::Reply(result_message_spec(id, JsonV::Object(seq![]))),
                RpcRoute::Initialize => RpcActionV::Reply(result_message_spec(id, initialize_result_spec())),
                RpcRoute::ToolsList => RpcActionV::Reply(result_message_spec(id, tools_list_spec())),
                RpcRoute::ToolsCall => {
                    let params = or_else(json_get(r, "params"@), JsonV::Object(seq![]));
                    RpcActionV::CallTool {
                        id,
                        name: or_else(json_str(json_get(params, "name"@)), seq![]),
                        arguments: or_else(json_get(params, "arguments"@), JsonV::Object(seq![])),
                    }
                },
                _ => RpcActionV::Reply(
                    error_message_spec(id, METHOD_NOT_FOUND as int, "unsupported method "@ + method),
                ),
            }
        },
    }
}

/// The entry `id` of a reply envelope is the id it was given.
proof fn lemma_envelope_id(id: JsonV, last: (Seq<char>, JsonV))
    ensures
        entry_lookup(seq![("jsonrpc"@, JsonV::Str("2.0"@)), ("id"@, id), last], "id"@) == Some(id),
{
    reveal_strlit("jsonrpc");
    reveal_strlit("id");
    let es = seq![("jsonrpc"@, JsonV::Str("2.0"@)), ("id"@, id), last];
    assert(es[0].0 != "id"@) by {
        assert(es[0].0.len() != "id"@.len());
    }
    assert(es.drop_first() =~= seq![("id"@, id), last]);
    reveal_with_fuel(entry_lookup, 2);
}

/// A reply made by [`result_message`] or [`error_message`] carries the id of
/// the request it answers.
pub proof fn lemma_replies_echo_id(id: JsonV, result: JsonV, code: int, message: Seq<char>)
    ensures
        json_get(result_message_spec(id, result), "id"@) == Some(id),
        json_get(error_message_spec(id, code, message), "id"@) == Some(id),
{
    lemma_envelope_id(id, ("result"@, result));
    lemma_envelope_id(
        id,
        (
            "error"@,
            JsonV::Object(
                seq![("code"@, JsonV::Number(dec_signed(code))), ("message"@, JsonV::Str(message))],
            ),
        ),
    );
}

/// How every line is answered: a line that is not JSON with a parse error
/// (`-32700`) for id `null` and the parser's message; a request without an
/// `id` (a notification) not at all; any other request with a reply, or a
/// tool call whose reply follows, that carries the request's `id`.
pub proof fn lemma_rpc_answers(request: Result<JsonV, Seq<char>>)
    ensures
        request matches Err(m) ==> rpc_action_spec(request) == RpcActionV::Reply(
            error_message_spec(JsonV::Null, -32700, m),
        ),
        request matches Ok(r) && json_get(r, "id"@) is None ==> rpc_action_spec(request)
            == RpcActionV::Silent,
        match request {
            Ok(r) => match json_get(r, "id"@) {
                Some(id) => match rpc_action_spec(request) {
                    RpcActionV::Reply(m) => json_get(m, "id"@) == Some(id),
                    RpcActionV::CallTool { id: i, .. } => i == id,
                    RpcActionV::Silent => false,
                },
                None => true,
            },
            Err(_) => true,
        },
{
    match request {
        Err(m) => {},
        Ok(r) => {
            let id = or_else(json_get(r, "id"@), JsonV::Null);
            let method = or_else(json_str(json_get(r, "method"@)), seq![]);
            lemma_replies_echo_id(id, JsonV::Object(seq![]), METHOD_NOT_FOUND as int, "unsupported method "@ + method);
            lemma_replies_echo_id(id, initialize_result_spec(), 0, seq![]);
            lemma_replies_echo_id(id, tools_list_spec(), 0, seq![]);
            if json_get(r, "id"@) is Some {
                match rpc_route_spec(true, true, method) {
                    RpcRoute::Empty => {
                        assert(rpc_action_spec(request) == RpcActionV::Reply(
                            result_message_spec(id, JsonV::Object(seq![])),
                        ));
                    },
                    RpcRoute::Initialize => {},
                    RpcRoute::ToolsList => {},
                    RpcRoute::ToolsCall => {},
                    _ => {
                        assert(rpc_action_spec(request) == RpcActionV::Reply(
                            error_message_spec(id, METHOD_NOT_FOUND as int, "unsupported method "@ + method),
                        ));
                    },
                }
            }
        },
    }
}

/// The reply to a tool call carries the request's id, and its `isError`
/// says whether the tool failed.
pub proof fn lemma_tool_reply(id: JsonV, outcome: Result<Seq<char>, Seq<char>>)
    ensures
        json_get(tool_reply_spec(id, outcome), "id"@) == Some(id),
        json_get(tool_reply_spec(id, outcome), "result"@) matches Some(body) && json_get(body, "isError"@)
            == Some(JsonV::Bool(outcome is Err)),
{
    let (text, is_error) = match outcome {
        Ok(t) => (t, false),
        Err(e) => (e, true),
    };
    let body = JsonV::Object(
        seq![
            (
                "content"@,
                JsonV::Array(
                    seq![JsonV::Object(seq![("type"@, JsonV::Str("text"@)), ("text"@, JsonV::Str(text))])],
                ),
            ),
            ("isError"@, JsonV::Bool(is_error)),
        ],
    );
    lemma_replies_echo_id(id, body, 0, seq![]);
    reveal_strlit("jsonrpc");
    reveal_strlit("id");
    reveal_strlit("result");
    reveal_strlit("content");
    reveal_strlit("isError");
    reveal_with_fuel(entry_lookup, 3);
    let es = seq![("jsonrpc"@, JsonV::Str("2.0"@)), ("id"@, id), ("result"@, body)];
    assert(es[0].0 != "result"@) by {
        assert(es[0].0.len() != "result"@.len());
    }
    assert(es[1].0 != "result"@) by {
        assert(es[1].0.len() != "result"@.len());
    }
    assert(es.drop_first() =~= seq![("id"@, id), ("result"@, body)]);
    assert(es.drop_first().drop_first() =~= seq![("result"@, body)]);
    let bs = body->Object_0;
    assert(bs[0].0 != "isError"@) by {
        assert(bs[0].0[0] != "isError"@[0]);
    }
    assert(bs.drop_first() =~= seq![("isError"@, JsonV::Bool(is_error))]);
}

fn empty_object() -> (res: Json)
    ensures
        res@ == JsonV::Object(seq![]),
{
    let res = json_object(Vec::new());
    assert(entries_view(Seq::<(String, Json)>::empty()) =~= seq![]);
    res
}

/// What the server does with a line, given what parsing it gave: the parsed
/// request, or the parser's error message.
pub fn rpc_action(request: Result<Json, String>) -> (res: RpcAction)
    ensures
        res@ == rpc_action_spec(json_result_view(request)),
{
    match request {
        Err(message) => RpcAction::Reply(error_message(Json::Null, PARSE_ERROR, message)),
        Ok(r) => {
            let (id, has_id) = match r.get("id") {
                Some(i) => (i.duplicate(), true),
                None => (Json::Null, false),
            };
            let method: &str = match get_str(&r, "method") {
                Some(m) => m,
                None => "",
            };
            proof {
                reveal_strlit("");
                assert(method@ == or_else(json_str(json_get(r@, "method"@)), seq![]));
            }
            match route_rpc(true, has_id, method) {
                RpcRoute::Silent => RpcAction::Silent,
                RpcRoute::Empty => RpcAction::Reply(result_message(id, empty_object())),
                RpcRoute::Initialize => RpcAction::Reply(result_message(id, initialize_result())),
                RpcRoute::ToolsList => RpcAction::Reply(result_message(id, tools_list())),
                RpcRoute::ToolsCall => {
                    let (name, arguments) = match r.get("params") {
                        Some(params) => {
                            let name = match get_str(params, "name") {
                                Some(n) => String::from_str(n),
                                None => String::new(),
                            };
                            let arguments = match params.get("arguments") {
                                Some(a) => a.duplicate(),
                                None => empty_object(),
                            };
                            (name, arguments)
                        },
                        None => {
                            let params = empty_object();
                            proof {
                                assert(json_get(params@, "name"@) is None);
                                assert(json_get(params@, "arguments"@) is None);
                            }
                            (String::new(), empty_object())
                        },
                    };
                    RpcAction::CallTool { id, name, arguments }
                },
                _ => RpcAction::Reply(
                    error_message(id, METHOD_NOT_FOUND, unsupported_method_message(method)),
                ),
            }
        },
    }
}

/// What the server does with one line of its input.
pub fn handle_rpc_line(line: &str) -> (res: RpcAction)
    ensures
        res@ == rpc_action_spec(json_parse_spec(line@)),
{
    let request = parse_json(line);
    rpc_action(request)
}

// ---------------------------------------------------------------------------
// Tool arguments
// ---------------------------------------------------------------------------

/// A tool call with its arguments read: what the tool is to do.
#[derive(Debug)]
pub enum ToolRequest {
    /// The recipe for a medium (`None`: the default one).
    Recipe { medium: Option<String> },
    /// Create a surface from these arguments.
    Create(Json),
    /// Update a surface from these arguments.
    Update(Json),
    /// Record an event from these arguments.
    Event(Json),
    /// Read a surface, with its cards and events if asked.
    Read { id: String, include_spec: bool, include_events: bool },
    /// List at most `limit` surfaces.
    List { limit: usize },
    /// Start or reuse the live server; give the address of `surface` too.
    Serve { surface: Option<String> },
    /// Promote a surface, with an optional note.
    Promote { id: String, note: Option<String> },
    /// Register an image asset from these arguments.
    ImageAssetRegister(Json),
}

/// The mathematical form of a [`ToolRequest`].
pub ghost enum ToolRequestV {
    Recipe { medium: Option<Seq<char>> },
    Create(JsonV),
    Update(JsonV),
    Event(JsonV),
    Read { id: Seq<char>, include_spec: bool, include_events: bool },
    List { limit: nat },
    Serve { surface: Option<Seq<char>> },
    Promote { id: Seq<char>, note: Option<Seq<char>> },
    ImageAssetRegister(JsonV),
}

/// The view of an optional string.
pub open spec fn opt_view(o: Option<String>) -> Option<Seq<char>> {
    match o {
        Some(s) => Some(s@),
        None => None,
    }
}

impl View for ToolRequest {
    type V = ToolRequestV;

    open spec fn view(&self) -> ToolRequestV {
        match self {
            ToolRequest::Recipe { medium } => ToolRequestV::Recipe { medium: opt_view(*medium) },
            ToolRequest::Create(a) => ToolRequestV::Create(a@),
            ToolRequest::Update(a) => ToolRequestV::Update(a@),
            ToolRequest::Event(a) => ToolRequestV::Event(a@),
            ToolRequest::Read { id, include_spec, include_events } => ToolRequestV::Read {
                id: id@,
                include_spec: *include_spec,
                include_events: *include_events,
            },
            ToolRequest::List { limit } => ToolRequestV::List { limit: *limit as nat },
            ToolRequest::Serve { surface } => ToolRequestV::Serve { surface: opt_view(*surface) },
            ToolRequest::Promote { id, note } => ToolRequestV::Promote { id: id@, note: opt_view(*note) },
            ToolRequest::ImageAssetRegister(a) => ToolRequestV::ImageAssetRegister(a@),
        }
    }
}

/// The string argument `key`, if it is given as a string.
pub open spec fn str_arg(args: JsonV, key: Seq<char>) -> Option<Seq<char>> {
    json_str(json_get(args, key))
}

/// A required string argument: present, a string, and not blank.
pub open spec fn required_arg(args: JsonV, key: Seq<char>) -> Result<Seq<char>, Seq<char>> {
    match str_arg(args, key) {
        Some(v) => if !is_blank(v) {
            Ok(v)
        } else {
            Err(missing_message(key))
        },
        None => Err(missing_message(key)),
    }
}

/// How many surfaces a `canmore_medium_list` call asks for.
pub open spec fn limit_arg(args: JsonV) -> nat {
    list_limit_spec(
        match json_u64(json_get(args, "limit"@)) {
            Some(n) => Some(n as u64),
            None => None,
        },
    )
}

/// What a `tools/call` of `name` with `arguments` asks for, or why it cannot
/// be run: an unknown tool, or a missing `id`.
pub open spec fn tool_request_spec(name: Seq<char>, args: JsonV) -> Result<ToolRequestV, Seq<char>> {
    match tool_named(name) {
        None => Err("unknown tool "@ + name),
        Some(t) => match t {
            Tool::Recipe => Ok(ToolRequestV::Recipe { medium: str_arg(args, "medium"@) }),
            Tool::Create => Ok(ToolRequestV::Create(args)),
            Tool::Update => Ok(ToolRequestV::Update(args)),
            Tool::Event => Ok(ToolRequestV::Event(args)),
            Tool::Read => match required_arg(args, "id"@) {
                Ok(id) => Ok(
                    ToolRequestV::Read {
                        id,
                        include_spec: or_else(json_bool(json_get(args, "include_spec"@)), false),
                        include_events: or_else(json_bool(json_get(args, "include_events"@)), false),
                    },
                ),
                Err(e) => Err(e),
            },
            Tool::List => Ok(ToolRequestV::List { limit: limit_arg(args) }),
            Tool::Serve => Ok(ToolRequestV::Serve { surface: str_arg(args, "id"@) }),
            Tool::Promote => match required_arg(args, "id"@) {
                Ok(id) => Ok(ToolRequestV::Promote { id, note: str_arg(args, "note"@) }),
                Err(e) => Err(e),
            },
            Tool::ImageAssetRegister => Ok(ToolRequestV::ImageAssetRegister(args)),
        },
    }
}

/// The string under `key` in `args`, if there is one.
pub open spec fn given_str(args: JsonV, key: Seq<char>) -> Option<Seq<char>> {
    match json_get(args, key) {
        Some(JsonV::Str(s)) => Some(s),
        _ => None,
    }
}

/// How a tool call reads its arguments. `include_spec` and `include_events`
/// are true exactly when the arguments give `true` under those keys; the
/// `id` of a read or a promotion is the string given under `id`; the medium
/// of a recipe, the surface to serve and the note of a promotion are the
/// strings given under `medium`, `id` and `note`, if any; a list returns the
/// requested number of surfaces, at most 100, and 20 when none is requested.
/// A read with a non-blank `id` is always run.
pub proof fn lemma_tool_arguments(t: Tool, args: JsonV)
    ensures
        match tool_request_spec(tool_name_spec(t), args) {
            Ok(ToolRequestV::Read { id, include_spec, include_events }) => {
                &&& t == Tool::Read
                &&& (include_spec <==> json_get(args, "include_spec"@) == Some(JsonV::Bool(true)))
                &&& (include_events <==> json_get(args, "include_events"@) == Some(JsonV::Bool(true)))
                &&& given_str(args, "id"@) == Some(id)
            },
            Ok(ToolRequestV::Promote { id, note }) => {
                &&& t == Tool::Promote
                &&& given_str(args, "id"@) == Some(id)
                &&& note == given_str(args, "note"@)
            },
            Ok(ToolRequestV::Recipe { medium }) => medium == given_str(args, "medium"@),
            Ok(ToolRequestV::Serve { surface }) => surface == given_str(args, "id"@),
            Ok(ToolRequestV::List { limit }) => {
                &&& t == Tool::List
                &&& limit <= 100
                &&& json_get(args, "limit"@) is None ==> limit == 20
                &&& match json_get(args, "limit"@) {
                    Some(JsonV::Number(text)) => match digits_u64_spec(text) {
                        Some(n) => limit <= n && (limit == n || limit == 100),
                        None => limit == 20,
                    },
                    _ => limit == 20,
                }
            },
            _ => true,
        },
        t == Tool::Read ==> match given_str(args, "id"@) {
            Some(id) => !is_blank(id) ==> tool_request_spec(tool_name_spec(t), args) is Ok,
            None => true,
        },
{
    lemma_catalog_matches_dispatch(t);
}

/// Every argument whose absence makes a tool refuse to run is listed as
/// required in the schema `tools/list` gives for it: a call refused for a
/// missing argument names a required one, creating a surface refuses only a
/// blank required field, and an event without a kind (which recording
/// refuses) lacks a required argument.
pub proof fn lemma_refusals_are_required(t: Tool, args: JsonV, input: SurfaceInput, event: EventInput)
    ensures
        match tool_request_spec(tool_name_spec(t), args) {
            Err(e) => exists|k: Seq<char>| required_spec(t).contains(k) && e == missing_message(k),
            Ok(_) => true,
        },
        match create_error(input) {
            Some(e) => exists|k: Seq<char>| required_spec(Tool::Create).contains(k) && e == required_message(k),
            None => true,
        },
        is_blank(event.kind@) ==> required_spec(Tool::Event).contains("kind"@),
{
    lemma_catalog_matches_dispatch(t);
    assert(required_spec(Tool::Read)[0] == "id"@);
    assert(required_spec(Tool::Promote)[0] == "id"@);
    let c = required_spec(Tool::Create);
    assert(c[0] == "title"@ && c[1] == "purpose"@ && c[2] == "medium"@);
    assert(required_spec(Tool::Event)[1] == "kind"@);
}

/// The view of a tool request or its error.
pub open spec fn tool_request_view(r: Result<ToolRequest, String>) -> Result<ToolRequestV, Seq<char>> {
    match r {
        Ok(t) => Ok(t@),
        Err(e) => Err(e@),
    }
}

fn opt_string(o: Option<&str>) -> (res: Option<String>)
    ensures
        opt_view(res) == match o {
            Some(s) => Some(s@),
            None => None::<Seq<char>>,
        },
{
    match o {
        Some(s) => Some(String::from_str(s)),
        None => None,
    }
}

fn bool_arg(args: &Json, key: &str) -> (res: bool)
    ensures
        res == or_else(json_bool(json_get(args@, key@)), false),
{
    match args.get(key) {
        Some(v) => match v.as_bool() {
            Some(b) => b,
            None => false,
        },
        None => false,
    }
}

/// Reads the arguments of a `tools/call` of `name`.
pub fn tool_request(name: &str, arguments: &Json) -> (res: Result<ToolRequest, String>)
    ensures
        tool_request_view(res) == tool_request_spec(name@, arguments@),
{
    let tool = match tool_from_name(name) {
        Some(t) => t,
        None => return Err(unknown_tool_message(name)),
    };
    match tool {
        Tool::Recipe => Ok(ToolRequest::Recipe { medium: opt_string(get_str(arguments, "medium")) }),
        Tool::Create => Ok(ToolRequest::Create(arguments.duplicate())),
        Tool::Update => Ok(ToolRequest::Update(arguments.duplicate())),
        Tool::Event => Ok(ToolRequest::Event(arguments.duplicate())),
        Tool::Read => {
            let id = match required_string(get_str(arguments, "id"), "id") {
                Ok(id) => id,
                Err(e) => return Err(e),
            };
            let include_spec = bool_arg(arguments, "include_spec");
            let include_events = bool_arg(arguments, "include_events");
            Ok(ToolRequest::Read { id, include_spec, include_events })
        },
        Tool::List => {
            let requested: Option<u64> = match arguments.get("limit") {
                Some(v) => v.as_u64(),
                None => None,
            };
            Ok(ToolRequest::List { limit: list_limit(requested) })
        },
        Tool::Serve => Ok(ToolRequest::Serve { surface: opt_string(get_str(arguments, "id")) }),
        Tool::Promote => {
            let id = match required_string(get_str(arguments, "id"), "id") {
                Ok(id) => id,
                Err(e) => return Err(e),
            };
            Ok(ToolRequest::Promote { id, note: opt_string(get_str(arguments, "note")) })
        },
        Tool::ImageAssetRegister => Ok(ToolRequest::ImageAssetRegister(arguments.duplicate())),
    }
}

/// Reads the body of a `POST /promote`: the JSON object's `id` (required)
/// and `note` (optional). A body that is not JSON gives the parser's message.
pub open spec fn promote_body_spec(body: Seq<char>) -> Result<(Seq<char>, Option<Seq<char>>), Seq<char>> {
    match json_parse_spec(body) {
        Err(e) => Err(e),
        Ok(v) => match required_arg(v, "id"@) {
            Ok(id) => Ok((id, str_arg(v, "note"@))),
            Err(e) => Err(e),
        },
    }
}

/// The `id` and `note` of a `POST /promote` body.
pub fn promote_request(body: &str) -> (res: Result<(String, Option<String>), String>)
    ensures
        promote_body_spec(body@) == match res {
            Ok((id, note)) => Ok((id@, opt_view(note))),
            Err(e) => Err(e@),
        },
{
    let value = match parse_json(body) {
        Ok(v) => v,
        Err(e) => return Err(e),
    };
    let id = match required_string(get_str(&value, "id"), "id") {
        Ok(id) => id,
        Err(e) => return Err(e),
    };
    Ok((id, opt_string(get_str(&value, "note"))))
}

} // verus!
