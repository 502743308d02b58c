use canmore::asset::{hex_lower, image_signature, sha256_hex};
use canmore::http::{header_content_length, is_header_end, parse_request_line, route_http, status_reason, HttpResponse, HttpRoute};
use canmore::json::Json;
use canmore::mcp::{handle_rpc_line, promote_request, tool_reply, tool_request, RpcAction, ToolRequest};
use canmore::render::{render_index_html, render_surface_html};
use canmore::rpc::{PropertyKind, recipe, route_rpc, surface_url, tool_catalog, tool_from_name, unknown_tool_message, unsupported_method_message, RpcRoute, Tool};
use canmore::store::{join_path, Store};
use canmore::surface::{create_surface, promote_surface, record_event, surface_response, Card, EventInput, SurfaceInput};

#[test]
fn recipe_names_the_medium_layer() {
    let r = recipe(Some("diagram"));
    assert_eq!(r.kind, "medium");
    assert!(r.ephemeral);
    assert_eq!(r.template.medium, "diagram");
    assert!(r.template.promotion.contains("Promote only if"));
    let d = recipe(None);
    assert_eq!(d.medium, "decision-board");
    assert_eq!(d.template.cards.len(), 4);
    assert_eq!(d.template.cards[1].value, Some(55));
}

#[test]
fn notifications_do_not_emit_rpc_responses() {
    let response = handle_rpc_line(r#"{"jsonrpc":"2.0","method":"notifications/initialized","params":{}}"#);
    assert!(matches!(response, RpcAction::Silent));
    assert_eq!(route_rpc(true, false, "notifications/initialized"), RpcRoute::Silent);
    assert_eq!(route_rpc(true, false, "tools/list"), RpcRoute::Silent);
    assert_eq!(route_rpc(false, false, ""), RpcRoute::ParseError);
    assert_eq!(route_rpc(true, true, "notifications/initialized"), RpcRoute::Empty);
    assert_eq!(route_rpc(true, true, "ping"), RpcRoute::Empty);
    assert_eq!(route_rpc(true, true, "initialize"), RpcRoute::Initialize);
    assert_eq!(route_rpc(true, true, "tools/call"), RpcRoute::ToolsCall);
    assert_eq!(route_rpc(true, true, "resources/list"), RpcRoute::Unsupported);
    assert_eq!(unsupported_method_message("x/y"), "unsupported method x/y");
}

#[test]
fn every_listed_tool_is_callable() {
    let all = tool_catalog();
    assert_eq!(all.len(), 9);
    for t in &all {
        assert_eq!(tool_from_name(t.name()), Some(*t));
    }
    assert_eq!(tool_from_name("canmore_medium_delete"), None);
    assert_eq!(tool_from_name("canmore_image_asset_register"), Some(Tool::ImageAssetRegister));
    assert_eq!(unknown_tool_message("x"), "unknown tool x");
    assert_eq!(surface_url("http://127.0.0.1:9", "s_1"), "http://127.0.0.1:9/surfaces/s_1");
}

#[test]
fn image_asset_registration_checks_bytes_and_records_hash() {
    let store = Store::at_workspace("/tmp/work");
    let fake = store
        .register_asset("s".into(), b"not an image", "asset_1_1".into(), None, "5".into())
        .err()
        .unwrap();
    assert_eq!(fake, "asset must be an image file");
    let (record, target) = store
        .register_asset(
            "s".into(),
            b"\x89PNG\r\n\x1a\n",
            "asset_1_2".into(),
            Some("built-in image_gen output".into()),
            "6".into(),
        )
        .unwrap();
    assert_eq!(record.mime_type, "image/png");
    assert_eq!(record.sha256.len(), 64);
    assert_eq!(record.file_name, "asset_1_2.png");
    assert_eq!(record.stored_path, ".canmore-medium/assets/asset_1_2.png");
    assert_eq!(record.byte_len, 8);
    assert_eq!(target, "/tmp/work/.canmore-medium/assets/asset_1_2.png");
}

#[test]
fn image_signatures() {
    assert_eq!(image_signature(&[0xff, 0xd8, 0xff, 0xe0]), Some(("jpg", "image/jpeg")));
    assert_eq!(image_signature(b"GIF89a..."), Some(("gif", "image/gif")));
    assert_eq!(image_signature(b"GIF87a"), Some(("gif", "image/gif")));
    assert_eq!(image_signature(b"RIFF\0\0\0\0WEBPVP8 "), Some(("webp", "image/webp")));
    assert_eq!(image_signature(b"RIFF\0\0\0\0WAVE"), None);
    assert_eq!(image_signature(b"RIFF"), None);
    assert_eq!(image_signature(b""), None);
}

#[test]
fn sha256_is_lower_hex() {
    assert_eq!(sha256_hex(b"abc"), "ba7816bf8f01cfea414140de5dae2223b00361a396177a9cb410ff61f20015ad");
    assert_eq!(hex_lower(&[0x00, 0xab, 0x0f]), "00ab0f");
}

#[test]
fn store_paths() {
    let store = Store::at_workspace("/w");
    assert_eq!(store.root(), "/w/.canmore-medium");
    assert_eq!(store.surface_json_path("s_1"), "/w/.canmore-medium/surfaces/s_1.json");
    assert_eq!(store.surface_html_path("s_1"), "/w/.canmore-medium/surfaces/s_1.html");
    assert_eq!(store.asset_index_path(), "/w/.canmore-medium/assets.jsonl");
    assert_eq!(Store::at_workspace("/w/").assets_dir(), "/w/.canmore-medium/assets");
    assert_eq!(join_path("", "x"), "x");
    assert_eq!(join_path("/a", "/b"), "/b");
}

#[test]
fn http_routes() {
    assert!(matches!(route_http("GET", "/"), HttpRoute::Index));
    assert!(matches!(route_http("GET", "/?x=1"), HttpRoute::Index));
    assert!(matches!(route_http("POST", "/event"), HttpRoute::RecordEvent));
    assert!(matches!(route_http("POST", "/promote?a"), HttpRoute::Promote));
    assert!(matches!(route_http("GET", "/surfaces/s_1?v=2"), HttpRoute::SurfacePage(id) if id == "s_1"));
    assert!(matches!(route_http("GET", "/surfaces//surfaces/x"), HttpRoute::SurfacePage(id) if id == "x"));
    assert!(matches!(route_http("GET", "/surfaces/surfaces/x"), HttpRoute::SurfacePage(id) if id == "surfaces/x"));
    assert!(matches!(route_http("GET", "/api/surfaces/s_2"), HttpRoute::SurfaceApi(id) if id == "s_2"));
    assert!(matches!(route_http("POST", "/"), HttpRoute::NotFound));
    assert!(matches!(route_http("GET", "/event"), HttpRoute::NotFound));
}

#[test]
fn request_lines_and_headers() {
    assert_eq!(parse_request_line("GET /surfaces/a HTTP/1.1\r\n"), Some(("GET".to_string(), "/surfaces/a".to_string())));
    assert_eq!(parse_request_line("  POST\t/event  "), Some(("POST".to_string(), "/event".to_string())));
    assert_eq!(parse_request_line("GET"), Some(("GET".to_string(), "/".to_string())));
    assert_eq!(parse_request_line(" \r\n"), None);
    assert_eq!(header_content_length("Content-Length: 12\r\n"), Some(12));
    assert_eq!(header_content_length("content-LENGTH:+5"), Some(5));
    assert_eq!(header_content_length("Content-Length: abc"), Some(0));
    assert_eq!(header_content_length("Host: x"), None);
    assert_eq!(header_content_length("Content-Length 12"), None);
    assert!(is_header_end("\r\n"));
    assert!(!is_header_end("Host: x\r\n"));
}

#[test]
fn responses() {
    let r = HttpResponse::text(404, "surface not found".into());
    assert_eq!(r.body, b"surface not found".to_vec());
    assert_eq!(
        r.head(),
        "HTTP/1.1 404 Not Found\r\nContent-Type: text/plain; charset=utf-8\r\nContent-Length: 17\r\nAccess-Control-Allow-Origin: *\r\nConnection: close\r\n\r\n"
    );
    let h = HttpResponse::html("é".into());
    assert_eq!(h.body, vec![0xc3, 0xa9]);
    assert_eq!(h.content_type, "text/html; charset=utf-8");
    assert_eq!(HttpResponse::json(b"{}".to_vec()).content_type, "application/json; charset=utf-8");
    assert_eq!(status_reason(200), "OK");
    assert_eq!(status_reason(500), "Internal Server Error");
    assert_eq!(status_reason(418), "OK");
}

#[test]
fn pages_escape_surface_text() {
    let s = create_surface(
        SurfaceInput {
            title: "<Plan>".into(),
            purpose: "Tom & Jerry".into(),
            medium: "board".into(),
            ephemeral: true,
            promotion: None,
            cards: vec![Card { id: None, kind: "Image Gen".into(), title: "\"A\"".into(), body: "b".into(), value: Some(140) }],
        },
        "s_1".into(),
        "1".into(),
    )
    .unwrap();
    let page = render_surface_html(&s);
    assert!(page.contains("<title>&lt;Plan&gt;</title>"));
    assert!(page.contains("Tom &amp; Jerry"));
    assert!(page.contains("<article class=\"card card-image-gen\"><span>Image Gen</span><h2>&quot;A&quot;</h2><p>b</p><div class=\"meter\"><span style=\"width:100%\"></span></div>"));
    assert!(page.contains("<em>No feedback events recorded yet.</em>"));
    assert!(page.contains("const surfaceId = \"s_1\";"));
    let mut s = s;
    for k in 0..14 {
        s = record_event(
            s,
            EventInput { id: "s_1".into(), kind: format!("k{k}"), target: None, value: None, note: None },
            format!("e{k}"),
            "2".into(),
            "3".into(),
        )
        .unwrap();
    }
    let page = render_surface_html(&s);
    assert!(page.contains("<div><span>k13: surface</span><span>k12: surface</span>"));
    assert!(page.contains("<span>k2: surface</span></div>"));
    assert!(!page.contains("k1: surface"));
    let p = promote_surface(s, None, "9".into(), "9".into());
    let index = render_index_html(&vec![surface_response(&p, false, false)]);
    assert!(index.contains("<a href=\"/surfaces/s_1\"><strong>&lt;Plan&gt;</strong><span>board</span></a>"));
    assert!(index.starts_with("<!doctype html>"));
}

#[test]
fn announced_length_is_read_back() {
    for n in [0usize, 7, 10, 12345, usize::MAX] {
        let line = format!("Content-Length: {}\r\n", n);
        assert_eq!(header_content_length(&line), Some(n));
    }
    let r = HttpResponse::text(200, "x".repeat(1234));
    let head = r.head();
    let line = head.split("\r\n").find(|l| l.starts_with("Content-Length")).unwrap();
    assert_eq!(header_content_length(line), Some(1234));
}

#[test]
fn surface_files_stay_in_their_directory() {
    let store = Store::at_workspace("/w");
    let id = canmore::ids::new_id("surface", 3);
    let path = store.surface_json_path(&id);
    assert_eq!(path, format!("{}/{}.json", store.surfaces_dir(), id));
    assert!(canmore::ids::validate_id("../../etc/passwd").is_err());
}

#[test]
fn tool_schemas() {
    let list = Tool::List.properties();
    assert_eq!(list.len(), 1);
    assert_eq!(list[0].name, "limit");
    assert_eq!(list[0].kind, PropertyKind::BoundedInteger { minimum: 1, maximum: 100 });
    assert_eq!(Tool::Create.required(), vec!["title", "purpose", "medium"]);
    assert!(Tool::Recipe.required().is_empty());
    assert_eq!(Tool::Event.properties()[3].kind, PropertyKind::Any);
    for t in tool_catalog() {
        let names: Vec<&str> = t.properties().iter().map(|p| p.name).collect();
        for r in t.required() {
            assert!(names.contains(&r));
        }
        assert!(!t.description().is_empty());
    }
    assert_eq!(Tool::Serve.description(), "Start or reuse the local live browser surface server and return URLs.");
}

fn reply_of(action: RpcAction) -> Json {
    match action {
        RpcAction::Reply(j) => j,
        other => panic!("expected a reply, got {:?}", other),
    }
}

fn text_of(j: Option<&Json>) -> &str {
    match j {
        Some(Json::Str(s)) => s.as_str(),
        Some(Json::Number(s)) => s.as_str(),
        other => panic!("expected text, got {:?}", other),
    }
}

fn at<'a>(j: &'a Json, key: &str) -> &'a Json {
    j.get(key).unwrap()
}

#[test]
fn rpc_line_that_is_not_json_gets_a_parse_error_for_null() {
    let reply = reply_of(handle_rpc_line("this is not json"));
    assert_eq!(text_of(reply.get("jsonrpc")), "2.0");
    assert!(matches!(reply.get("id"), Some(Json::Null)));
    let error = at(&reply, "error");
    assert_eq!(text_of(error.get("code")), "-32700");
    assert!(!text_of(error.get("message")).is_empty());
    assert!(reply.get("result").is_none());
}

#[test]
fn rpc_initialize_echoes_the_id() {
    let reply = reply_of(handle_rpc_line(r#"{"jsonrpc":"2.0","id":7,"method":"initialize","params":{}}"#));
    assert_eq!(text_of(reply.get("id")), "7");
    let result = at(&reply, "result");
    assert_eq!(text_of(result.get("protocolVersion")), "2024-11-05");
    assert!(matches!(at(at(result, "capabilities"), "tools"), Json::Object(es) if es.is_empty()));
    assert_eq!(text_of(at(result, "serverInfo").get("name")), "codex-canmore");
    assert_eq!(text_of(at(result, "serverInfo").get("version")), "0.1.0");
}

#[test]
fn rpc_ping_with_an_id_gets_an_empty_result() {
    let reply = reply_of(handle_rpc_line(r#"{"jsonrpc":"2.0","id":"p","method":"ping"}"#));
    assert_eq!(text_of(reply.get("id")), "p");
    assert!(matches!(at(&reply, "result"), Json::Object(es) if es.is_empty()));
}

#[test]
fn rpc_unsupported_method_is_method_not_found() {
    let reply = reply_of(handle_rpc_line(r#"{"jsonrpc":"2.0","id":"a","method":"resources/list"}"#));
    assert_eq!(text_of(reply.get("id")), "a");
    let error = at(&reply, "error");
    assert_eq!(text_of(error.get("code")), "-32601");
    assert_eq!(text_of(error.get("message")), "unsupported method resources/list");
    let missing = reply_of(handle_rpc_line(r#"{"id":2}"#));
    assert_eq!(text_of(at(&missing, "error").get("message")), "unsupported method ");
}

#[test]
fn rpc_tools_list_describes_every_tool() {
    let reply = reply_of(handle_rpc_line(r#"{"jsonrpc":"2.0","id":1,"method":"tools/list"}"#));
    let tools = match at(at(&reply, "result"), "tools") {
        Json::Array(items) => items,
        other => panic!("expected an array, got {:?}", other),
    };
    assert_eq!(tools.len(), 9);
    assert_eq!(text_of(tools[0].get("name")), "canmore_medium_recipe");
    let create = &tools[1];
    assert_eq!(text_of(create.get("description")), "Create an ephemeral medium surface.");
    let schema = at(create, "inputSchema");
    assert_eq!(text_of(schema.get("type")), "object");
    match at(schema, "required") {
        Json::Array(names) => {
            let names: Vec<&str> = names.iter().map(|n| text_of(Some(n))).collect();
            assert_eq!(names, vec!["title", "purpose", "medium"]);
        }
        other => panic!("expected an array, got {:?}", other),
    }
    assert_eq!(text_of(at(at(schema, "properties"), "cards").get("type")), "array");
    let list = at(&tools[5], "inputSchema");
    assert!(list.get("required").is_none());
    let limit = at(at(list, "properties"), "limit");
    assert_eq!(text_of(limit.get("type")), "integer");
    assert_eq!(text_of(limit.get("minimum")), "1");
    assert_eq!(text_of(limit.get("maximum")), "100");
    let event = at(&tools[3], "inputSchema");
    assert!(matches!(at(at(event, "properties"), "value"), Json::Object(es) if es.is_empty()));
}

#[test]
fn rpc_tools_call_names_the_tool_and_its_arguments() {
    let action = handle_rpc_line(
        r#"{"jsonrpc":"2.0","id":3,"method":"tools/call","params":{"name":"canmore_medium_list","arguments":{"limit":5}}}"#,
    );
    match action {
        RpcAction::CallTool { id, name, arguments } => {
            assert_eq!(text_of(Some(&id)), "3");
            assert_eq!(name, "canmore_medium_list");
            assert!(matches!(tool_request(&name, &arguments), Ok(ToolRequest::List { limit: 5 })));
        }
        other => panic!("expected a tool call, got {:?}", other),
    }
    match handle_rpc_line(r#"{"jsonrpc":"2.0","id":4,"method":"tools/call"}"#) {
        RpcAction::CallTool { name, arguments, .. } => {
            assert_eq!(name, "");
            assert!(matches!(arguments, Json::Object(es) if es.is_empty()));
        }
        other => panic!("expected a tool call, got {:?}", other),
    }
}

#[test]
fn tool_results_are_wrapped_as_text_content() {
    let ok = tool_reply(Json::Number("3".into()), Ok("{\"a\":1}".into()));
    assert_eq!(text_of(ok.get("id")), "3");
    let result = at(&ok, "result");
    assert!(matches!(result.get("isError"), Some(Json::Bool(false))));
    match at(result, "content") {
        Json::Array(items) => {
            assert_eq!(items.len(), 1);
            assert_eq!(text_of(items[0].get("type")), "text");
            assert_eq!(text_of(items[0].get("text")), "{\"a\":1}");
        }
        other => panic!("expected an array, got {:?}", other),
    }
    let failed = tool_reply(Json::Str("x".into()), Err("surface not found".into()));
    assert_eq!(text_of(failed.get("id")), "x");
    let result = at(&failed, "result");
    assert!(matches!(result.get("isError"), Some(Json::Bool(true))));
    match at(result, "content") {
        Json::Array(items) => assert_eq!(text_of(items[0].get("text")), "surface not found"),
        other => panic!("expected an array, got {:?}", other),
    }
}

fn args(text: &str) -> Json {
    match handle_rpc_line(&format!(
        r#"{{"id":1,"method":"tools/call","params":{{"name":"x","arguments":{}}}}}"#,
        text
    )) {
        RpcAction::CallTool { arguments, .. } => arguments,
        other => panic!("expected a tool call, got {:?}", other),
    }
}

#[test]
fn tool_arguments_are_read_by_tool() {
    assert_eq!(tool_request("canmore_medium_delete", &args("{}")).unwrap_err(), "unknown tool canmore_medium_delete");
    assert_eq!(tool_request("canmore_medium_read", &args("{}")).unwrap_err(), "missing id");
    assert_eq!(tool_request("canmore_medium_read", &args(r#"{"id":"  "}"#)).unwrap_err(), "missing id");
    match tool_request("canmore_medium_read", &args(r#"{"id":"s_1","include_events":true,"include_spec":"yes"}"#)) {
        Ok(ToolRequest::Read { id, include_spec, include_events }) => {
            assert_eq!(id, "s_1");
            assert!(!include_spec);
            assert!(include_events);
        }
        other => panic!("unexpected {:?}", other),
    }
    assert!(matches!(tool_request("canmore_medium_list", &args(r#"{"limit":500}"#)), Ok(ToolRequest::List { limit: 100 })));
    assert!(matches!(tool_request("canmore_medium_list", &args("{}")), Ok(ToolRequest::List { limit: 20 })));
    assert!(matches!(tool_request("canmore_medium_list", &args(r#"{"limit":-3}"#)), Ok(ToolRequest::List { limit: 20 })));
    match tool_request("canmore_medium_serve", &args(r#"{"id":"s_2"}"#)) {
        Ok(ToolRequest::Serve { surface }) => assert_eq!(surface.as_deref(), Some("s_2")),
        other => panic!("unexpected {:?}", other),
    }
    match tool_request("canmore_medium_promote", &args(r#"{"id":"s_3","note":"keep"}"#)) {
        Ok(ToolRequest::Promote { id, note }) => {
            assert_eq!(id, "s_3");
            assert_eq!(note.as_deref(), Some("keep"));
        }
        other => panic!("unexpected {:?}", other),
    }
    match tool_request("canmore_medium_recipe", &args(r#"{"medium":"diagram"}"#)) {
        Ok(ToolRequest::Recipe { medium }) => assert_eq!(medium.as_deref(), Some("diagram")),
        other => panic!("unexpected {:?}", other),
    }
    match tool_request("canmore_medium_create", &args(r#"{"title":"T"}"#)) {
        Ok(ToolRequest::Create(a)) => assert_eq!(text_of(a.get("title")), "T"),
        other => panic!("unexpected {:?}", other),
    }
}

#[test]
fn promote_bodies_need_an_id() {
    let (id, note) = promote_request(r#"{"id":"s_1","note":"n"}"#).unwrap();
    assert_eq!(id, "s_1");
    assert_eq!(note.as_deref(), Some("n"));
    let (id, note) = promote_request(r#"{"id":"s_2"}"#).unwrap();
    assert_eq!(id, "s_2");
    assert_eq!(note, None);
    assert_eq!(promote_request("{}").unwrap_err(), "missing id");
    assert!(!promote_request("nope").unwrap_err().is_empty());
}
