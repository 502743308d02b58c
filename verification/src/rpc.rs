//! The MCP side: which JSON-RPC requests are answered and how, the tools
//! offered, and the recipe template.
use vstd::prelude::*;

use crate::surface::Card;
use crate::text::{push_str, str_eq};

verus! {

/// The MCP protocol version the server speaks.
pub const PROTOCOL_VERSION: &'static str = "2024-11-05";

/// The name the server reports in `initialize`.
pub const SERVER_NAME: &'static str = "codex-canmore";

/// The JSON-RPC error code for a line that is not JSON.
pub const PARSE_ERROR: i64 = -32700;

/// The JSON-RPC error code for a method the server does not offer.
pub const METHOD_NOT_FOUND: i64 = -32601;

/// How the server answers one JSON-RPC line.
#[derive(Clone, Copy, Debug, PartialEq, Eq)]
pub enum RpcRoute {
    /// The line is not JSON: answer with a parse error.
    ParseError,
    /// A notification (no `id`): no answer at all.
    Silent,
    /// `initialize`: protocol version, capabilities and server info.
    Initialize,
    /// `ping` or `notifications/initialized` with an id: an empty result.
    Empty,
    /// `tools/list`: the tool catalog.
    ToolsList,
    /// `tools/call`: run a tool.
    ToolsCall,
    /// Any other method: a method-not-found error.
    Unsupported,
}

/// How a JSON-RPC line is answered: parse errors always, notifications
/// never, and requests by their method.
pub open spec fn rpc_route_spec(parsed: bool, has_id: bool, method: Seq<char>) -> RpcRoute {
    if !parsed {
        RpcRoute::ParseError
    } else if !has_id {
        RpcRoute::Silent
    } else if method == "notifications/initialized"@ || method == "ping"@ {
        RpcRoute::Empty
    } else if method == "initialize"@ {
        RpcRoute::Initialize
    } else if method == "tools/list"@ {
        RpcRoute::ToolsList
    } else if method == "tools/call"@ {
        RpcRoute::ToolsCall
    } else {
        RpcRoute::Unsupported
    }
}

/// Chooses how to answer a JSON-RPC line, given whether it parsed, whether it
/// has an `id`, and its method (empty when it has none).
pub fn route_rpc(parsed: bool, has_id: bool, method: &str) -> (res: RpcRoute)
    ensures
        res == rpc_route_spec(parsed, has_id, method@),
{
    if !parsed {
        RpcRoute::ParseError
    } else if !has_id {
        RpcRoute::Silent
    } else if str_eq(method, "notifications/initialized") || str_eq(method, "ping") {
        RpcRoute::Empty
    } else if str_eq(method, "initialize") {
        RpcRoute::Initialize
    } else if str_eq(method, "tools/list") {
        RpcRoute::ToolsList
    } else if str_eq(method, "tools/call") {
        RpcRoute::ToolsCall
    } else {
        RpcRoute::Unsupported
    }
}

/// A notification, which has no `id`, is never answered, whatever its
/// method; a line that is not JSON always is.
pub proof fn lemma_notifications_are_silent(has_id: bool, method: Seq<char>)
    ensures
        !has_id ==> rpc_route_spec(true, has_id, method) == RpcRoute::Silent,
        rpc_route_spec(false, has_id, method) == RpcRoute::ParseError,
        has_id ==> rpc_route_spec(true, has_id, method) != RpcRoute::Silent,
{
}

/// The message of a method-not-found error.
pub fn unsupported_method_message(method: &str) -> (res: String)
    ensures
        res@ == "unsupported method "@ + method@,
{
    let mut out = String::new();
    push_str(&mut out, "unsupported method ");
    push_str(&mut out, method);
    out
}

/// The message for a call of a tool that does not exist.
pub fn unknown_tool_message(name: &str) -> (res: String)
    ensures
        res@ == "unknown tool "@ + name@,
{
    let mut out = String::new();
    push_str(&mut out, "unknown tool ");
    push_str(&mut out, name);
    out
}

// ---------------------------------------------------------------------------
// Tools
// ---------------------------------------------------------------------------

/// The tools the server offers.
#[derive(Clone, Copy, Debug, PartialEq, Eq)]
pub enum Tool {
    Recipe,
    Create,
    Update,
    Event,
    Read,
    List,
    Serve,
    Promote,
    ImageAssetRegister,
}

/// The name a tool is called by.
pub open spec fn tool_name_spec(t: Tool) -> Seq<char> {
    match t {
        Tool::Recipe => "canmore_medium_recipe"@,
        Tool::Create => "canmore_medium_create"@,
        Tool::Update => "canmore_medium_update"@,
        Tool::Event => "canmore_medium_event"@,
        Tool::Read => "canmore_medium_read"@,
        Tool::List => "canmore_medium_list"@,
        Tool::Serve => "canmore_medium_serve"@,
        Tool::Promote => "canmore_medium_promote"@,
        Tool::ImageAssetRegister => "canmore_image_asset_register"@,
    }
}

/// The tool called by `name`, if any.
pub open spec fn tool_named(name: Seq<char>) -> Option<Tool> {
    if name == tool_name_spec(Tool::Recipe) {
        Some(Tool::Recipe)
    } else if name == tool_name_spec(Tool::Create) {
        Some(Tool::Create)
    } else if name == tool_name_spec(Tool::Update) {
        Some(Tool::Update)
    } else if name == tool_name_spec(Tool::Event) {
        Some(Tool::Event)
    } else if name == tool_name_spec(Tool::Read) {
        Some(Tool::Read)
    } else if name == tool_name_spec(Tool::List) {
        Some(Tool::List)
    } else if name == tool_name_spec(Tool::Serve) {
        Some(Tool::Serve)
    } else if name == tool_name_spec(Tool::Promote) {
        Some(Tool::Promote)
    } else if name == tool_name_spec(Tool::ImageAssetRegister) {
        Some(Tool::ImageAssetRegister)
    } else {
        None
    }
}

impl Tool {
    /// The name the tool is called by.
    pub fn name(&self) -> (res: &'static str)
        ensures
            res@ == tool_name_spec(*self),
    {
        match self {
            Tool::Recipe => "canmore_medium_recipe",
            Tool::Create => "canmore_medium_create",
            Tool::Update => "canmore_medium_update",
            Tool::Event => "canmore_medium_event",
            Tool::Read => "canmore_medium_read",
            Tool::List => "canmore_medium_list",
            Tool::Serve => "canmore_medium_serve",
            Tool::Promote => "canmore_medium_promote",
            Tool::ImageAssetRegister => "canmore_image_asset_register",
        }
    }

    /// What the tool does, as listed to the client.
    pub fn description(&self) -> (res: &'static str)
        ensures
            res@ == tool_description_spec(*self),
    {
        match self {
            Tool::Recipe => "Return a compact template for an on-demand visual medium surface.",
            Tool::Create => "Create an ephemeral medium surface.",
            Tool::Update => "Replace medium surface fields without changing its identity.",
            Tool::Event => "Record a structured interaction or user feedback event from a surface.",
            Tool::Read => "Read compact surface state, optionally including cards or events.",
            Tool::List => "List recent medium surfaces compactly.",
            Tool::Serve => "Start or reuse the local live browser surface server and return URLs.",
            Tool::Promote => "Mark a surface as durable project material.",
            Tool::ImageAssetRegister => "Register a local output produced by built-in image_gen.",
        }
    }
}

/// What a tool does, as listed to the client.
pub open spec fn tool_description_spec(t: Tool) -> Seq<char> {
    match t {
        Tool::Recipe => "Return a compact template for an on-demand visual medium surface."@,
        Tool::Create => "Create an ephemeral medium surface."@,
        Tool::Update => "Replace medium surface fields without changing its identity."@,
        Tool::Event => "Record a structured interaction or user feedback event from a surface."@,
        Tool::Read => "Read compact surface state, optionally including cards or events."@,
        Tool::List => "List recent medium surfaces compactly."@,
        Tool::Serve => "Start or reuse the local live browser surface server and return URLs."@,
        Tool::Promote => "Mark a surface as durable project material."@,
        Tool::ImageAssetRegister => "Register a local output produced by built-in image_gen."@,
    }
}

/// The JSON type of a tool argument.
#[derive(Clone, Copy, Debug, PartialEq, Eq)]
pub enum PropertyKind {
    String,
    Boolean,
    Array,
    /// Any JSON value.
    Any,
    /// An integer within the given bounds.
    BoundedInteger { minimum: u64, maximum: u64 },
}

/// One argument of a tool.
#[derive(Clone, Copy, Debug, PartialEq, Eq)]
pub struct ToolProperty {
    pub name: &'static str,
    pub kind: PropertyKind,
}

/// The arguments a tool declares, in order, with their types.
pub open spec fn properties_spec(t: Tool) -> Seq<(Seq<char>, PropertyKind)> {
    match t {
        Tool::Recipe => seq![("medium"@, PropertyKind::String)],
        Tool::Create => seq![
            ("title"@, PropertyKind::String),
            ("purpose"@, PropertyKind::String),
            ("medium"@, PropertyKind::String),
            ("ephemeral"@, PropertyKind::Boolean),
            ("promotion"@, PropertyKind::String),
            ("cards"@, PropertyKind::Array),
        ],
        Tool::Update => seq![
            ("id"@, PropertyKind::String),
            ("title"@, PropertyKind::String),
            ("purpose"@, PropertyKind::String),
            ("medium"@, PropertyKind::String),
            ("ephemeral"@, PropertyKind::Boolean),
            ("promotion"@, PropertyKind::String),
            ("cards"@, PropertyKind::Array),
        ],
        Tool::Event => seq![
            ("id"@, PropertyKind::String),
            ("kind"@, PropertyKind::String),
            ("target"@, PropertyKind::String),
            ("value"@, PropertyKind::Any),
            ("note"@, PropertyKind::String),
        ],
        Tool::Read => seq![
            ("id"@, PropertyKind::String),
            ("include_spec"@, PropertyKind::Boolean),
            ("include_events"@, PropertyKind::Boolean),
        ],
        Tool::List => seq![("limit"@, PropertyKind::BoundedInteger { minimum: 1, maximum: 100 })],
        Tool::Serve => seq![("id"@, PropertyKind::String)],
        Tool::Promote => seq![("id"@, PropertyKind::String), ("note"@, PropertyKind::String)],
        Tool::ImageAssetRegister => seq![
            ("surface_id"@, PropertyKind::String),
            ("path"@, PropertyKind::String),
            ("note"@, PropertyKind::String),
        ],
    }
}

/// The arguments a tool cannot do without, in order.
pub open spec fn required_spec(t: Tool) -> Seq<Seq<char>> {
    match t {
        Tool::Create => seq!["title"@, "purpose"@, "medium"@],
        Tool::Update => seq!["id"@],
        Tool::Event => seq!["id"@, "kind"@],
        Tool::Read => seq!["id"@],
        Tool::Promote => seq!["id"@],
        Tool::ImageAssetRegister => seq!["surface_id"@, "path"@],
        _ => seq![],
    }
}

pub open spec fn property_view(p: ToolProperty) -> (Seq<char>, PropertyKind) {
    (p.name@, p.kind)
}

fn prop(name: &'static str, kind: PropertyKind) -> (res: ToolProperty)
    ensures
        res.name == name,
        res.kind == kind,
{
    ToolProperty { name, kind }
}

impl Tool {
    /// The arguments the tool declares in its input schema.
    pub fn properties(&self) -> (res: Vec<ToolProperty>)
        ensures
            res@.map_values(|p: ToolProperty| property_view(p)) == properties_spec(*self),
    {
        let s = PropertyKind::String;
        let b = PropertyKind::Boolean;
        let mut v: Vec<ToolProperty> = Vec::new();
        match self {
            Tool::Recipe => {
                v.push(prop("medium", s));
            },
            Tool::Create => {
                v.push(prop("title", s));
                v.push(prop("purpose", s));
                v.push(prop("medium", s));
                v.push(prop("ephemeral", b));
                v.push(prop("promotion", s));
                v.push(prop("cards", PropertyKind::Array));
            },
            Tool::Update => {
                v.push(prop("id", s));
                v.push(prop("title", s));
                v.push(prop("purpose", s));
                v.push(prop("medium", s));
                v.push(prop("ephemeral", b));
                v.push(prop("promotion", s));
                v.push(prop("cards", PropertyKind::Array));
            },
            Tool::Event => {
                v.push(prop("id", s));
                v.push(prop("kind", s));
                v.push(prop("target", s));
                v.push(prop("value", PropertyKind::Any));
                v.push(prop("note", s));
            },
            Tool::Read => {
                v.push(prop("id", s));
                v.push(prop("include_spec", b));
                v.push(prop("include_events", b));
            },
            Tool::List => {
                v.push(prop("limit", PropertyKind::BoundedInteger { minimum: 1, maximum: 100 }));
            },
            Tool::Serve => {
                v.push(prop("id", s));
            },
            Tool::Promote => {
                v.push(prop("id", s));
                v.push(prop("note", s));
            },
            Tool::ImageAssetRegister => {
                v.push(prop("surface_id", s));
                v.push(prop("path", s));
                v.push(prop("note", s));
            },
        }
        assert(v@.map_values(|p: ToolProperty| property_view(p)) =~= properties_spec(*self));
        v
    }

    /// The arguments the tool cannot do without.
    pub fn required(&self) -> (res: Vec<&'static str>)
        ensures
            res@.map_values(|n: &'static str| n@) == required_spec(*self),
    {
        let mut v: Vec<&'static str> = Vec::new();
        match self {
            Tool::Create => {
                v.push("title");
                v.push("purpose");
                v.push("medium");
            },
            Tool::Update | Tool::Read | Tool::Promote => {
                v.push("id");
            },
            Tool::Event => {
                v.push("id");
                v.push("kind");
            },
            Tool::ImageAssetRegister => {
                v.push("surface_id");
                v.push("path");
            },
            _ => {},
        }
        assert(v@.map_values(|n: &'static str| n@) =~= required_spec(*self));
        v
    }
}

/// Every argument a tool requires is one it declares.
pub proof fn lemma_required_are_declared(t: Tool)
    ensures
        forall|i: int|
            0 <= i < required_spec(t).len() ==> exists|j: int|
                0 <= j < properties_spec(t).len() && (#[trigger] properties_spec(t)[j]).0
                    == #[trigger] required_spec(t)[i],
{
    let p = properties_spec(t);
    let r = required_spec(t);
    assert forall|i: int| 0 <= i < r.len() implies exists|j: int|
        0 <= j < p.len() && (#[trigger] p[j]).0 == #[trigger] r[i] by {
        match t {
            Tool::Create => {
                assert(p[i].0 == r[i]);
            },
            Tool::Update | Tool::Read | Tool::Promote => {
                assert(p[0].0 == r[i]);
            },
            Tool::Event => {
                assert(p[i].0 == r[i]);
            },
            Tool::ImageAssetRegister => {
                assert(p[i].0 == r[i]);
            },
            _ => {},
        }
    }
}

/// The tool a `tools/call` names, if it exists.
pub fn tool_from_name(name: &str) -> (res: Option<Tool>)
    ensures
        res == tool_named(name@),
{
    let all = tool_catalog();
    let mut i: usize = 0;
    while i < all.len()
        invariant
            all@ == catalog_spec(),
            i <= all@.len(),
            forall|k: int| 0 <= k < i ==> name@ != tool_name_spec(#[trigger] all@[k]),
        decreases all@.len() - i,
    {
        let t = all[i];
        if str_eq(name, t.name()) {
            proof {
                lemma_tool_names_distinct();
            }
            return Some(t);
        }
        i = i + 1;
    }
    proof {
        assert(name@ != tool_name_spec(all@[0]));
        assert(name@ != tool_name_spec(all@[1]));
        assert(name@ != tool_name_spec(all@[2]));
        assert(name@ != tool_name_spec(all@[3]));
        assert(name@ != tool_name_spec(all@[4]));
        assert(name@ != tool_name_spec(all@[5]));
        assert(name@ != tool_name_spec(all@[6]));
        assert(name@ != tool_name_spec(all@[7]));
        assert(name@ != tool_name_spec(all@[8]));
    }
    None
}

/// The tools in the order the catalog lists them.
pub open spec fn catalog_spec() -> Seq<Tool> {
    seq![
        Tool::Recipe,
        Tool::Create,
        Tool::Update,
        Tool::Event,
        Tool::Read,
        Tool::List,
        Tool::Serve,
        Tool::Promote,
        Tool::ImageAssetRegister,
    ]
}

/// The tools that `tools/list` advertises, in order.
pub fn tool_catalog() -> (res: Vec<Tool>)
    ensures
        res@ == catalog_spec(),
{
    let mut v: Vec<Tool> = Vec::new();
    v.push(Tool::Recipe);
    v.push(Tool::Create);
    v.push(Tool::Update);
    v.push(Tool::Event);
    v.push(Tool::Read);
    v.push(Tool::List);
    v.push(Tool::Serve);
    v.push(Tool::Promote);
    v.push(Tool::ImageAssetRegister);
    assert(v@ =~= catalog_spec());
    v
}

/// No two tools share a name.
proof fn lemma_tool_names_distinct()
    ensures
        forall|a: Tool, b: Tool| tool_name_spec(a) == tool_name_spec(b) ==> a == b,
{
    reveal_strlit("canmore_medium_recipe");
    reveal_strlit("canmore_medium_create");
    reveal_strlit("canmore_medium_update");
    reveal_strlit("canmore_medium_event");
    reveal_strlit("canmore_medium_read");
    reveal_strlit("canmore_medium_list");
    reveal_strlit("canmore_medium_serve");
    reveal_strlit("canmore_medium_promote");
    reveal_strlit("canmore_image_asset_register");
    assert forall|a: Tool, b: Tool| tool_name_spec(a) == tool_name_spec(b) implies a == b by {
        if a != b {
            let x = tool_name_spec(a);
            let y = tool_name_spec(b);
            if x.len() == y.len() {
                // equal lengths differ in some character
                assert(x[15] != y[15] || x[16] != y[16] || x[14] != y[14] || x[8] != y[8]);
            }
        }
    }
}

/// Every tool that `tools/list` advertises is run by `tools/call` under its
/// name, and every tool is advertised.
pub proof fn lemma_catalog_matches_dispatch(t: Tool)
    ensures
        tool_named(tool_name_spec(t)) == Some(t),
        catalog_spec().contains(t),
{
    lemma_tool_names_distinct();
    let c = catalog_spec();
    match t {
        Tool::Recipe => assert(c[0] == t),
        Tool::Create => assert(c[1] == t),
        Tool::Update => assert(c[2] == t),
        Tool::Event => assert(c[3] == t),
        Tool::Read => assert(c[4] == t),
        Tool::List => assert(c[5] == t),
        Tool::Serve => assert(c[6] == t),
        Tool::Promote => assert(c[7] == t),
        Tool::ImageAssetRegister => assert(c[8] == t),
    }
}

/// The address of a surface's live page.
pub fn surface_url(base_url: &str, id: &str) -> (res: String)
    ensures
        res@ == base_url@ + "/surfaces/"@ + id@,
{
    let mut out = String::new();
    push_str(&mut out, base_url);
    push_str(&mut out, "/surfaces/");
    push_str(&mut out, id);
    out
}

// ---------------------------------------------------------------------------
// Recipe
// ---------------------------------------------------------------------------

/// The template a recipe offers for a new surface.
pub struct RecipeTemplate {
    pub title: String,
    pub purpose: String,
    pub medium: String,
    pub cards: Vec<Card>,
    pub promotion: String,
}

/// A compact template for an on-demand visual medium surface.
pub struct Recipe {
    pub kind: &'static str,
    pub medium: String,
    pub ephemeral: bool,
    pub template: RecipeTemplate,
}

/// The medium a recipe is for: the one asked for, or `decision-board`.
pub open spec fn recipe_medium(medium: Option<Seq<char>>) -> Seq<char> {
    match medium {
        Some(m) => m,
        None => "decision-board"@,
    }
}

/// `c` is a template card of the given type, title, body and meter value.
pub open spec fn is_template_card(c: Card, kind: Seq<char>, title: Seq<char>, body: Seq<char>, value: Option<i64>) -> bool {
    c.id is None && c.kind@ == kind && c.title@ == title && c.body@ == body && c.value == value
}

fn template_card(kind: &str, title: &str, body: &str, value: Option<i64>) -> (res: Card)
    ensures
        is_template_card(res, kind@, title@, body@, value),
{
    Card {
        id: None,
        kind: String::from_str(kind),
        title: String::from_str(title),
        body: String::from_str(body),
        value,
    }
}

/// The recipe for a medium: an ephemeral `medium` recipe whose template
/// carries the medium, four example cards and the promotion rule.
pub fn recipe(medium: Option<&str>) -> (res: Recipe)
    ensures
        res.kind@ == "medium"@,
        res.ephemeral,
        res.medium@ == recipe_medium(
            match medium {
                Some(m) => Some(m@),
                None => None,
            },
        ),
        res.template.medium@ == res.medium@,
        res.template.title@ == "Choose the medium"@,
        res.template.purpose@ == "Make the next step visible instead of explaining it harder."@,
        res.template.promotion@ == "Promote only if this surface becomes project material."@,
        res.template.cards@.len() == 4,
        is_template_card(
            res.template.cards@[0],
            "diagram"@,
            "System picture"@,
            "Show the moving parts."@,
            None,
        ),
        is_template_card(
            res.template.cards@[1],
            "chart"@,
            "Control"@,
            "Expose the variable worth tuning."@,
            Some(55),
        ),
        is_template_card(
            res.template.cards@[2],
            "matrix"@,
            "Decision"@,
            "Compare options directly."@,
            None,
        ),
        is_template_card(
            res.template.cards@[3],
            "image_gen"@,
            "Asset direction"@,
            "Generate externally with built-in image_gen, then register outputs."@,
            None,
        ),
{
    let m: &str = match medium {
        Some(m) => m,
        None => "decision-board",
    };
    let mut cards: Vec<Card> = Vec::new();
    cards.push(template_card("diagram", "System picture", "Show the moving parts.", None));
    cards.push(template_card("chart", "Control", "Expose the variable worth tuning.", Some(55)));
    cards.push(template_card("matrix", "Decision", "Compare options directly.", None));
    cards.push(
        template_card(
            "image_gen",
            "Asset direction",
            "Generate externally with built-in image_gen, then register outputs.",
            None,
        ),
    );
    Recipe {
        kind: "medium",
        medium: String::from_str(m),
        ephemeral: true,
        template: RecipeTemplate {
            title: String::from_str("Choose the medium"),
            purpose: String::from_str("Make the next step visible instead of explaining it harder."),
            medium: String::from_str(m),
            cards,
            promotion: String::from_str("Promote only if this surface becomes project material."),
        },
    }
}

} // verus!
