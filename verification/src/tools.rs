//! The tools of a Responses request, as the functions of a Chat Completions request: under which
//! name each tool is offered, and which tool a name stands for.

use vstd::prelude::*;

use crate::json;
use crate::json::{Json, JsonMap, JsonView};
use crate::payload;
use crate::payload::contains_text;
use crate::text;
use crate::text::{concat2, decimal, same};

verus! {

/// What a tool of a Responses request is.
#[derive(Clone, Copy, Debug, PartialEq, Eq, Structural)]
pub enum ResponsesToolKind {
    Function,
    Namespace,
    Custom,
    ToolSearch,
}

/// A tool of a Responses request.
pub struct ResponsesToolSpec {
    pub kind: ResponsesToolKind,
    pub name: String,
    pub namespace: Option<String>,
}

/// The tools of a Responses request under the names that Chat Completions knows them by.
pub struct ResponsesToolContext {
    /// The tools in the form that Chat Completions takes.
    pub chat_tools: Vec<Json>,
    /// The tool behind each chat name, in the order of registration.
    pub chat_name_to_spec: Vec<(String, ResponsesToolSpec)>,
    /// The chat name of each tool of a namespace; a later entry replaces an earlier one.
    pub namespace_name_to_chat_name: Vec<((String, String), String)>,
    /// The chat names that have been given out.
    pub seen_chat_names: Vec<String>,
}

pub ghost struct ToolSpecView {
    pub kind: ResponsesToolKind,
    pub name: Seq<char>,
    pub namespace: Option<Seq<char>>,
}

pub ghost struct ToolContextView {
    pub chat_tools: Seq<JsonView>,
    pub specs: Seq<(Seq<char>, ToolSpecView)>,
    pub namespaces: Map<(Seq<char>, Seq<char>), Seq<char>>,
    pub seen: Seq<Seq<char>>,
}

impl View for ResponsesToolSpec {
    type V = ToolSpecView;

    open spec fn view(&self) -> ToolSpecView {
        ToolSpecView {
            kind: self.kind,
            name: self.name@,
            namespace: text::opt_string_view(self.namespace),
        }
    }
}

pub open spec fn specs_view(specs: Seq<(String, ResponsesToolSpec)>) -> Seq<
    (Seq<char>, ToolSpecView),
> {
    specs.map_values(|entry: (String, ResponsesToolSpec)| (entry.0@, entry.1@))
}

pub open spec fn namespaces_view(entries: Seq<((String, String), String)>) -> Map<
    (Seq<char>, Seq<char>),
    Seq<char>,
>
    decreases entries.len(),
{
    if entries.len() == 0 {
        Map::empty()
    } else {
        let entry = entries.last();
        namespaces_view(entries.drop_last()).insert((entry.0.0@, entry.0.1@), entry.1@)
    }
}

impl View for ResponsesToolContext {
    type V = ToolContextView;

    open spec fn view(&self) -> ToolContextView {
        ToolContextView {
            chat_tools: json::items_view(self.chat_tools@),
            specs: specs_view(self.chat_name_to_spec@),
            namespaces: namespaces_view(self.namespace_name_to_chat_name@),
            seen: payload::strings_view(self.seen_chat_names@),
        }
    }
}

/// The context without tools.
pub open spec fn empty_context() -> ToolContextView {
    ToolContextView {
        chat_tools: Seq::empty(),
        specs: Seq::empty(),
        namespaces: Map::empty(),
        seen: Seq::empty(),
    }
}

impl Default for ResponsesToolContext {
    fn default() -> (context: ResponsesToolContext)
        ensures
            context@ == empty_context(),
    {
        let context = ResponsesToolContext {
            chat_tools: Vec::new(),
            chat_name_to_spec: Vec::new(),
            namespace_name_to_chat_name: Vec::new(),
            seen_chat_names: Vec::new(),
        };
        assert(json::items_view(context.chat_tools@) =~= Seq::empty());
        assert(specs_view(context.chat_name_to_spec@) =~= Seq::empty());
        assert(payload::strings_view(context.seen_chat_names@) =~= Seq::empty());
        context
    }
}

/// The names of the registered tools.
pub open spec fn chat_names(context: ToolContextView) -> Seq<Seq<char>> {
    context.specs.map_values(|entry: (Seq<char>, ToolSpecView)| entry.0)
}

/// `base` with a number behind it.
pub open spec fn numbered(base: Seq<char>, k: nat) -> Seq<char> {
    base + "_"@ + text::decimal_view(k)
}

/// The least number from `k` on for which the numbered name is not in use. Among as many numbers
/// as there are names, and one more, there is one.
pub open spec fn free_number(names: Seq<Seq<char>>, base: Seq<char>, k: nat) -> nat
    decreases names.len() + 2 - k,
{
    if k >= names.len() + 2 || !names.contains(numbered(base, k)) {
        k
    } else {
        free_number(names, base, k + 1)
    }
}

/// `base` where it is not in use, and otherwise `base` with the least number from 2 on that gives
/// a name not in use.
pub open spec fn unique_name(names: Seq<Seq<char>>, base: Seq<char>) -> Seq<char> {
    if names.contains(base) {
        numbered(base, free_number(names, base, 2))
    } else {
        base
    }
}

proof fn numbered_injective(base: Seq<char>, a: nat, b: nat)
    requires
        numbered(base, a) == numbered(base, b),
    ensures
        a == b,
{
    let sep = base + "_"@;
    assert(numbered(base, a).subrange(sep.len() as int, numbered(base, a).len() as int)
        =~= text::decimal_view(a));
    assert(numbered(base, b).subrange(sep.len() as int, numbered(base, b).len() as int)
        =~= text::decimal_view(b));
    text::decimal_injective(a, b);
}

/// The names numbered from 2 up to `k`, without `k`.
spec fn numbered_names(base: Seq<char>, k: nat) -> Set<Seq<char>>
    decreases k,
{
    if k <= 2 {
        Set::empty()
    } else {
        numbered_names(base, (k - 1) as nat).insert(numbered(base, (k - 1) as nat))
    }
}

proof fn numbered_names_len(base: Seq<char>, k: nat)
    requires
        k >= 2,
    ensures
        numbered_names(base, k).finite(),
        numbered_names(base, k).len() == k - 2,
        forall|name: Seq<char>| #[trigger]
            numbered_names(base, k).contains(name) ==> exists|j: nat|
                2 <= j < k && name == #[trigger] numbered(base, j),
    decreases k,
{
    if k > 2 {
        let j = (k - 1) as nat;
        numbered_names_len(base, j);
        if numbered_names(base, j).contains(numbered(base, j)) {
            let i = choose|i: nat| 2 <= i < j && numbered(base, j) == #[trigger] numbered(base, i);
            numbered_injective(base, i, j);
        }
        assert forall|name: Seq<char>| #[trigger]
            numbered_names(base, k).contains(name) implies exists|i: nat|
            2 <= i < k && name == #[trigger] numbered(base, i) by {
            if numbered_names(base, j).contains(name) {
                let i = choose|i: nat| 2 <= i < j && name == #[trigger] numbered(base, i);
                assert(2 <= i < k && name == numbered(base, i));
            } else {
                assert(name == numbered(base, j));
            }
        }
    }
}

/// Where the names numbered from 2 up to `k` are all in use, `k - 2` is at most the number of
/// names.
proof fn numbered_in_use(names: Seq<Seq<char>>, base: Seq<char>, k: nat)
    requires
        k >= 2,
        forall|j: nat| 2 <= j < k ==> names.contains(#[trigger] numbered(base, j)),
    ensures
        k - 2 <= names.len(),
{
    numbered_names_len(base, k);
    let used = numbered_names(base, k);
    assert(used.subset_of(names.to_set())) by {
        assert forall|name: Seq<char>| used.contains(name) implies names.to_set().contains(
            name,
        ) by {
            let j = choose|j: nat| 2 <= j < k && name == #[trigger] numbered(base, j);
            assert(names.contains(numbered(base, j)));
        }
    }
    vstd::seq_lib::seq_to_set_is_finite(names);
    vstd::set_lib::lemma_len_subset(used, names.to_set());
    names.lemma_cardinality_of_set();
}

proof fn free_number_is_free(names: Seq<Seq<char>>, base: Seq<char>, k: nat)
    requires
        2 <= k <= names.len() + 2,
        forall|j: nat| 2 <= j < k ==> names.contains(#[trigger] numbered(base, j)),
    ensures
        !names.contains(numbered(base, free_number(names, base, k))),
    decreases names.len() + 2 - k,
{
    if names.contains(numbered(base, k)) {
        if k == names.len() + 2 {
            numbered_in_use(names, base, k + 1);
        } else {
            free_number_is_free(names, base, k + 1);
        }
    }
}

/// The name given to a tool is in use by no other.
pub proof fn unique_name_is_fresh(names: Seq<Seq<char>>, base: Seq<char>)
    ensures
        !names.contains(unique_name(names, base)),
{
    if names.contains(base) {
        free_number_is_free(names, base, 2);
    }
}

proof fn seen_after_push(names: Seq<Seq<char>>, name: Seq<char>)
    ensures
        names.push(name).to_set() == names.to_set().insert(name),
{
    let after = names.push(name);
    assert forall|other: Seq<char>| after.to_set().contains(other) <==> names.to_set().insert(
        name,
    ).contains(other) by {
        if names.contains(other) {
            let i = choose|i: int| 0 <= i < names.len() && names[i] == other;
            assert(after[i] == other);
        }
        assert(after[names.len() as int] == name);
    }
    assert(after.to_set() =~= names.to_set().insert(name));
}

/// Two names given out one after the other differ, whatever was asked for.
pub proof fn names_given_out_differ(
    context: ToolContextView,
    first: Seq<char>,
    second: Seq<char>,
)
    ensures
        ({
            let name = unique_name(context.seen, first);
            unique_name(reserved(context, name).seen, second) != name
        }),
{
    let name = unique_name(context.seen, first);
    let seen = reserved(context, name).seen;
    assert(seen[context.seen.len() as int] == name);
    unique_name_is_fresh(seen, second);
}

impl ResponsesToolContext {
    fn position(&self, chat_name: &str) -> (at: Option<usize>)
        ensures
            match at {
                Some(i) => {
                    &&& i < self@.specs.len()
                    &&& self@.specs[i as int].0 == chat_name@
                    &&& forall|j: int| 0 <= j < i ==> (#[trigger] self@.specs[j]).0 != chat_name@
                },
                None => !chat_names(self@).contains(chat_name@),
            },
    {
        let mut i: usize = 0;
        while i < self.chat_name_to_spec.len()
            invariant
                i <= self.chat_name_to_spec@.len(),
                forall|j: int| 0 <= j < i ==> (#[trigger] self@.specs[j]).0 != chat_name@,
            decreases self.chat_name_to_spec@.len() - i,
        {
            assert(self@.specs[i as int].0 == self.chat_name_to_spec@[i as int].0@);
            if same(self.chat_name_to_spec[i].0.as_str(), chat_name) {
                return Some(i);
            }
            i = i + 1;
        }
        proof {
            if chat_names(self@).contains(chat_name@) {
                let j = choose|j: int|
                    0 <= j < chat_names(self@).len() && chat_names(self@)[j] == chat_name@;
                assert(self@.specs[j].0 == chat_name@);
            }
        }
        None
    }
}

/// The context once a name has been given out.
pub open spec fn reserved(context: ToolContextView, name: Seq<char>) -> ToolContextView {
    ToolContextView { seen: context.seen.push(name), ..context }
}

fn reserve(context: &mut ResponsesToolContext, name: &String)
    ensures
        final(context)@ == reserved(old(context)@, name@),
{
    let ghost before = context.seen_chat_names@;
    context.seen_chat_names.push(name.clone());
    assert(payload::strings_view(context.seen_chat_names@) =~= payload::strings_view(before).push(
        name@,
    ));
}

/// Gives out a name for a tool: one that has not been given out before.
pub fn unique_chat_tool_name(context: &mut ResponsesToolContext, base: String) -> (name: String)
    ensures
        name@ == unique_name(old(context)@.seen, base@),
        !old(context)@.seen.contains(name@),
        final(context)@ == reserved(old(context)@, name@),
        final(context)@.seen.to_set() == old(context)@.seen.to_set().insert(name@),
{
    let ghost names = context@.seen;
    proof {
        unique_name_is_fresh(names, base@);
        assert forall|name: Seq<char>| #[trigger]
            names.push(name).to_set() == names.to_set().insert(name) by {
            seen_after_push(names, name);
        }
    }
    if !contains_text(&context.seen_chat_names, base.as_str()) {
        reserve(context, &base);
        return base;
    }
    let count: usize = context.seen_chat_names.len();
    let mut index: u128 = 2;
    loop
        invariant
            names == context@.seen,
            context@ == old(context)@,
            names.len() == count,
            names.contains(base@),
            2 <= index <= names.len() + 2,
            forall|j: nat| 2 <= j < index ==> names.contains(#[trigger] numbered(base@, j)),
            free_number(names, base@, 2) == free_number(names, base@, index as nat),
            !names.contains(unique_name(names, base@)),
            forall|name: Seq<char>| #[trigger]
                names.push(name).to_set() == names.to_set().insert(name),
        decreases names.len() + 3 - index,
    {
        let candidate = concat2(concat2(base.as_str(), "_").as_str(), decimal(index).as_str());
        assert(candidate@ == numbered(base@, index as nat));
        if !contains_text(&context.seen_chat_names, candidate.as_str()) {
            reserve(context, &candidate);
            return candidate;
        }
        proof {
            numbered_in_use(names, base@, (index + 1) as nat);
        }
        index = index + 1;
    }
}

/// A function of a Chat Completions request.
pub open spec fn chat_function_view(
    name: Seq<char>,
    description: JsonView,
    parameters: JsonView,
) -> JsonView {
    JsonView::Object(
        map![
            "type"@ => JsonView::String("function"@),
            "function"@ => JsonView::Object(
                map![
                    "name"@ => JsonView::String(name),
                    "description"@ => description,
                    "parameters"@ => parameters,
                ],
            ),
        ],
    )
}

fn chat_function(name: &str, description: Json, parameters: Json) -> (tool: Json)
    ensures
        tool@ == chat_function_view(name@, description@, parameters@),
{
    let function = JsonMap::new().with("name", Json::text(name)).with(
        "description",
        description,
    ).with("parameters", parameters);
    Json::Object(
        JsonMap::new().with("type", Json::text("function")).with(
            "function",
            Json::Object(function),
        ),
    )
}

/// `{"type": kind}`.
pub open spec fn typed_view(kind: Seq<char>) -> JsonView {
    JsonView::Object(map!["type"@ => JsonView::String(kind)])
}

fn typed(kind: &str) -> (schema: Json)
    ensures
        schema@ == typed_view(kind@),
{
    Json::Object(JsonMap::new().with("type", Json::text(kind)))
}

/// The schema of an object with these properties and no others.
pub open spec fn closed_schema_view(
    properties: Map<Seq<char>, JsonView>,
    required: Seq<char>,
) -> JsonView {
    JsonView::Object(
        map![
            "type"@ => JsonView::String("object"@),
            "properties"@ => JsonView::Object(properties),
            "required"@ => JsonView::Array(seq![JsonView::String(required)]),
            "additionalProperties"@ => JsonView::Bool(false),
        ],
    )
}

fn closed_schema(properties: JsonMap, required: &str) -> (schema: Json)
    ensures
        schema@ == closed_schema_view(properties@, required@),
{
    let mut names: Vec<Json> = Vec::new();
    names.push(Json::text(required));
    assert(json::items_view(names@) =~= seq![JsonView::String(required@)]);
    Json::Object(
        JsonMap::new().with("type", Json::text("object")).with(
            "properties",
            Json::Object(properties),
        ).with("required", Json::Array(names)).with("additionalProperties", Json::Bool(false)),
    )
}

pub open spec fn string_input_schema() -> JsonView {
    closed_schema_view(map!["input"@ => typed_view("string"@)], "input"@)
}

/// The parameters of a custom tool: one string, `input`.
pub fn string_input_parameters_schema() -> (schema: Json)
    ensures
        schema@ == string_input_schema(),
{
    closed_schema(JsonMap::new().with("input", typed("string")), "input")
}

pub open spec fn tool_search_schema() -> JsonView {
    closed_schema_view(
        map!["query"@ => typed_view("string"@), "limit"@ => typed_view("integer"@)],
        "query"@,
    )
}

/// The parameters of a tool search: a string `query`, and perhaps an integer `limit`.
pub fn tool_search_parameters_schema() -> (schema: Json)
    ensures
        schema@ == tool_search_schema(),
{
    closed_schema(
        JsonMap::new().with("query", typed("string")).with("limit", typed("integer")),
        "query",
    )
}

pub open spec fn open_schema_view() -> JsonView {
    JsonView::Object(
        map![
            "type"@ => JsonView::String("object"@),
            "properties"@ => JsonView::Object(Map::empty()),
            "additionalProperties"@ => JsonView::Bool(true),
        ],
    )
}

/// The schema of an object with any properties.
fn open_schema() -> (schema: Json)
    ensures
        schema@ == open_schema_view(),
{
    Json::Object(
        JsonMap::new().with("type", Json::text("object")).with(
            "properties",
            Json::Object(JsonMap::new()),
        ).with("additionalProperties", Json::Bool(true)),
    )
}

pub open spec fn flattened_view(namespace: Seq<char>, name: Seq<char>) -> Seq<char> {
    namespace + "."@ + name
}

/// The name of a tool of a namespace, without the namespace round it.
pub fn flatten_namespace_tool_name(namespace: &str, name: &str) -> (flat: String)
    ensures
        flat@ == flattened_view(namespace@, name@),
{
    concat2(concat2(namespace, ".").as_str(), name)
}

/// The context with one more tool, under its chat name.
pub open spec fn with_tool(
    context: ToolContextView,
    chat_name: Seq<char>,
    spec_: ToolSpecView,
    tool: JsonView,
) -> ToolContextView {
    ToolContextView {
        chat_tools: context.chat_tools.push(tool),
        specs: context.specs.push((chat_name, spec_)),
        namespaces: match spec_.namespace {
            Some(namespace) => context.namespaces.insert((namespace, spec_.name), chat_name),
            None => context.namespaces,
        },
        seen: context.seen,
    }
}

/// A tool of that kind outside any namespace.
pub open spec fn plain_spec(kind: ResponsesToolKind, name: Seq<char>) -> ToolSpecView {
    ToolSpecView { kind, name, namespace: None }
}

/// The context after a function of a namespace: one without a name is left out.
pub open spec fn namespace_function_added(
    context: ToolContextView,
    namespace: Seq<char>,
    function: JsonView,
) -> ToolContextView {
    match function {
        JsonView::Object(members) => match json::member_str(members, "name"@) {
            Some(name) => {
                let chat_name = unique_name(context.seen, flattened_view(namespace, name));
                with_tool(
                    reserved(context, chat_name),
                    chat_name,
                    ToolSpecView {
                        kind: ResponsesToolKind::Namespace,
                        name,
                        namespace: Some(namespace),
                    },
                    chat_function_view(
                        chat_name,
                        json::member_or(members, "description"@, JsonView::String(Seq::empty())),
                        json::member_or(members, "parameters"@, open_schema_view()),
                    ),
                )
            },
            None => context,
        },
        _ => context,
    }
}

/// The context after the first `n` functions of a namespace.
pub open spec fn namespace_added(
    context: ToolContextView,
    namespace: Seq<char>,
    functions: Seq<JsonView>,
    n: nat,
) -> ToolContextView
    decreases n,
{
    if n == 0 {
        context
    } else {
        namespace_function_added(
            namespace_added(context, namespace, functions, (n - 1) as nat),
            namespace,
            functions[n - 1],
        )
    }
}

/// The context after a function: its members, with the chat name as its name.
pub open spec fn function_added(
    context: ToolContextView,
    name: Seq<char>,
    members: Map<Seq<char>, JsonView>,
) -> ToolContextView {
    let chat_name = unique_name(context.seen, name);
    with_tool(
        reserved(context, chat_name),
        chat_name,
        plain_spec(ResponsesToolKind::Function, name),
        JsonView::Object(
            members.insert("type"@, JsonView::String("function"@)).insert(
                "name"@,
                JsonView::String(chat_name),
            ),
        ),
    )
}

/// The context after a custom tool: a function of one string.
pub open spec fn custom_added(
    context: ToolContextView,
    name: Seq<char>,
    members: Map<Seq<char>, JsonView>,
) -> ToolContextView {
    let chat_name = unique_name(context.seen, name);
    with_tool(
        reserved(context, chat_name),
        chat_name,
        plain_spec(ResponsesToolKind::Custom, name),
        chat_function_view(
            chat_name,
            json::member_or(members, "description"@, JsonView::String(Seq::empty())),
            string_input_schema(),
        ),
    )
}

/// The context after a tool search, whose name is always `tool_search`.
pub open spec fn tool_search_added(
    context: ToolContextView,
    members: Map<Seq<char>, JsonView>,
) -> ToolContextView {
    let chat_name = unique_name(context.seen, "tool_search"@);
    with_tool(
        reserved(context, chat_name),
        chat_name,
        plain_spec(ResponsesToolKind::ToolSearch, "tool_search"@),
        chat_function_view(
            chat_name,
            json::member_or(
                members,
                "description"@,
                JsonView::String("Search across available tools"@),
            ),
            tool_search_schema(),
        ),
    )
}

/// The context after a tool. A function keeps its members, with the chat name as its name; a
/// custom tool and a tool search become functions; a namespace stands for its functions. What is
/// none of these, or has no name, is left out.
pub open spec fn tool_added(context: ToolContextView, tool: JsonView) -> ToolContextView {
    match tool {
        JsonView::Object(members) => {
            let kind = json::member_str(members, "type"@);
            let name = json::member_str(members, "name"@);
            if kind == Some("function"@) {
                match name {
                    Some(name) => function_added(context, name, members),
                    None => context,
                }
            } else if kind == Some("custom"@) {
                match name {
                    Some(name) => custom_added(context, name, members),
                    None => context,
                }
            } else if kind == Some("tool_search"@) {
                tool_search_added(context, members)
            } else if kind == Some("namespace"@) {
                match (name, members.get("tools"@)) {
                    (Some(name), Some(JsonView::Array(functions))) => namespace_added(
                        context,
                        name,
                        functions,
                        functions.len(),
                    ),
                    _ => context,
                }
            } else {
                context
            }
        },
        _ => context,
    }
}

/// The context of the first `n` tools.
pub open spec fn tools_added(tools: Seq<JsonView>, n: nat) -> ToolContextView
    decreases n,
{
    if n == 0 {
        empty_context()
    } else {
        tool_added(tools_added(tools, (n - 1) as nat), tools[n - 1])
    }
}

/// The context of the tools of a request.
pub open spec fn tool_context(tools: Option<JsonView>) -> ToolContextView {
    match tools {
        Some(JsonView::Array(tools)) => tools_added(tools, tools.len()),
        _ => empty_context(),
    }
}

impl ResponsesToolContext {
    fn add(&mut self, chat_name: String, tool_spec: ResponsesToolSpec, tool: Json)
        ensures
            final(self)@ == with_tool(old(self)@, chat_name@, tool_spec@, tool@),
    {
        let ghost before = *self;
        match &tool_spec.namespace {
            Some(namespace) => {
                let entry = (
                    (namespace.clone(), tool_spec.name.clone()),
                    chat_name.clone(),
                );
                self.namespace_name_to_chat_name.push(entry);
                assert(self.namespace_name_to_chat_name@.drop_last()
                    =~= before.namespace_name_to_chat_name@);
            },
            None => {},
        }
        proof {
            json::items_push(self.chat_tools@, tool);
        }
        self.chat_tools.push(tool);
        self.chat_name_to_spec.push((chat_name, tool_spec));
        assert(specs_view(self.chat_name_to_spec@) =~= specs_view(before.chat_name_to_spec@).push(
            (chat_name@, tool_spec@),
        ));
    }

    fn add_plain(&mut self, kind: ResponsesToolKind, name: &str, chat_name: String, tool: Json)
        ensures
            final(self)@ == with_tool(old(self)@, chat_name@, plain_spec(kind, name@), tool@),
    {
        let tool_spec = ResponsesToolSpec { kind, name: name.to_string(), namespace: None };
        self.add(chat_name, tool_spec, tool);
    }

    fn add_namespace_function(&mut self, namespace: &str, function: &Json)
        ensures
            final(self)@ == namespace_function_added(old(self)@, namespace@, function@),
    {
        if let Json::Object(members) = function {
            if let Some(name) = members.get_str("name") {
                let chat_name = unique_chat_tool_name(
                    self,
                    flatten_namespace_tool_name(namespace, name),
                );
                let description = members.get_or("description", Json::text(""));
                let parameters = members.get_or("parameters", open_schema());
                let tool = chat_function(chat_name.as_str(), description, parameters);
                let tool_spec = ResponsesToolSpec {
                    kind: ResponsesToolKind::Namespace,
                    name: name.to_string(),
                    namespace: Some(namespace.to_string()),
                };
                proof {
                    text::empty_literal();
                }
                self.add(chat_name, tool_spec, tool);
            }
        }
    }

    fn add_namespace(&mut self, namespace: &str, functions: &Vec<Json>)
        ensures
            final(self)@ == namespace_added(
                old(self)@,
                namespace@,
                json::items_view(functions@),
                functions@.len(),
            ),
    {
        let ghost before = self@;
        let mut i: usize = 0;
        while i < functions.len()
            invariant
                i <= functions@.len(),
                self@ == namespace_added(
                    before,
                    namespace@,
                    json::items_view(functions@),
                    i as nat,
                ),
            decreases functions@.len() - i,
        {
            self.add_namespace_function(namespace, &functions[i]);
            i = i + 1;
        }
    }

    fn add_tool(&mut self, tool: &Json)
        ensures
            final(self)@ == tool_added(old(self)@, tool@),
    {
        proof {
            text::empty_literal();
        }
        if let Json::Object(members) = tool {
            let kind = match members.get_str("type") {
                Some(kind) => kind,
                None => {
                    return;
                },
            };
            let name = members.get_str("name");
            if same(kind, "function") {
                if let Some(name) = name {
                    let chat_name = unique_chat_tool_name(self, name.to_string());
                    let chat_tool = members.clone().with("type", Json::text("function")).with(
                        "name",
                        Json::text(chat_name.as_str()),
                    );
                    self.add_plain(
                        ResponsesToolKind::Function,
                        name,
                        chat_name,
                        Json::Object(chat_tool),
                    );
                }
            } else if same(kind, "custom") {
                if let Some(name) = name {
                    let chat_name = unique_chat_tool_name(self, name.to_string());
                    let description = members.get_or("description", Json::text(""));
                    let chat_tool = chat_function(
                        chat_name.as_str(),
                        description,
                        string_input_parameters_schema(),
                    );
                    self.add_plain(ResponsesToolKind::Custom, name, chat_name, chat_tool);
                }
            } else if same(kind, "tool_search") {
                let chat_name = unique_chat_tool_name(self, "tool_search".to_string());
                let description = members.get_or(
                    "description",
                    Json::text("Search across available tools"),
                );
                let chat_tool = chat_function(
                    chat_name.as_str(),
                    description,
                    tool_search_parameters_schema(),
                );
                self.add_plain(ResponsesToolKind::ToolSearch, "tool_search", chat_name, chat_tool);
            } else if same(kind, "namespace") {
                if let Some(namespace) = name {
                    if let Some(functions) = members.get("tools") {
                        if let Json::Array(functions) = functions {
                            self.add_namespace(namespace, functions);
                        }
                    }
                }
            }
        }
    }
}

/// The tools of a Responses request as functions of a Chat Completions request.
pub fn build_responses_tool_context(tools: Option<&Json>) -> (context: ResponsesToolContext)
    ensures
        context@ == tool_context(json::opt_view(tools)),
{
    let mut context = ResponsesToolContext::default();
    if let Some(tools) = tools {
        if let Json::Array(items) = tools {
            let mut i: usize = 0;
            while i < items.len()
                invariant
                    i <= items@.len(),
                    context@ == tools_added(json::items_view(items@), i as nat),
                decreases items@.len() - i,
            {
                context.add_tool(&items[i]);
                i = i + 1;
            }
        }
    }
    context
}

/// The chat name of the first tool of that name outside any namespace.
pub open spec fn first_plain(specs: Seq<(Seq<char>, ToolSpecView)>, name: Seq<char>) -> Option<
    Seq<char>,
>
    decreases specs.len(),
{
    if specs.len() == 0 {
        None
    } else if specs[0].1.name == name && specs[0].1.namespace is None {
        Some(specs[0].0)
    } else {
        first_plain(specs.skip(1), name)
    }
}

/// The chat name of a tool: the one that it was registered under. A tool of a namespace that was
/// not registered goes by its flattened name, another one by its own.
pub open spec fn chat_name_of(
    context: ToolContextView,
    name: Seq<char>,
    namespace: Option<Seq<char>>,
) -> Seq<char> {
    match namespace {
        Some(namespace) => match context.namespaces.get((namespace, name)) {
            Some(chat_name) => chat_name,
            None => flattened_view(namespace, name),
        },
        None => match first_plain(context.specs, name) {
            Some(chat_name) => chat_name,
            None => name,
        },
    }
}

/// The tool that a chat name stands for.
pub open spec fn spec_of(specs: Seq<(Seq<char>, ToolSpecView)>, chat_name: Seq<char>) -> Option<
    ToolSpecView,
>
    decreases specs.len(),
{
    if specs.len() == 0 {
        None
    } else if specs[0].0 == chat_name {
        Some(specs[0].1)
    } else {
        spec_of(specs.skip(1), chat_name)
    }
}

proof fn spec_of_first(specs: Seq<(Seq<char>, ToolSpecView)>, chat_name: Seq<char>, at: int)
    requires
        0 <= at < specs.len(),
        specs[at].0 == chat_name,
        forall|j: int| 0 <= j < at ==> (#[trigger] specs[j]).0 != chat_name,
    ensures
        spec_of(specs, chat_name) == Some(specs[at].1),
    decreases specs.len(),
{
    if at > 0 {
        let rest = specs.skip(1);
        assert(rest[at - 1] == specs[at]);
        assert forall|j: int| 0 <= j < at - 1 implies (#[trigger] rest[j]).0 != chat_name by {
            assert(rest[j] == specs[j + 1]);
        }
        spec_of_first(rest, chat_name, at - 1);
    }
}

proof fn spec_of_absent(specs: Seq<(Seq<char>, ToolSpecView)>, chat_name: Seq<char>)
    requires
        forall|j: int| 0 <= j < specs.len() ==> (#[trigger] specs[j]).0 != chat_name,
    ensures
        spec_of(specs, chat_name) is None,
    decreases specs.len(),
{
    if specs.len() > 0 {
        let rest = specs.skip(1);
        assert forall|j: int| 0 <= j < rest.len() implies (#[trigger] rest[j]).0 != chat_name by {
            assert(rest[j] == specs[j + 1]);
        }
        spec_of_absent(rest, chat_name);
    }
}

impl ResponsesToolContext {
    /// The tool that a chat name stands for.
    pub fn spec_for(&self, chat_name: &str) -> (found: Option<&ResponsesToolSpec>)
        ensures
            match found {
                Some(tool_spec) => spec_of(self@.specs, chat_name@) == Some(tool_spec@),
                None => spec_of(self@.specs, chat_name@) is None,
            },
    {
        match self.position(chat_name) {
            Some(i) => {
                proof {
                    spec_of_first(self@.specs, chat_name@, i as int);
                }
                Some(&self.chat_name_to_spec[i].1)
            },
            None => {
                proof {
                    assert forall|j: int| 0 <= j < self@.specs.len() implies (
                    #[trigger] self@.specs[j]).0 != chat_name@ by {
                        assert(chat_names(self@)[j] == self@.specs[j].0);
                    }
                    spec_of_absent(self@.specs, chat_name@);
                }
                None
            },
        }
    }

    fn namespace_chat_name(&self, namespace: &str, name: &str) -> (found: Option<&str>)
        ensures
            text::opt_str_view(found) == self@.namespaces.get((namespace@, name@)),
    {
        let ghost entries = self.namespace_name_to_chat_name@;
        let mut i: usize = self.namespace_name_to_chat_name.len();
        assert(entries.take(i as int) =~= entries);
        while i > 0
            invariant
                i <= entries.len(),
                entries == self.namespace_name_to_chat_name@,
                self@.namespaces.get((namespace@, name@)) == namespaces_view(
                    entries.take(i as int),
                ).get((namespace@, name@)),
            decreases i,
        {
            i = i - 1;
            let entry = &self.namespace_name_to_chat_name[i];
            proof {
                let upto = entries.take(i + 1);
                assert(upto.drop_last() =~= entries.take(i as int));
                assert(upto.last() == *entry);
            }
            if same(entry.0.0.as_str(), namespace) && same(entry.0.1.as_str(), name) {
                return Some(entry.1.as_str());
            }
        }
        None
    }
}

/// The chat name of a tool of a Responses request.
pub fn chat_tool_name_for_response_tool(
    context: &ResponsesToolContext,
    name: &str,
    namespace: Option<&str>,
) -> (chat_name: String)
    ensures
        chat_name@ == chat_name_of(context@, name@, text::opt_str_view(namespace)),
{
    if let Some(namespace) = namespace {
        return match context.namespace_chat_name(namespace, name) {
            Some(chat_name) => chat_name.to_string(),
            None => flatten_namespace_tool_name(namespace, name),
        };
    }
    let ghost specs = context@.specs;
    let mut i: usize = 0;
    assert(specs.skip(0) =~= specs);
    while i < context.chat_name_to_spec.len()
        invariant
            i <= context.chat_name_to_spec@.len(),
            specs == context@.specs,
            namespace is None,
            first_plain(specs, name@) == first_plain(specs.skip(i as int), name@),
        decreases context.chat_name_to_spec@.len() - i,
    {
        let entry = &context.chat_name_to_spec[i];
        proof {
            assert(specs.skip(i as int)[0] == (entry.0@, entry.1@));
            assert(specs.skip(i as int).skip(1) =~= specs.skip(i + 1));
        }
        if same(entry.1.name.as_str(), name) && entry.1.namespace.is_none() {
            return entry.0.clone();
        }
        i = i + 1;
    }
    name.to_string()
}

/// The name in a tool choice: its own, or that of its function.
pub open spec fn choice_name(choice: Map<Seq<char>, JsonView>) -> Option<Seq<char>> {
    match json::member_str(choice, "name"@) {
        Some(name) => Some(name),
        None => match choice.get("function"@) {
            Some(function) => function.get_str("name"@),
            None => None,
        },
    }
}

/// The name in a tool choice: its own, or that of its function.
pub fn tool_name_from_choice(choice: &JsonMap) -> (name: Option<String>)
    ensures
        text::opt_string_view(name) == choice_name(choice@),
{
    if let Some(name) = choice.get_str("name") {
        return Some(name.to_string());
    }
    if let Some(function) = choice.get("function") {
        if let Json::Object(function) = function {
            if let Some(name) = function.get_str("name") {
                return Some(name.to_string());
            }
        }
    }
    None
}

/// The choice of one function in a Chat Completions request.
pub open spec fn function_choice_view(chat_name: Seq<char>) -> JsonView {
    JsonView::Object(
        map![
            "type"@ => JsonView::String("function"@),
            "function"@ => JsonView::Object(map!["name"@ => JsonView::String(chat_name)]),
        ],
    )
}

fn function_choice(chat_name: &str) -> (choice: Json)
    ensures
        choice@ == function_choice_view(chat_name@),
{
    let function = JsonMap::new().with("name", Json::text(chat_name));
    Json::Object(
        JsonMap::new().with("type", Json::text("function")).with(
            "function",
            Json::Object(function),
        ),
    )
}

/// The tool choice of a Responses request in a Chat Completions request. A choice that names no
/// tool stays as it is.
pub open spec fn chat_tool_choice(choice: JsonView, context: ToolContextView) -> JsonView {
    match choice {
        JsonView::Object(members) => {
            let kind = json::member_str(members, "type"@);
            if kind == Some("function"@) {
                match choice_name(members) {
                    Some(name) => function_choice_view(
                        chat_name_of(context, name, json::member_str(members, "namespace"@)),
                    ),
                    None => choice,
                }
            } else if kind == Some("custom"@) {
                match choice_name(members) {
                    Some(name) => function_choice_view(name),
                    None => choice,
                }
            } else if kind == Some("tool_search"@) {
                let name = match choice_name(members) {
                    Some(name) => name,
                    None => "tool_search"@,
                };
                function_choice_view(chat_name_of(context, name, None))
            } else if kind == Some("namespace"@) {
                match json::member_str(members, "tool"@) {
                    Some(name) => {
                        let namespace = match json::member_str(members, "name"@) {
                            Some(namespace) => namespace,
                            None => Seq::empty(),
                        };
                        function_choice_view(chat_name_of(context, name, Some(namespace)))
                    },
                    None => choice,
                }
            } else {
                choice
            }
        },
        _ => choice,
    }
}

/// The tool choice of a Responses request in a Chat Completions request.
pub fn responses_tool_choice_to_chat(choice: &Json, context: &ResponsesToolContext) -> (chat: Json)
    ensures
        chat@ == chat_tool_choice(choice@, context@),
{
    proof {
        text::empty_literal();
    }
    let members = match choice {
        Json::Object(members) => members,
        _ => {
            return choice.clone();
        },
    };
    let kind = match members.get_str("type") {
        Some(kind) => kind,
        None => {
            return choice.clone();
        },
    };
    if same(kind, "function") {
        match tool_name_from_choice(members) {
            Some(name) => function_choice(
                chat_tool_name_for_response_tool(
                    context,
                    name.as_str(),
                    members.get_str("namespace"),
                ).as_str(),
            ),
            None => choice.clone(),
        }
    } else if same(kind, "custom") {
        match tool_name_from_choice(members) {
            Some(name) => function_choice(name.as_str()),
            None => choice.clone(),
        }
    } else if same(kind, "tool_search") {
        let name = match tool_name_from_choice(members) {
            Some(name) => name,
            None => "tool_search".to_string(),
        };
        function_choice(chat_tool_name_for_response_tool(context, name.as_str(), None).as_str())
    } else if same(kind, "namespace") {
        match members.get_str("tool") {
            Some(name) => {
                let namespace = match members.get_str("name") {
                    Some(namespace) => namespace,
                    None => "",
                };
                function_choice(
                    chat_tool_name_for_response_tool(context, name, Some(namespace)).as_str(),
                )
            },
            None => choice.clone(),
        }
    } else {
        choice.clone()
    }
}

/// The name that a tool has in the form that Chat Completions takes. A function has it among its
/// own members.
pub open spec fn offered_name(tool: JsonView, kind: ResponsesToolKind) -> Option<Seq<char>> {
    if kind == ResponsesToolKind::Function {
        tool.get_str("name"@)
    } else {
        match tool.get("function"@) {
            Some(function) => function.get_str("name"@),
            None => None,
        }
    }
}

/// What every context of a request keeps: each tool is offered once, under a name of its own, which
/// stands in the tool; the names given out are those of the tools; each tool of a namespace has a
/// name on record, and that name is the tool's.
pub open spec fn well_formed(context: ToolContextView) -> bool {
    &&& chat_names(context).no_duplicates()
    &&& context.seen == chat_names(context)
    &&& context.chat_tools.len() == context.specs.len()
    &&& forall|i: int|
        0 <= i < context.specs.len() ==> offered_name(
            context.chat_tools[i],
            (#[trigger] context.specs[i]).1.kind,
        ) == Some(context.specs[i].0)
    &&& forall|i: int|
        0 <= i < context.specs.len() ==> match (#[trigger] context.specs[i]).1.namespace {
            Some(namespace) => context.namespaces.contains_key(
                (namespace, context.specs[i].1.name),
            ),
            None => true,
        }
    &&& forall|namespace: Seq<char>, name: Seq<char>| #[trigger]
        context.namespaces.contains_key((namespace, name)) ==> context.specs.contains(
            (
                context.namespaces[(namespace, name)],
                ToolSpecView {
                    kind: ResponsesToolKind::Namespace,
                    name,
                    namespace: Some(namespace),
                },
            ),
        )
}

proof fn chat_function_is_named(name: Seq<char>, description: JsonView, parameters: JsonView)
    ensures
        offered_name(
            chat_function_view(name, description, parameters),
            ResponsesToolKind::Custom,
        ) == Some(name),
{
    reveal_strlit("name");
    reveal_strlit("description");
    reveal_strlit("parameters");
    reveal_strlit("type");
    reveal_strlit("function");
    assert("name"@.len() == 4 && "description"@.len() == 11 && "parameters"@.len() == 10);
    assert("type"@.len() == 4 && "function"@.len() == 8);
}

proof fn with_tool_keeps(
    context: ToolContextView,
    base: Seq<char>,
    tool_spec: ToolSpecView,
    tool: JsonView,
)
    requires
        well_formed(context),
        tool_spec.namespace is Some ==> tool_spec.kind == ResponsesToolKind::Namespace,
        offered_name(tool, tool_spec.kind) == Some(unique_name(context.seen, base)),
    ensures
        ({
            let chat_name = unique_name(context.seen, base);
            well_formed(with_tool(reserved(context, chat_name), chat_name, tool_spec, tool))
        }),
{
    let chat_name = unique_name(context.seen, base);
    let after = with_tool(reserved(context, chat_name), chat_name, tool_spec, tool);
    unique_name_is_fresh(context.seen, base);
    assert(chat_names(after) =~= chat_names(context).push(chat_name));
    assert(chat_names(after).no_duplicates()) by {
        let names = chat_names(context);
        assert forall|i: int, j: int|
            0 <= i < names.push(chat_name).len() && 0 <= j < names.push(chat_name).len() && i
                != j implies names.push(chat_name)[i] != names.push(chat_name)[j] by {
            if i < names.len() {
                assert(names.contains(names[i]));
            }
            if j < names.len() {
                assert(names.contains(names[j]));
            }
        }
    }
    assert forall|namespace: Seq<char>, name: Seq<char>| #[trigger]
        after.namespaces.contains_key((namespace, name)) implies after.specs.contains(
        (
            after.namespaces[(namespace, name)],
            ToolSpecView {
                kind: ResponsesToolKind::Namespace,
                name,
                namespace: Some(namespace),
            },
        ),
    ) by {
        let wanted = (
            after.namespaces[(namespace, name)],
            ToolSpecView {
                kind: ResponsesToolKind::Namespace,
                name,
                namespace: Some(namespace),
            },
        );
        if tool_spec.namespace == Some(namespace) && tool_spec.name == name {
            assert(after.specs[context.specs.len() as int] == wanted);
        } else {
            assert(context.namespaces.contains_key((namespace, name)));
            let i = choose|i: int| 0 <= i < context.specs.len() && context.specs[i] == wanted;
            assert(after.specs[i] == wanted);
        }
    }
}

proof fn namespace_keeps(
    context: ToolContextView,
    namespace: Seq<char>,
    functions: Seq<JsonView>,
    n: nat,
)
    requires
        well_formed(context),
    ensures
        well_formed(namespace_added(context, namespace, functions, n)),
    decreases n,
{
    if n > 0 {
        namespace_keeps(context, namespace, functions, (n - 1) as nat);
        let before = namespace_added(context, namespace, functions, (n - 1) as nat);
        if let JsonView::Object(members) = functions[n - 1] {
            if let Some(name) = json::member_str(members, "name"@) {
                let base = flattened_view(namespace, name);
                let chat_name = unique_name(before.seen, base);
                chat_function_is_named(
                    chat_name,
                    json::member_or(members, "description"@, JsonView::String(Seq::empty())),
                    json::member_or(members, "parameters"@, open_schema_view()),
                );
                with_tool_keeps(
                    before,
                    base,
                    ToolSpecView {
                        kind: ResponsesToolKind::Namespace,
                        name,
                        namespace: Some(namespace),
                    },
                    chat_function_view(
                        chat_name,
                        json::member_or(members, "description"@, JsonView::String(Seq::empty())),
                        json::member_or(members, "parameters"@, open_schema_view()),
                    ),
                );
            }
        }
    }
}

proof fn tool_keeps(context: ToolContextView, tool: JsonView)
    requires
        well_formed(context),
    ensures
        well_formed(tool_added(context, tool)),
{
    if let JsonView::Object(members) = tool {
        let kind = json::member_str(members, "type"@);
        let name = json::member_str(members, "name"@);
        if kind == Some("function"@) {
            if let Some(name) = name {
                with_tool_keeps(
                    context,
                    name,
                    plain_spec(ResponsesToolKind::Function, name),
                    function_added(context, name, members).chat_tools.last(),
                );
            }
        } else if kind == Some("custom"@) {
            if let Some(name) = name {
                chat_function_is_named(
                    unique_name(context.seen, name),
                    json::member_or(members, "description"@, JsonView::String(Seq::empty())),
                    string_input_schema(),
                );
                with_tool_keeps(
                    context,
                    name,
                    plain_spec(ResponsesToolKind::Custom, name),
                    custom_added(context, name, members).chat_tools.last(),
                );
            }
        } else if kind == Some("tool_search"@) {
            chat_function_is_named(
                unique_name(context.seen, "tool_search"@),
                json::member_or(
                    members,
                    "description"@,
                    JsonView::String("Search across available tools"@),
                ),
                tool_search_schema(),
            );
            with_tool_keeps(
                context,
                "tool_search"@,
                plain_spec(ResponsesToolKind::ToolSearch, "tool_search"@),
                tool_search_added(context, members).chat_tools.last(),
            );
        } else if kind == Some("namespace"@) {
            if let (Some(name), Some(JsonView::Array(functions))) = (name, members.get("tools"@)) {
                namespace_keeps(context, name, functions, functions.len());
            }
        }
    }
}

proof fn tools_keep(tools: Seq<JsonView>, n: nat)
    ensures
        well_formed(tools_added(tools, n)),
    decreases n,
{
    if n > 0 {
        tools_keep(tools, (n - 1) as nat);
        tool_keeps(tools_added(tools, (n - 1) as nat), tools[n - 1]);
    } else {
        assert(chat_names(empty_context()) =~= Seq::empty());
    }
}

/// The context of any request is well formed: however its tools are named, no two are offered
/// under one name.
pub proof fn tool_context_well_formed(tools: Option<JsonView>)
    ensures
        well_formed(tool_context(tools)),
{
    match tools {
        Some(JsonView::Array(items)) => {
            tools_keep(items, items.len());
        },
        _ => {
            assert(chat_names(empty_context()) =~= Seq::empty());
        },
    }
}

/// Each registered tool is found again by its chat name.
pub proof fn spec_of_registered(context: ToolContextView, i: int)
    requires
        well_formed(context),
        0 <= i < context.specs.len(),
    ensures
        spec_of(context.specs, context.specs[i].0) == Some(context.specs[i].1),
{
    assert forall|j: int| 0 <= j < i implies (#[trigger] context.specs[j]).0
        != context.specs[i].0 by {
        assert(chat_names(context)[j] == context.specs[j].0);
        assert(chat_names(context)[i] == context.specs[i].0);
    }
    spec_of_first(context.specs, context.specs[i].0, i);
}

proof fn first_plain_registered(specs: Seq<(Seq<char>, ToolSpecView)>, name: Seq<char>)
    ensures
        match first_plain(specs, name) {
            Some(chat_name) => exists|i: int|
                0 <= i < specs.len() && (#[trigger] specs[i]).0 == chat_name && specs[i].1.name
                    == name && specs[i].1.namespace is None,
            None => forall|i: int|
                0 <= i < specs.len() ==> !((#[trigger] specs[i]).1.name == name
                    && specs[i].1.namespace is None),
        },
    decreases specs.len(),
{
    if specs.len() > 0 && !(specs[0].1.name == name && specs[0].1.namespace is None) {
        let rest = specs.skip(1);
        first_plain_registered(rest, name);
        match first_plain(rest, name) {
            Some(chat_name) => {
                let i = choose|i: int|
                    0 <= i < rest.len() && (#[trigger] rest[i]).0 == chat_name && rest[i].1.name
                        == name && rest[i].1.namespace is None;
                assert(specs[i + 1] == rest[i]);
            },
            None => {
                assert forall|i: int| 0 <= i < specs.len() implies !((
                #[trigger] specs[i]).1.name == name && specs[i].1.namespace is None) by {
                    if i > 0 {
                        assert(rest[i - 1] == specs[i]);
                    }
                }
            },
        }
    }
}

/// The name that a request's tool goes by leads back to a tool of that name and namespace:
/// whatever chat name a registered tool is called under, the answer is given under the tool's own
/// name.
pub proof fn chat_name_leads_back(
    context: ToolContextView,
    name: Seq<char>,
    namespace: Option<Seq<char>>,
)
    requires
        well_formed(context),
        exists|i: int|
            0 <= i < context.specs.len() && (#[trigger] context.specs[i]).1.name == name
                && context.specs[i].1.namespace == namespace,
    ensures
        spec_of(context.specs, chat_name_of(context, name, namespace)) matches Some(tool_spec)
            && tool_spec.name == name && tool_spec.namespace == namespace,
{
    match namespace {
        Some(space) => {
            let wanted = (
                context.namespaces[(space, name)],
                ToolSpecView {
                    kind: ResponsesToolKind::Namespace,
                    name,
                    namespace: Some(space),
                },
            );
            let i = choose|i: int| 0 <= i < context.specs.len() && context.specs[i] == wanted;
            spec_of_registered(context, i);
        },
        None => {
            first_plain_registered(context.specs, name);
            let chat_name = first_plain(context.specs, name)->0;
            let i = choose|i: int|
                0 <= i < context.specs.len() && (#[trigger] context.specs[i]).0 == chat_name
                    && context.specs[i].1.name == name && context.specs[i].1.namespace is None;
            spec_of_registered(context, i);
        },
    }
}

} // verus!
