//! What holds of the tools of a request, read off the tools and the names that they go by.

use vstd::prelude::*;

use crate::json::JsonView;
use crate::text;
use crate::tools;
use crate::tools::{ResponsesToolKind, ToolContextView, ToolSpecView};

verus! {

proof fn tool_names()
    ensures
        text::word_mark("type"@) == (4nat, 't', 'p', 'e'),
        text::word_mark("name"@) == (4nat, 'n', 'm', 'e'),
        text::word_mark("function"@) == (8nat, 'f', 't', 'n'),
        text::word_mark("custom"@) == (6nat, 'c', 't', 'm'),
        text::word_mark("tool_search"@) == (11nat, 't', 's', 'h'),
        text::word_mark("namespace"@) == (9nat, 'n', 's', 'e'),
        text::word_mark("tools"@) == (5nat, 't', 'o', 's'),
        text::word_mark("description"@) == (11nat, 'd', 'i', 'n'),
        text::word_mark("parameters"@) == (10nat, 'p', 'e', 's'),
        text::word_mark("Search across available tools"@) == (29nat, 'S', 'a', 's'),
        text::word_mark("object"@) == (6nat, 'o', 'e', 't'),
        text::word_mark("properties"@) == (10nat, 'p', 'r', 's'),
        text::word_mark("required"@) == (8nat, 'r', 'i', 'd'),
        text::word_mark("additionalProperties"@) == (20nat, 'a', 'P', 's'),
        text::word_mark("input"@) == (5nat, 'i', 'p', 't'),
        text::word_mark("string"@) == (6nat, 's', 'i', 'g'),
        text::word_mark("query"@) == (5nat, 'q', 'e', 'y'),
        text::word_mark("limit"@) == (5nat, 'l', 'm', 't'),
        text::word_mark("integer"@) == (7nat, 'i', 'e', 'r'),
        text::word_mark("tool"@) == (4nat, 't', 'o', 'l'),
{
    reveal_strlit("type");
    reveal_strlit("name");
    reveal_strlit("function");
    reveal_strlit("custom");
    reveal_strlit("tool_search");
    reveal_strlit("namespace");
    reveal_strlit("tools");
    reveal_strlit("description");
    reveal_strlit("parameters");
    reveal_strlit("Search across available tools");
    reveal_strlit("object");
    reveal_strlit("properties");
    reveal_strlit("required");
    reveal_strlit("additionalProperties");
    reveal_strlit("input");
    reveal_strlit("string");
    reveal_strlit("query");
    reveal_strlit("limit");
    reveal_strlit("integer");
    reveal_strlit("tool");
    assert("type"@.len() == 4);
    assert("name"@.len() == 4);
    assert("function"@.len() == 8);
    assert("custom"@.len() == 6);
    assert("tool_search"@.len() == 11);
    assert("namespace"@.len() == 9);
    assert("tools"@.len() == 5);
    assert("description"@.len() == 11);
    assert("parameters"@.len() == 10);
    assert("Search across available tools"@.len() == 29);
    assert("object"@.len() == 6);
    assert("properties"@.len() == 10);
    assert("required"@.len() == 8);
    assert("additionalProperties"@.len() == 20);
    assert("input"@.len() == 5);
    assert("string"@.len() == 6);
    assert("query"@.len() == 5);
    assert("limit"@.len() == 5);
    assert("integer"@.len() == 7);
    assert("tool"@.len() == 4);
}

/// The context of a list of tools.
pub open spec fn context_of(list: Seq<JsonView>) -> ToolContextView {
    tools::tool_context(Some(JsonView::Array(list)))
}

/// The member of that name is that string.
pub open spec fn says(value: JsonView, name: Seq<char>, text: Seq<char>) -> bool {
    value.get(name) == Some(JsonView::String(text))
}

/// The member of that name is no string.
pub open spec fn says_nothing(value: JsonView, name: Seq<char>) -> bool {
    !(value.get(name) matches Some(JsonView::String(_)))
}

proof fn earlier_tools(list: Seq<JsonView>, tool: JsonView, n: nat)
    requires
        n <= list.len(),
    ensures
        tools::tools_added(list.push(tool), n) == tools::tools_added(list, n),
    decreases n,
{
    if n > 0 {
        earlier_tools(list, tool, (n - 1) as nat);
        assert(list.push(tool)[n - 1] == list[n - 1]);
    }
}

proof fn one_more_tool(list: Seq<JsonView>, tool: JsonView)
    ensures
        context_of(list.push(tool)) == tools::tool_added(context_of(list), tool),
{
    earlier_tools(list, tool, list.len());
}

proof fn least_free(names: Seq<Seq<char>>, base: Seq<char>, k: nat)
    requires
        k >= 2,
        k <= names.len() + 2,
    ensures
        tools::free_number(names, base, k) >= k,
        forall|j: nat|
            k <= j < tools::free_number(names, base, k) ==> names.contains(
                #[trigger] tools::numbered(base, j),
            ),
    decreases names.len() + 2 - k,
{
    if k < names.len() + 2 && names.contains(tools::numbered(base, k)) {
        least_free(names, base, k + 1);
    }
}

/// A name that is free is given as it was asked for. One that is taken is given with a number: the
/// least from 2 on that makes it free.
pub proof fn names_are_numbered_from_two(names: Seq<Seq<char>>, base: Seq<char>)
    ensures
        ({
            let given = tools::unique_name(names, base);
            &&& !names.contains(given)
            &&& !names.contains(base) ==> given == base
            &&& names.contains(base) ==> exists|k: nat|
                k >= 2 && given == #[trigger] tools::numbered(base, k) && given == base + "_"@
                    + text::decimal_view(k) && forall|j: nat|
                    2 <= j < k ==> names.contains(base + "_"@ + #[trigger] text::decimal_view(j))
        }),
{
    tools::unique_name_is_fresh(names, base);
    least_free(names, base, 2);
    if names.contains(base) {
        let k = tools::free_number(names, base, 2);
        assert forall|j: nat| 2 <= j < k implies names.contains(
            base + "_"@ + #[trigger] text::decimal_view(j),
        ) by {
            assert(names.contains(tools::numbered(base, j)));
        }
        assert(tools::numbered(base, k) == base + "_"@ + text::decimal_view(k));
    }
}

/// A request without a list of tools offers none.
pub proof fn no_tools_are_offered(given: Option<JsonView>)
    requires
        match given {
            Some(JsonView::Array(list)) => list.len() == 0,
            _ => true,
        },
    ensures
        ({
            let context = tools::tool_context(given);
            &&& context.chat_tools.len() == 0
            &&& context.specs.len() == 0
            &&& context.namespaces == Map::<(Seq<char>, Seq<char>), Seq<char>>::empty()
            &&& context.seen.len() == 0
        }),
{
}

/// One tool more is registered: behind those before it, under a name that was free, as what it is.
pub open spec fn registers(
    before: ToolContextView,
    after: ToolContextView,
    chat_name: Seq<char>,
    base: Seq<char>,
    kind: ResponsesToolKind,
    name: Seq<char>,
    namespace: Option<Seq<char>>,
) -> bool {
    &&& after.specs == before.specs.push((chat_name, ToolSpecView { kind, name, namespace }))
    &&& after.seen == before.seen.push(chat_name)
    &&& !before.seen.contains(chat_name)
    &&& !before.seen.contains(base) ==> chat_name == base
    &&& chat_name == tools::unique_name(before.seen, base)
    &&& after.chat_tools.len() == before.chat_tools.len() + 1
    &&& after.chat_tools.drop_last() == before.chat_tools
    &&& after.namespaces == match namespace {
        Some(namespace) => before.namespaces.insert((namespace, name), chat_name),
        None => before.namespaces,
    }
}

/// A function is offered as it is, but for the name that it goes by.
pub proof fn functions_are_offered(list: Seq<JsonView>, tool: JsonView, name: Seq<char>)
    requires
        says(tool, "type"@, "function"@),
        says(tool, "name"@, name),
    ensures
        ({
            let after = context_of(list.push(tool));
            let chat_name = after.specs.last().0;
            let offered = after.chat_tools.last();
            &&& registers(
                context_of(list),
                after,
                chat_name,
                name,
                ResponsesToolKind::Function,
                name,
                None,
            )
            &&& offered is Object
            &&& says(offered, "name"@, chat_name)
            &&& says(offered, "type"@, "function"@)
            &&& forall|other: Seq<char>|
                other != "name"@ && other != "type"@ ==> #[trigger] offered->Object_0.get(other)
                    == tool->Object_0.get(other)
        }),
{
    tool_names();
    one_more_tool(list, tool);
    let before = context_of(list);
    tools::unique_name_is_fresh(before.seen, name);
    assert(context_of(list.push(tool)).chat_tools.drop_last() =~= before.chat_tools);
}

/// A function of a Chat Completions request: its name, its description and its parameters.
pub open spec fn is_function(
    tool: JsonView,
    name: Seq<char>,
    description: JsonView,
    parameters: JsonView,
) -> bool {
    &&& tool is Object
    &&& tool->Object_0.dom() == set!["type"@, "function"@]
    &&& says(tool, "type"@, "function"@)
    &&& tool.get("function"@) matches Some(JsonView::Object(function)) && {
        &&& function.dom() == set!["name"@, "description"@, "parameters"@]
        &&& function["name"@] == JsonView::String(name)
        &&& function["description"@] == description
        &&& function["parameters"@] == parameters
    }
}

proof fn function_is_read(name: Seq<char>, description: JsonView, parameters: JsonView)
    ensures
        is_function(
            tools::chat_function_view(name, description, parameters),
            name,
            description,
            parameters,
        ),
{
    tool_names();
    let tool = tools::chat_function_view(name, description, parameters);
    assert(tool->Object_0.dom() =~= set!["type"@, "function"@]);
    assert(tool.get("function"@)->0->Object_0.dom() =~= set![
        "name"@,
        "description"@,
        "parameters"@,
    ]);
}

/// `{"type": kind}`.
pub open spec fn is_of_type(schema: JsonView, kind: Seq<char>) -> bool {
    schema is Object && schema->Object_0.dom() == set!["type"@] && says(schema, "type"@, kind)
}

/// A schema of an object that takes the properties it names, asks for one of them and takes no
/// others.
pub open spec fn asks_for(schema: JsonView, required: Seq<char>) -> bool {
    &&& schema is Object
    &&& schema->Object_0.dom() == set![
        "type"@,
        "properties"@,
        "required"@,
        "additionalProperties"@,
    ]
    &&& says(schema, "type"@, "object"@)
    &&& schema.get("required"@) == Some(JsonView::Array(seq![JsonView::String(required)]))
    &&& schema.get("additionalProperties"@) == Some(JsonView::Bool(false))
}

/// A custom tool is offered as a function of one string, and a tool search as one of a query and a
/// limit. They keep their descriptions.
pub proof fn other_tools_are_offered_as_functions(
    list: Seq<JsonView>,
    tool: JsonView,
    name: Seq<char>,
)
    requires
        says(tool, "type"@, "custom"@) && says(tool, "name"@, name) || says(
            tool,
            "type"@,
            "tool_search"@,
        ) && name == "tool_search"@,
    ensures
        ({
            let custom = says(tool, "type"@, "custom"@);
            let after = context_of(list.push(tool));
            let chat_name = after.specs.last().0;
            let offered = after.chat_tools.last();
            let parameters = offered.get("function"@)->0.get("parameters"@)->0;
            let properties = parameters.get("properties"@)->0;
            let description = match tool.get("description"@) {
                Some(description) => description,
                None => if custom {
                    JsonView::String(Seq::empty())
                } else {
                    JsonView::String("Search across available tools"@)
                },
            };
            &&& registers(
                context_of(list),
                after,
                chat_name,
                name,
                if custom {
                    ResponsesToolKind::Custom
                } else {
                    ResponsesToolKind::ToolSearch
                },
                name,
                None,
            )
            &&& is_function(offered, chat_name, description, parameters)
            &&& properties is Object
            &&& if custom {
                &&& asks_for(parameters, "input"@)
                &&& properties->Object_0.dom() == set!["input"@]
                &&& is_of_type(properties->Object_0["input"@], "string"@)
            } else {
                &&& asks_for(parameters, "query"@)
                &&& properties->Object_0.dom() == set!["query"@, "limit"@]
                &&& is_of_type(properties->Object_0["query"@], "string"@)
                &&& is_of_type(properties->Object_0["limit"@], "integer"@)
            }
        }),
{
    tool_names();
    one_more_tool(list, tool);
    let before = context_of(list);
    tools::unique_name_is_fresh(before.seen, name);
    let custom = says(tool, "type"@, "custom"@);
    let after = context_of(list.push(tool));
    let chat_name = after.specs.last().0;
    let schema = if custom {
        tools::string_input_schema()
    } else {
        tools::tool_search_schema()
    };
    let description = match tool.get("description"@) {
        Some(description) => description,
        None => if custom {
            JsonView::String(Seq::empty())
        } else {
            JsonView::String("Search across available tools"@)
        },
    };
    function_is_read(chat_name, description, schema);
    assert(after.chat_tools.drop_last() =~= before.chat_tools);
    assert(schema->Object_0.dom() =~= set![
        "type"@,
        "properties"@,
        "required"@,
        "additionalProperties"@,
    ]);
    let properties = schema.get("properties"@)->0->Object_0;
    if custom {
        assert(properties.dom() =~= set!["input"@]);
        assert(properties["input"@]->Object_0.dom() =~= set!["type"@]);
    } else {
        assert(properties.dom() =~= set!["query"@, "limit"@]);
        assert(properties["query"@]->Object_0.dom() =~= set!["type"@]);
        assert(properties["limit"@]->Object_0.dom() =~= set!["type"@]);
    }
}

/// A namespace with those functions.
pub open spec fn namespace_of(
    members: Map<Seq<char>, JsonView>,
    functions: Seq<JsonView>,
) -> JsonView {
    JsonView::Object(members.insert("tools"@, JsonView::Array(functions)))
}

proof fn earlier_functions(
    context: ToolContextView,
    namespace: Seq<char>,
    functions: Seq<JsonView>,
    function: JsonView,
    n: nat,
)
    requires
        n <= functions.len(),
    ensures
        tools::namespace_added(context, namespace, functions.push(function), n)
            == tools::namespace_added(context, namespace, functions, n),
    decreases n,
{
    if n > 0 {
        earlier_functions(context, namespace, functions, function, (n - 1) as nat);
        assert(functions.push(function)[n - 1] == functions[n - 1]);
    }
}

/// A namespace offers its functions one by one. Each goes by the name of the namespace, a dot and its
/// own name, and keeps its description and its parameters; one without a name is left out. An empty
/// namespace offers nothing.
pub proof fn namespaces_offer_their_functions(
    list: Seq<JsonView>,
    members: Map<Seq<char>, JsonView>,
    namespace: Seq<char>,
    functions: Seq<JsonView>,
    function: JsonView,
)
    requires
        says(JsonView::Object(members), "type"@, "namespace"@),
        says(JsonView::Object(members), "name"@, namespace),
    ensures
        context_of(list.push(namespace_of(members, Seq::empty()))) == context_of(list),
        ({
            let before = context_of(list.push(namespace_of(members, functions)));
            let after = context_of(list.push(namespace_of(members, functions.push(function))));
            match function.get("name"@) {
                Some(JsonView::String(name)) => {
                    let chat_name = after.specs.last().0;
                    let offered = after.chat_tools.last();
                    let description = match function.get("description"@) {
                        Some(description) => description,
                        None => JsonView::String(Seq::empty()),
                    };
                    let parameters = offered.get("function"@)->0.get("parameters"@)->0;
                    &&& registers(
                        before,
                        after,
                        chat_name,
                        namespace + "."@ + name,
                        ResponsesToolKind::Namespace,
                        name,
                        Some(namespace),
                    )
                    &&& is_function(offered, chat_name, description, parameters)
                    &&& match function.get("parameters"@) {
                        Some(given) => parameters == given,
                        None => {
                            &&& parameters is Object
                            &&& parameters->Object_0.dom() == set![
                                "type"@,
                                "properties"@,
                                "additionalProperties"@,
                            ]
                            &&& says(parameters, "type"@, "object"@)
                            &&& parameters.get("properties"@) == Some(
                                JsonView::Object(Map::empty()),
                            )
                            &&& parameters.get("additionalProperties"@) == Some(
                                JsonView::Bool(true),
                            )
                        },
                    }
                },
                _ => after == before,
            }
        }),
{
    tool_names();
    let base = context_of(list);
    one_more_tool(list, namespace_of(members, Seq::empty()));
    one_more_tool(list, namespace_of(members, functions));
    one_more_tool(list, namespace_of(members, functions.push(function)));
    earlier_functions(base, namespace, functions, function, functions.len());
    assert(namespace_of(members, functions).get("tools"@) == Some(JsonView::Array(functions)));
    let before = context_of(list.push(namespace_of(members, functions)));
    let after = context_of(list.push(namespace_of(members, functions.push(function))));
    assert(before == tools::namespace_added(base, namespace, functions, functions.len()));
    assert(functions.push(function)[functions.len() as int] == function);
    assert(after == tools::namespace_function_added(before, namespace, function));
    if let Some(JsonView::String(name)) = function.get("name"@) {
        let chat_name = tools::unique_name(before.seen, tools::flattened_view(namespace, name));
        tools::unique_name_is_fresh(before.seen, tools::flattened_view(namespace, name));
        let description = match function.get("description"@) {
            Some(description) => description,
            None => JsonView::String(Seq::empty()),
        };
        let parameters = match function.get("parameters"@) {
            Some(parameters) => parameters,
            None => tools::open_schema_view(),
        };
        function_is_read(chat_name, description, parameters);
        assert(after.chat_tools.drop_last() =~= before.chat_tools);
        assert(tools::open_schema_view()->Object_0.dom() =~= set![
            "type"@,
            "properties"@,
            "additionalProperties"@,
        ]);
    }
}

/// What is none of the known tools is left out, and so is one that has no name but needs one, or a
/// namespace without a list of functions.
pub proof fn unknown_tools_are_left_out(list: Seq<JsonView>, tool: JsonView)
    requires
        ({
            ||| says_nothing(tool, "type"@)
            ||| tool.get("type"@) matches Some(JsonView::String(kind)) && kind != "function"@ && kind
                != "custom"@ && kind != "tool_search"@ && kind != "namespace"@
            ||| says_nothing(tool, "name"@) && !says(tool, "type"@, "tool_search"@)
            ||| says(tool, "type"@, "namespace"@) && !(tool.get("tools"@) matches Some(
                JsonView::Array(_),
            ))
        }),
    ensures
        context_of(list.push(tool)) == context_of(list),
{
    tool_names();
    one_more_tool(list, tool);
}

/// The tool that a chat name stands for is the one that was registered under it, the first where
/// there are more.
pub proof fn chat_names_stand_for_tools(
    specs: Seq<(Seq<char>, ToolSpecView)>,
    chat_name: Seq<char>,
)
    ensures
        match tools::spec_of(specs, chat_name) {
            Some(tool_spec) => exists|i: int|
                0 <= i < specs.len() && #[trigger] specs[i] == (chat_name, tool_spec) && forall|
                    j: int,
                |
                    0 <= j < i ==> (#[trigger] specs[j]).0 != chat_name,
            None => forall|i: int| 0 <= i < specs.len() ==> (#[trigger] specs[i]).0 != chat_name,
        },
    decreases specs.len(),
{
    if specs.len() > 0 {
        if specs[0].0 == chat_name {
            assert(specs[0] == (chat_name, specs[0].1));
        } else {
            let rest = specs.skip(1);
            chat_names_stand_for_tools(rest, chat_name);
            match tools::spec_of(rest, chat_name) {
                Some(tool_spec) => {
                    let i = choose|i: int|
                        0 <= i < rest.len() && #[trigger] rest[i] == (chat_name, tool_spec)
                            && forall|j: int|
                            0 <= j < i ==> (#[trigger] rest[j]).0 != chat_name;
                    assert(specs[i + 1] == (chat_name, tool_spec));
                    assert forall|j: int| 0 <= j < i + 1 implies (#[trigger] specs[j]).0
                        != chat_name by {
                        if j > 0 {
                            assert(rest[j - 1] == specs[j]);
                        }
                    }
                },
                None => {
                    assert forall|i: int| 0 <= i < specs.len() implies (#[trigger] specs[i]).0
                        != chat_name by {
                        if i > 0 {
                            assert(rest[i - 1] == specs[i]);
                        }
                    }
                },
            }
        }
    }
}

proof fn first_outside(specs: Seq<(Seq<char>, ToolSpecView)>, name: Seq<char>)
    ensures
        match tools::first_plain(specs, name) {
            Some(chat_name) => exists|i: int|
                0 <= i < specs.len() && (#[trigger] specs[i]).0 == chat_name && specs[i].1.name
                    == name && specs[i].1.namespace is None && forall|j: int|
                    0 <= j < i ==> !((#[trigger] specs[j]).1.name == name
                        && specs[j].1.namespace is None),
            None => forall|i: int|
                0 <= i < specs.len() ==> !((#[trigger] specs[i]).1.name == name
                    && specs[i].1.namespace is None),
        },
    decreases specs.len(),
{
    if specs.len() > 0 && !(specs[0].1.name == name && specs[0].1.namespace is None) {
        let rest = specs.skip(1);
        first_outside(rest, name);
        match tools::first_plain(rest, name) {
            Some(chat_name) => {
                let i = choose|i: int|
                    0 <= i < rest.len() && (#[trigger] rest[i]).0 == chat_name && rest[i].1.name
                        == name && rest[i].1.namespace is None && forall|j: int|
                        0 <= j < i ==> !((#[trigger] rest[j]).1.name == name
                            && rest[j].1.namespace is None);
                assert(specs[i + 1] == rest[i]);
                assert forall|j: int| 0 <= j < i + 1 implies !((#[trigger] specs[j]).1.name == name
                    && specs[j].1.namespace is None) by {
                    if j > 0 {
                        assert(rest[j - 1] == specs[j]);
                    }
                }
            },
            None => {
                assert forall|i: int| 0 <= i < specs.len() implies !((#[trigger] specs[i]).1.name
                    == name && specs[i].1.namespace is None) by {
                    if i > 0 {
                        assert(rest[i - 1] == specs[i]);
                    }
                }
            },
        }
    }
}

/// A tool goes by the name that it was registered under. Outside a namespace that is the name of the
/// first tool called so. A tool that was not registered goes by its own name, with its namespace and
/// a dot before it where it has one.
pub proof fn tools_go_by_their_registered_name(context: ToolContextView, name: Seq<char>)
    ensures
        ({
            let chat_name = tools::chat_name_of(context, name, None);
            ||| exists|i: int|
                0 <= i < context.specs.len() && (#[trigger] context.specs[i]).0 == chat_name
                    && context.specs[i].1.name == name && context.specs[i].1.namespace is None
                    && forall|j: int|
                    0 <= j < i ==> !((#[trigger] context.specs[j]).1.name == name
                        && context.specs[j].1.namespace is None)
            ||| chat_name == name && forall|i: int|
                0 <= i < context.specs.len() ==> !((#[trigger] context.specs[i]).1.name == name
                    && context.specs[i].1.namespace is None)
        }),
        forall|namespace: Seq<char>| #[trigger]
            tools::chat_name_of(context, name, Some(namespace)) == if context.namespaces.contains_key(
                (namespace, name),
            ) {
                context.namespaces[(namespace, name)]
            } else {
                namespace + "."@ + name
            },
{
    first_outside(context.specs, name);
}

/// The choice of one function.
pub open spec fn chooses(choice: JsonView, chat_name: Seq<char>) -> bool {
    &&& choice is Object
    &&& choice->Object_0.dom() == set!["type"@, "function"@]
    &&& says(choice, "type"@, "function"@)
    &&& choice.get("function"@) matches Some(JsonView::Object(function)) && function.dom()
        == set!["name"@] && function["name"@] == JsonView::String(chat_name)
}

/// The name in a choice: its own, or that of its function.
pub open spec fn names(choice: JsonView, name: Seq<char>) -> bool {
    if says_nothing(choice, "name"@) {
        match choice.get("function"@) {
            Some(function) => says(function, "name"@, name),
            None => false,
        }
    } else {
        says(choice, "name"@, name)
    }
}

/// A choice that names no tool, in either place.
pub open spec fn names_none(choice: JsonView) -> bool {
    says_nothing(choice, "name"@) && (choice.get("function"@) matches Some(function)
        ==> says_nothing(function, "name"@))
}

/// A chosen tool is chosen as the function that stands for it: a function or a tool search by the
/// name that it goes by, a custom tool by its own, a tool of a namespace by the name that it goes by
/// there. Any other choice stays as it is.
pub proof fn choices_name_functions(choice: JsonView, context: ToolContextView, name: Seq<char>)
    ensures
        ({
            let chat = tools::chat_tool_choice(choice, context);
            let namespace = match choice.get("namespace"@) {
                Some(JsonView::String(namespace)) => Some(namespace),
                _ => None,
            };
            &&& says(choice, "type"@, "function"@) && names(choice, name) ==> chooses(
                chat,
                tools::chat_name_of(context, name, namespace),
            )
            &&& says(choice, "type"@, "custom"@) && names(choice, name) ==> chooses(chat, name)
            &&& says(choice, "type"@, "tool_search"@) && (names(choice, name) || names_none(choice)
                && name == "tool_search"@) ==> chooses(
                chat,
                tools::chat_name_of(context, name, None),
            )
            &&& says(choice, "type"@, "namespace"@) && says(choice, "tool"@, name) ==> chooses(
                chat,
                tools::chat_name_of(
                    context,
                    name,
                    Some(
                        match choice.get("name"@) {
                            Some(JsonView::String(own)) => own,
                            _ => Seq::empty(),
                        },
                    ),
                ),
            )
            &&& (says(choice, "type"@, "function"@) || says(choice, "type"@, "custom"@))
                && names_none(choice) ==> chat == choice
            &&& says(choice, "type"@, "namespace"@) && says_nothing(choice, "tool"@) ==> chat
                == choice
            &&& !says(choice, "type"@, "function"@) && !says(choice, "type"@, "custom"@) && !says(
                choice,
                "type"@,
                "tool_search"@,
            ) && !says(choice, "type"@, "namespace"@) ==> chat == choice
        }),
{
    tool_names();
    let chat = tools::chat_tool_choice(choice, context);
    if chat != choice {
        assert(chat->Object_0.dom() =~= set!["type"@, "function"@]);
        assert(chat.get("function"@)->0->Object_0.dom() =~= set!["name"@]);
    }
    assert forall|chat_name: Seq<char>| #[trigger]
        tools::function_choice_view(chat_name) == chat implies chooses(chat, chat_name) by {
        assert(chat->Object_0.dom() =~= set!["type"@, "function"@]);
        assert(chat.get("function"@)->0->Object_0.dom() =~= set!["name"@]);
    }
}

} // verus!
