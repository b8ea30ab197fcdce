//! What holds of the values that all the rest is told in: JSON, text and time.

use axum::http::HeaderMap;
use vstd::prelude::*;

use crate::admin;
use crate::answer::{Refusal, RefusalView};
use crate::clock;
use crate::clock::Instant;
use crate::headers;
use crate::json;
use crate::json::{Json, JsonMap, JsonView};
use crate::models;
use crate::payload;
use crate::probe;
use crate::proxy;
use crate::proxy::{Attempt, ProxyRun, SupplierCall};
use crate::requests;
use crate::requests::BridgeContext;
use crate::responses;
use crate::runtime::KeyRuntimeState;
use crate::sse::SseTransform;
use crate::store;
use crate::store::{LegacyConfig, LegacyPlan, SchemaChange, SchemaStep};
use crate::text;
use crate::tools;
use crate::tools::{ResponsesToolContext, ResponsesToolSpec};
use crate::upstream;
use crate::upstream::UpstreamUrl;
use crate::usage::UsageRuntimeState;

verus! {

/// A member of an object is the value that the object has under its name. Nothing else has members.
pub proof fn members_are_found_by_name(
    members: Map<Seq<char>, JsonView>,
    name: Seq<char>,
    other: JsonView,
    default: JsonView,
)
    requires
        other !is Object,
    ensures
        JsonView::Object(members).get(name) == if members.contains_key(name) {
            Some(members[name])
        } else {
            None
        },
        other.get(name) is None && other.get_str(name) is None,
        JsonView::Object(members).get_str(name) == match members.get(name) {
            Some(JsonView::String(text)) => Some(text),
            _ => None,
        },
        json::member_str(members, name) == JsonView::Object(members).get_str(name),
        json::member_or(members, name, default) == if members.contains_key(name) {
            members[name]
        } else {
            default
        },
{
}

/// Text is text and truth is truth; nothing else is either.
pub proof fn values_are_what_they_are(text: Seq<char>, truth: bool, other: JsonView)
    ensures
        JsonView::String(text).as_str() == Some(text),
        JsonView::Bool(truth).as_bool() == Some(truth),
        other !is String ==> other.as_str() is None,
        other !is Bool ==> other.as_bool() is None,
{
}

/// A value stands for what it holds: text for its characters, a list for its items in their order, an
/// object for its members, of which the last of a name counts.
pub proof fn values_stand_for_what_they_hold(
    text: String,
    truth: bool,
    items: Vec<Json>,
    map: JsonMap,
    word: &str,
    i: int,
)
    requires
        0 <= i < items@.len(),
    ensures
        text::opt_str_view(Some(word)) == Some(word@) && text::opt_str_view(None) is None,
        Json::Null@ == JsonView::Null,
        Json::Bool(truth)@ == JsonView::Bool(truth),
        Json::String(text)@ == JsonView::String(text@),
        Json::Array(items)@ matches JsonView::Array(seen) && seen.len() == items@.len() && seen[i]
            == items@[i]@,
        Json::Object(map)@ == JsonView::Object(map@),
        json::opt_view(Some(&items@[i])) == Some(items@[i]@),
        json::opt_view(None) is None,
        json::items_view(items@).len() == items@.len() && json::items_view(items@)[i] == items@[i]@,
        text::opt_string_view(Some(text)) == Some(text@) && text::opt_string_view(None) is None,
{
}

/// Of two instants the one with fewer seconds is before the other, and of two in the same second the
/// one with fewer nanoseconds. None is before itself, and of two that differ one is before the other.
pub proof fn instants_are_in_order(a: Instant, b: Instant, c: Instant)
    ensures
        a.secs < b.secs ==> a.before(b) && !b.before(a),
        a.secs == b.secs ==> (a.before(b) <==> a.nanos < b.nanos),
        !a.before(a),
        a != b ==> a.before(b) || b.before(a),
        a.before(b) && b.before(c) ==> a.before(c),
{
}

/// An instant that comes so many seconds later has so many more seconds.
pub proof fn instants_come_later(at: Instant, seconds: int)
    requires
        0 < seconds,
        at.nanos < 1_000_000_000,
        i64::MIN <= at.secs + seconds <= i64::MAX,
    ensures
        at.later_by(seconds).secs == at.secs + seconds,
        at.later_by(seconds).nanos == at.nanos,
        at.before(at.later_by(seconds)),
{
}

/// In a second that is longer than others the nanoseconds behind its end are those of the next.
pub proof fn long_seconds_end(at: Instant, seconds: int)
    requires
        0 < seconds,
        1_000_000_000 <= at.nanos < 2_000_000_000,
        i64::MIN <= at.secs + seconds <= i64::MAX,
    ensures
        at.later_by(seconds).secs == at.secs + seconds,
        at.later_by(seconds).nanos == at.nanos - 1_000_000_000,
{
}

/// A day follows the one before it. It starts where its clock says so, or else at midnight in
/// universal time, so many days of 86400 seconds from the first day of 1970.
pub proof fn days_follow_each_other(day: i32, start: Instant)
    requires
        clock::MIN_DAY <= day < clock::MAX_DAY,
    ensures
        clock::following_day(day) == day + 1,
        clock::following_day(clock::MAX_DAY) == clock::MAX_DAY,
        clock::start_of_day(day, Some(start)) == start,
        clock::start_of_day(day, None).nanos == 0,
        clock::start_of_day(day, None).secs == (day - 719_163) * 86_400,
        clock::start_of_day((day + 1) as i32, None).secs == clock::start_of_day(day, None).secs
            + 86_400,
{
}

/// What stands behind a prefix, and what stands before a suffix, is the rest of the text.
pub proof fn texts_begin_and_end(s: Seq<char>, rest: Seq<char>)
    ensures
        text::has_prefix(s + rest, s),
        text::has_suffix(rest + s, s),
        text::without_suffix(rest + s, s) == rest,
        text::has_prefix(rest, s) ==> rest == s + rest.skip(s.len() as int),
        text::has_suffix(rest, s) ==> rest == rest.take(rest.len() - s.len()) + s,
        !text::has_suffix(rest, s) ==> text::without_suffix(rest, s) == rest,
{
    assert((s + rest).take(s.len() as int) =~= s);
    assert((rest + s).skip(rest.len() as int) =~= s);
    assert((rest + s).take(rest.len() as int) =~= rest);
    if text::has_prefix(rest, s) {
        assert(rest =~= rest.take(s.len() as int) + rest.skip(s.len() as int));
    }
    if text::has_suffix(rest, s) {
        assert(rest =~= rest.take(rest.len() - s.len()) + rest.skip(rest.len() - s.len()));
    }
}

/// A tool, and all that is known of the tools of a request, stands for its parts, in their order.
pub proof fn tools_stand_for_their_parts(
    tool: ResponsesToolSpec,
    context: ResponsesToolContext,
    i: int,
    bridge: BridgeContext,
)
    requires
        0 <= i < context.chat_name_to_spec@.len(),
    ensures
        tool@.kind == tool.kind && tool@.name == tool.name@,
        tool@.namespace == text::opt_string_view(tool.namespace),
        context@.chat_tools == json::items_view(context.chat_tools@),
        context@.specs.len() == context.chat_name_to_spec@.len(),
        context@.specs[i] == (
            context.chat_name_to_spec@[i].0@,
            context.chat_name_to_spec@[i].1@,
        ),
        context@.seen == payload::strings_view(context.seen_chat_names@),
        context@.namespaces == tools::namespaces_view(context.namespace_name_to_chat_name@),
        responses::context_view(Some(&context)) == Some(context@),
        responses::context_view(None) is None,
        bridge.responses_tool_context matches Some(known) ==> bridge.tools() == Some(known@),
        bridge.responses_tool_context is None ==> bridge.tools() is None,
{
}

/// Of the names on record for the tools of a namespace the last one counts.
pub proof fn later_names_count(
    entries: Seq<((String, String), String)>,
    entry: ((String, String), String),
)
    ensures
        tools::namespaces_view(Seq::empty()) == Map::<(Seq<char>, Seq<char>), Seq<char>>::empty(),
        tools::namespaces_view(entries.push(entry)) == tools::namespaces_view(entries).insert(
            (entry.0.0@, entry.0.1@),
            entry.1@,
        ),
{
    assert(entries.push(entry).drop_last() =~= entries);
}

/// What is known of keys and of their use stands for what it holds, and so does a stream.
pub proof fn states_stand_for_what_they_hold(
    keys: KeyRuntimeState,
    used: UsageRuntimeState,
    stream: SseTransform,
)
    ensures
        keys@.day == keys.last_reset_date && keys@.keys == keys.keys@,
        keys@.image_keys == keys.image_keys@,
        used@.by_access_key == used.by_access_key@ && used@.by_key == used.by_key@,
        stream@.buffer == stream.buffer@ && stream@.conversion == stream.conversion,
        stream@.completed == stream.completed_sent,
{
}

/// A call, an attempt, a run and a refusal stand for their parts.
pub proof fn calls_stand_for_their_parts(
    call: SupplierCall,
    attempt: Attempt,
    run: ProxyRun,
    refusal: Refusal,
    url: UpstreamUrl,
)
    ensures
        call@.path == call.path@ && call@.conversion == call.conversion && call@.body == call.body@,
        call@.tools == call.bridge_context.tools() && call@.images == call.images,
        call@.model == text::opt_string_view(call.model),
        attempt@.url == attempt.url@,
        attempt@.headers == headers::header_contents(attempt.headers),
        run@.supplier == run.supplier && run@.key == run.key,
        run@.last_error == text::opt_string_view(run.last_error),
        run.call matches Some(call) ==> run@.call == Some(call@),
        run.call is None ==> run@.call is None,
        refusal@.status == refusal.status && refusal@.json == refusal.json,
        refusal@.message == refusal.message@,
        url@.text == url.text@ && url@.scheme == url.scheme@ && url@.path == url.path@,
        url@.host == text::opt_string_view(url.host) && url@.port == url.port,
{
}

/// What comes of an operation stands for what it holds, whether it is what was asked for or a
/// refusal.
pub proof fn results_stand_for_what_they_hold(
    bytes: Vec<u8>,
    headers: HeaderMap,
    url: UpstreamUrl,
    text: String,
    other: String,
    texts: Vec<String>,
    call: SupplierCall,
    attempt: Attempt,
    refusal: Refusal,
    i: int,
)
    requires
        0 <= i < texts@.len(),
    ensures
        requests::bytes_result_view(Ok(bytes)) == Ok::<Seq<u8>, Seq<char>>(bytes@),
        requests::bytes_result_view(Err(text)) == Err::<Seq<u8>, Seq<char>>(text@),
        headers::headers_result_view(Ok(headers)) == Ok::<headers::HeadersView, Seq<char>>(
            headers::header_contents(headers),
        ),
        headers::headers_result_view(Err(text)) == Err::<headers::HeadersView, Seq<char>>(text@),
        headers::pair_view(Some((text, other))) == Some((text@, other@)),
        headers::pair_view(None) is None,
        upstream::url_result_view(Ok(url)) == Ok::<upstream::UrlView, Seq<char>>(url@),
        upstream::url_result_view(Err(text)) == Err::<upstream::UrlView, Seq<char>>(text@),
        upstream::text_result_view(Ok(text)) == Ok::<Seq<char>, Seq<char>>(text@),
        upstream::text_result_view(Err(text)) == Err::<Seq<char>, Seq<char>>(text@),
        models::texts_result_view(Ok(texts)) == Ok::<Seq<Seq<char>>, Seq<char>>(
            payload::strings_view(texts@),
        ),
        models::texts_result_view(Err(text)) == Err::<Seq<Seq<char>>, Seq<char>>(text@),
        payload::strings_view(texts@).len() == texts@.len(),
        payload::strings_view(texts@)[i] == texts@[i]@,
        proxy::call_result_view(Ok(call)) == Ok::<proxy::CallView, RefusalView>(call@),
        proxy::call_result_view(Err(refusal)) == Err::<proxy::CallView, RefusalView>(refusal@),
        probe::attempt_result_view(Ok(attempt)) == Ok::<proxy::AttemptView, RefusalView>(attempt@),
        probe::attempt_result_view(Err(refusal)) == Err::<proxy::AttemptView, RefusalView>(
            refusal@,
        ),
        admin::done_view(Ok(())) == Ok::<(), RefusalView>(()),
        admin::done_view(Err(refusal)) == Err::<(), RefusalView>(refusal@),
{
}

/// An earlier configuration, what becomes of it, and the steps of a growing store stand for their
/// parts.
pub proof fn plans_stand_for_their_parts(
    legacy: LegacyConfig,
    plan: LegacyPlan,
    step: SchemaStep,
    steps: Vec<SchemaStep>,
    i: int,
)
    requires
        0 <= i < steps@.len(),
    ensures
        store::opt_legacy_view(Some(legacy)) == Some(legacy@),
        store::opt_legacy_view(None) is None,
        legacy@.base_url == legacy.base_url@ && legacy@.protocol_mode == legacy.protocol_mode@,
        legacy@.enabled == legacy.enabled,
        legacy@.api_key == text::opt_string_view(legacy.api_key),
        store::opt_plan_view(Some(plan)) == Some(plan@),
        store::opt_plan_view(None) is None,
        plan@.pool_name == plan.pool_name@ && plan@.is_active == plan.is_active,
        plan@.base_url == plan.base_url@ && plan@.protocol_mode == plan.protocol_mode,
        plan@.api_keys == payload::strings_view(plan.api_keys@),
        plan@.manually_disabled == plan.manually_disabled,
        step@.failure == step.failure@ && step@.change == step.change@,
        step.change matches SchemaChange::AddColumn { table, column, definition } ==> step@.change
            == (store::ChangeView::AddColumn {
            table,
            column: column@,
            definition: definition@,
        }),
        step.change matches SchemaChange::OrderPools ==> step@.change
            == store::ChangeView::OrderPools,
        store::steps_view(steps@).len() == steps@.len(),
        store::steps_view(steps@)[i] == steps@[i]@,
{
}

} // verus!
