//! What holds of the text of a stream and of its events, read off the text.

use vstd::prelude::*;
use vstd::utf8::*;

use crate::config::ConversionMode;
use crate::json;
use crate::json::JsonView;
use crate::laws::responses::says;
use crate::sse;
use crate::sse::{ClientEvent, SseView};
use crate::text;

verus! {

/// No line feed stands in the text.
pub open spec fn is_one_line(s: Seq<char>) -> bool {
    forall|i: int| 0 <= i < s.len() ==> s[i] != '\n'
}

/// No two line feeds stand together in the text, and none stands at its end.
pub open spec fn has_no_blank_line(s: Seq<char>) -> bool {
    &&& forall|i: int| 0 <= i < s.len() - 1 ==> #[trigger] s[i] != '\n' || s[i + 1] != '\n'
    &&& s.len() > 0 ==> s.last() != '\n'
}

proof fn line_end_is_free(s: Seq<char>, i: nat)
    requires
        i <= s.len(),
    ensures
        i <= text::line_end(s, i) <= s.len(),
        forall|k: int| i <= k < text::line_end(s, i) ==> s[k] != '\n',
        text::line_end(s, i) < s.len() ==> s[text::line_end(s, i) as int] == '\n',
    decreases s.len() - i,
{
    if i < s.len() && s[i as int] != '\n' {
        line_end_is_free(s, i + 1);
    }
}

proof fn line_end_at(s: Seq<char>, i: nat, at: nat)
    requires
        i <= at <= s.len(),
        forall|k: int| i <= k < at ==> s[k] != '\n',
        at < s.len() ==> s[at as int] == '\n',
    ensures
        text::line_end(s, i) == at,
    decreases at - i,
{
    if i < at {
        line_end_at(s, i + 1, at);
    }
}

proof fn lines_behind(a: Seq<char>, b: Seq<char>, i: nat)
    requires
        i <= b.len(),
    ensures
        sse::data_lines(a + seq!['\n'] + b, a.len() + 1 + i) == sse::data_lines(b, i),
    decreases b.len() + 1 - i,
{
    let s = a + seq!['\n'] + b;
    if i < b.len() {
        line_end_is_free(b, i);
        let end = text::line_end(b, i);
        assert forall|k: int| a.len() + 1 + i <= k < a.len() + 1 + end implies s[k] != '\n' by {
            assert(s[k] == b[k - a.len() - 1]);
        }
        if end < b.len() {
            assert(s[(a.len() + 1 + end) as int] == b[end as int]);
        }
        line_end_at(s, a.len() + 1 + i, a.len() + 1 + end);
        assert(s.subrange((a.len() + 1 + i) as int, (a.len() + 1 + end) as int) =~= b.subrange(
            i as int,
            end as int,
        ));
        if end < b.len() {
            lines_behind(a, b, end + 1);
            assert(a.len() + 1 + end + 1 == a.len() + 1 + (end + 1));
        } else {
            assert(sse::data_lines(b, end + 1) =~= Seq::<Seq<char>>::empty());
            assert(sse::data_lines(s, a.len() + 1 + end + 1) =~= Seq::<Seq<char>>::empty());
        }
    }
}

proof fn lines_before(a: Seq<char>, b: Seq<char>, i: nat)
    requires
        i <= a.len(),
    ensures
        sse::data_lines(a + seq!['\n'] + b, i) == sse::data_lines(a, i) + sse::data_lines(b, 0),
    decreases a.len() + 1 - i,
{
    let s = a + seq!['\n'] + b;
    line_end_is_free(a, i);
    let end = text::line_end(a, i);
    assert forall|k: int| i <= k < end implies s[k] != '\n' by {
        assert(s[k] == a[k]);
    }
    assert(s[end as int] == '\n');
    line_end_at(s, i, end);
    assert(s.subrange(i as int, end as int) =~= a.subrange(i as int, end as int));
    let line = sse::line_data(a.subrange(i as int, end as int));
    if end < a.len() {
        lines_before(a, b, end + 1);
        assert((line + sse::data_lines(a, end + 1)) + sse::data_lines(b, 0) =~= line + (
        sse::data_lines(a, end + 1) + sse::data_lines(b, 0)));
    } else {
        lines_behind(a, b, 0);
        if i == a.len() {
            no_data_in_nothing();
            assert(a.subrange(i as int, end as int) =~= Seq::<char>::empty());
            assert(line + sse::data_lines(b, 0) =~= sse::data_lines(b, 0));
            assert(sse::data_lines(a, i) + sse::data_lines(b, 0) =~= sse::data_lines(b, 0));
        } else {
            assert(line + sse::data_lines(a, end + 1) =~= line);
        }
    }
}

proof fn no_data_in_nothing()
    ensures
        sse::line_data(Seq::empty()).len() == 0,
{
    reveal_strlit("data:");
    assert(text::trim_end_view(Seq::<char>::empty()) =~= Seq::<char>::empty());
}

proof fn joined_more(lines: Seq<Seq<char>>, more: Seq<Seq<char>>)
    requires
        lines.len() > 0,
        more.len() > 0,
    ensures
        sse::joined(lines + more) == sse::joined(lines) + "\n"@ + sse::joined(more),
    decreases more.len(),
{
    let all = lines + more;
    assert(all.drop_last() =~= lines + more.drop_last());
    assert(all.last() == more.last());
    if more.len() == 1 {
        assert(all.drop_last() =~= lines);
    } else {
        joined_more(lines, more.drop_last());
        assert((sse::joined(lines) + "\n"@ + sse::joined(more.drop_last())) + "\n"@ + more.last()
            =~= sse::joined(lines) + "\n"@ + (sse::joined(more.drop_last()) + "\n"@
            + more.last()));
    }
}

/// The data of one line is what stands behind its mark, without the white space around it. A line
/// without the mark has none.
pub proof fn data_of_a_line(line: Seq<char>, data: Seq<char>)
    requires
        is_one_line(line),
    ensures
        text::trim_end_view(line) == "data:"@ + data ==> sse::payload(line) == Some(
            text::trim_start_view(data),
        ),
        !text::has_prefix(text::trim_end_view(line), "data:"@) ==> sse::payload(line) is None,
{
    reveal_strlit("data:");
    if line.len() == 0 {
        no_data_in_nothing();
        assert(text::trim_end_view(line) =~= line);
    } else {
        line_end_at(line, 0, line.len());
        assert(line.subrange(0, line.len() as int) =~= line);
        let trimmed = text::trim_end_view(line);
        if trimmed == "data:"@ + data {
            assert(trimmed.take(5) =~= "data:"@);
            assert(trimmed.skip(5) =~= data);
        }
        let lines = sse::line_data(line);
        assert(sse::data_lines(line, line.len() + 1).len() == 0);
        assert(sse::data_lines(line, 0) =~= lines);
    }
}

/// The data of two parts of an event, one on the lines behind the other, is that of both, with a
/// line feed between.
pub proof fn data_of_more_lines(first: Seq<char>, second: Seq<char>)
    ensures
        sse::payload(first + seq!['\n'] + second) == match (
            sse::payload(first),
            sse::payload(second),
        ) {
            (Some(data), Some(more)) => Some(data + seq!['\n'] + more),
            (Some(data), None) => Some(data),
            (None, more) => more,
        },
{
    lines_before(first, second, 0);
    let a = sse::data_lines(first, 0);
    let b = sse::data_lines(second, 0);
    reveal_strlit("\n");
    assert("\n"@ =~= seq!['\n']);
    if a.len() == 0 {
        assert(a + b =~= b);
    } else if b.len() == 0 {
        assert(a + b =~= a);
    } else {
        joined_more(a, b);
    }
}

proof fn white_line_feed()
    ensures
        text::is_white('\n'),
{
}

proof fn trimmed_end(s: Seq<char>)
    ensures
        text::trim_end_view(s + seq!['\n', '\n']) == text::trim_end_view(s),
{
    white_line_feed();
    reveal_with_fuel(text::trim_end_view, 3);
    let more = s + seq!['\n', '\n'];
    let one = more.subrange(0, more.len() - 1);
    assert(one.subrange(0, one.len() - 1) =~= s);
    assert(one.last() == '\n');
}

proof fn trimmed_both(s: Seq<char>)
    ensures
        text::trim_view(s + seq!['\n', '\n']) == text::trim_view(s),
    decreases s.len(),
{
    let more = s + seq!['\n', '\n'];
    if s.len() == 0 {
        white_line_feed();
        assert(more.subrange(1, 2) =~= seq!['\n']);
        assert(seq!['\n'].subrange(1, 1) =~= Seq::<char>::empty());
        assert(text::trim_start_view(seq!['\n']) == text::trim_start_view(Seq::<char>::empty()));
        assert(s =~= Seq::<char>::empty());
    } else if text::is_white(s[0]) {
        let rest = s.subrange(1, s.len() as int);
        trimmed_both(rest);
        assert(more.subrange(1, more.len() as int) =~= rest + seq!['\n', '\n']);
        assert(more[0] == s[0]);
    } else {
        assert(more[0] == s[0]);
        trimmed_end(s);
    }
}

proof fn no_blank_line(s: Seq<char>, i: nat)
    requires
        forall|k: int| 0 <= k < s.len() - 1 ==> #[trigger] s[k] != '\n' || s[k + 1] != '\n',
    ensures
        text::blank_line(s, i) == s.len(),
    decreases s.len() - i,
{
    if i + 1 < s.len() {
        assert(s[i as int] != '\n' || s[(i + 1) as int] != '\n');
        no_blank_line(s, i + 1);
    }
}

/// An event ends where a blank line does. It is taken off the buffer, without white space around it,
/// and what stands behind the blank line stays. Where no blank line stands nothing is taken.
pub proof fn events_end_at_blank_lines(event: Seq<char>, rest: Seq<char>, buffer: Seq<char>)
    requires
        has_no_blank_line(event),
        forall|k: int|
            0 <= k < buffer.len() - 1 ==> #[trigger] buffer[k] != '\n' || buffer[k + 1] != '\n',
    ensures
        sse::popped(event + seq!['\n', '\n'] + rest) == (Some(text::trim_view(event)), rest),
        sse::popped(buffer) == (None::<Seq<char>>, buffer),
{
    no_blank_line(buffer, 0);
    let all = event + seq!['\n', '\n'] + rest;
    let at = event.len();
    assert forall|k: int| 0 <= k < at implies #[trigger] all[k] != '\n' || all[k + 1] != '\n' by {
        assert(all[k] == event[k]);
        if k + 1 < at {
            assert(all[k + 1] == event[k + 1]);
        }
    }
    assert(all[at as int] == '\n' && all[(at + 1) as int] == '\n');
    text::blank_line_at(all, 0, at);
    assert(all.take((at + 2) as int) =~= event + seq!['\n', '\n']);
    assert(all.skip((at + 2) as int) =~= rest);
    trimmed_both(event);
}

/// Summaries of what was spent are kept from the client, and so is what holds no data. All other
/// events reach it: as they are where the protocols agree, else as what they tell in its protocol.
pub proof fn events_reach_the_client(
    event: Seq<char>,
    data: Seq<char>,
    created: i64,
    completed: bool,
)
    ensures
        forall|conversion: ConversionMode|
            sse::payload(event) is None ==> #[trigger] sse::client_events(
                event,
                conversion,
                created,
                completed,
            ) == (None::<Seq<char>>, completed),
        sse::payload(event) == Some(data) ==> {
            let summary = match json::parsed(encode_utf8(data)) {
                Ok(value) => says(value, "object"@, "billing.summary"@),
                Err(_) => false,
            };
            &&& summary ==> forall|conversion: ConversionMode| #[trigger]
                sse::client_events(event, conversion, created, completed) == (
                    None::<Seq<char>>,
                    completed,
                )
            &&& !summary ==> {
                let chat = sse::responses_data_events(data, created, completed);
                let responses = sse::chat_data_events(data, completed);
                &&& sse::client_events(event, ConversionMode::Direct, created, completed) == (
                    Some(event + seq!['\n', '\n']),
                    completed,
                )
                &&& sse::client_events(event, ConversionMode::ChatToResponses, created, completed)
                    == (sse::output(chat.0), chat.1)
                &&& sse::client_events(event, ConversionMode::ResponsesToChat, created, completed)
                    == (sse::output(responses.0), responses.1)
            }
        },
{
    reveal_strlit("\n\n");
    assert("\n\n"@ =~= seq!['\n', '\n']);
}

/// The text of events is that of each, in their order. No event has no text. An event is written as
/// its name, where it has one, and its data, on a line each, with a blank line behind.
pub proof fn events_are_written_in_order(
    events: Seq<ClientEvent>,
    event: ClientEvent,
    name: Seq<char>,
    data: JsonView,
)
    ensures
        sse::output(Seq::empty()) is None,
        sse::output(events.push(event)) == Some(
            match sse::output(events) {
                Some(text) => text,
                None => Seq::empty(),
            } + sse::event_text(event),
        ),
        sse::event_text(ClientEvent::Named { name, data }) == "event: "@ + name + seq!['\n']
            + "data: "@ + json::json_text(data) + seq!['\n', '\n'],
        sse::event_text(ClientEvent::Unnamed { data }) == "data: "@ + json::json_text(data) + seq![
            '\n',
            '\n',
        ],
        sse::event_text(ClientEvent::Done) == "data: "@ + "[DONE]"@ + seq!['\n', '\n'],
{
    let all = events.push(event);
    assert(all.drop_last() =~= events);
    assert(Seq::<char>::empty() + sse::event_text(event) =~= sse::event_text(event));
    if events.len() == 0 {
        assert(sse::rendered(events) =~= Seq::<char>::empty());
    }
    reveal_strlit("\n\n");
    reveal_strlit("\ndata: ");
    reveal_strlit("data: ");
    reveal_strlit("[DONE]");
    reveal_strlit("data: [DONE]\n\n");
    assert("\n\n"@ =~= seq!['\n', '\n']);
    assert("\ndata: "@ =~= seq!['\n'] + "data: "@);
    assert("event: "@ + name + ("\ndata: "@) + json::json_text(data) + ("\n\n"@) =~= "event: "@
        + name + seq!['\n'] + "data: "@ + json::json_text(data) + seq!['\n', '\n']);
    assert("data: [DONE]\n\n"@ =~= "data: "@ + "[DONE]"@ + seq!['\n', '\n']);
}

/// Events are taken off the buffer one after the other until one tells the client something. The
/// end is told from then on.
pub proof fn events_are_taken_in_order(
    state: SseView,
    event: Seq<char>,
    rest: Seq<char>,
    created: i64,
)
    requires
        has_no_blank_line(event),
        state.buffer == event + seq!['\n', '\n'] + rest,
    ensures
        ({
            let (told, completed) = sse::client_events(
                text::trim_view(event),
                state.conversion,
                created,
                state.completed,
            );
            let after = SseView { buffer: rest, conversion: state.conversion, completed };
            sse::next_output_view(state, created) == if told is Some {
                (told, after)
            } else {
                sse::next_output_view(after, created)
            }
        }),
{
    events_end_at_blank_lines(event, rest, Seq::empty());
    text::blank_line_bound(state.buffer, 0);
}

/// Where no blank line stands in the buffer there is no next output, and what is there waits. When
/// nothing more comes it is the last event, unless it is blank.
pub proof fn what_is_left_is_the_last_event(state: SseView, created: i64)
    requires
        forall|k: int|
            0 <= k < state.buffer.len() - 1 ==> #[trigger] state.buffer[k] != '\n'
                || state.buffer[k + 1] != '\n',
    ensures
        sse::next_output_view(state, created) == (None::<Seq<char>>, state),
        text::trim_view(state.buffer).len() == 0 ==> sse::last_output_view(state, created) == (
            None::<Seq<char>>,
            state,
        ),
        text::trim_view(state.buffer).len() > 0 ==> ({
            let (told, completed) = sse::client_events(
                state.buffer,
                state.conversion,
                created,
                state.completed,
            );
            let (output, after) = sse::last_output_view(state, created);
            &&& output == told
            &&& after.completed == completed
            &&& after.conversion == state.conversion
            &&& after.buffer.len() == 0
        }),
{
    events_end_at_blank_lines(Seq::empty(), Seq::empty(), state.buffer);
}

proof fn lines_without_returns(s: Seq<char>, i: nat)
    requires
        i <= s.len(),
        forall|k: int| 0 <= k < s.len() ==> s[k] != '\r',
    ensures
        text::unix_lines(s, i) == s.skip(i as int),
    decreases s.len() - i,
{
    if i < s.len() {
        lines_without_returns(s, i + 1);
        assert(s.skip(i as int) =~= seq![s[i as int]] + s.skip((i + 1) as int));
    } else {
        assert(s.skip(i as int) =~= Seq::<char>::empty());
    }
}

/// A carriage return goes where a line feed stands behind it. All else stays.
pub proof fn returns_before_line_feeds_go(s: Seq<char>, t: Seq<char>, plain: Seq<char>)
    requires
        forall|k: int| 0 <= k < plain.len() ==> plain[k] != '\r',
    ensures
        text::unix_lines(s + seq!['\r', '\n'] + t, 0) == text::unix_lines(s, 0) + seq!['\n']
            + text::unix_lines(t, 0),
        text::unix_lines(plain, 0) == plain,
        !(t.len() > 0 && t[0] == '\n') ==> text::unix_lines(s + seq!['\r'] + t, 0)
            == text::unix_lines(s, 0) + seq!['\r'] + text::unix_lines(t, 0),
{
    lines_without_returns(plain, 0);
    assert(plain.skip(0) =~= plain);
    let crlf = seq!['\r', '\n'];
    text::unix_lines_in_pieces(s, crlf);
    text::unix_lines_in_pieces(s + crlf, t);
    assert(text::unix_lines(crlf, 2).len() == 0);
    assert(text::unix_lines(crlf, 0) =~= seq!['\n']);
    if !(t.len() > 0 && t[0] == '\n') {
        let cr = seq!['\r'];
        text::unix_lines_in_pieces(s, cr);
        text::unix_lines_in_pieces(s + cr, t);
        assert(text::unix_lines(cr, 1).len() == 0);
        assert(text::unix_lines(cr, 0) =~= cr);
    }
}

/// The number that decimal digits stand for.
pub open spec fn number_of(digits: Seq<char>) -> nat
    decreases digits.len(),
{
    if digits.len() == 0 {
        0
    } else {
        (10 * number_of(digits.drop_last()) + (digits.last() as u32 - '0' as u32)) as nat
    }
}

/// A number in decimal digits stands for itself, and begins with no zero that it does not need.
pub proof fn digits_stand_for_the_number(n: nat)
    ensures
        number_of(text::decimal_view(n)) == n,
        text::decimal_view(n).len() > 0,
        forall|i: int|
            0 <= i < text::decimal_view(n).len() ==> '0' <= #[trigger] text::decimal_view(n)[i]
                <= '9',
        text::decimal_view(n).len() > 1 ==> text::decimal_view(n)[0] != '0',
    decreases n,
{
    if n < 10 {
        assert(text::decimal_view(n).drop_last() =~= Seq::<char>::empty());
        reveal_with_fuel(number_of, 2);
    } else {
        digits_stand_for_the_number(n / 10);
        let rest = text::decimal_view(n / 10);
        assert(text::decimal_view(n).drop_last() =~= rest);
        assert(text::decimal_view(n)[0] == rest[0]);
        if n / 10 < 10 {
            assert(rest =~= seq![text::digit_char(n / 10)]);
            assert(n / 10 > 0);
        } else {
            assert(rest =~= text::decimal_view(n / 10 / 10).push(text::digit_char(n / 10 % 10)));
            digits_stand_for_the_number(n / 10 / 10);
        }
    }
}

} // verus!
