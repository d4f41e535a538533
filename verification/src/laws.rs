use vstd::prelude::*;

use crate::app::{
    after_approve, after_check_ready, after_reject, after_response, after_start_recording,
    after_stop_recording, after_submit, after_tick_boot, after_tick_recording, after_toggle_voice,
    ai_msg, initial, recording_status, status_loading_pct, status_online, transcribed, user_msg,
    voice_marker, AppView, MessageView, State,
};
use crate::audio::{base64_char, base64_decode, base64_encode, base64_value, every_nth, level_stride, levels_after, MAX_LEVELS};
use crate::bridge::ResponseView;
use crate::control::{key_command, key_effect, tick_spec, Key, KeyAction, KeyCommand, Tick};
use crate::bridge::model_count;
use crate::picker::{picker_spec, PickerStep};
use crate::text::{byte_len, contains, decimal, digit_char, ends_with, is_whitespace, signed_decimal, starts_with, trim, trim_end, trim_start, is_byte_boundary, lemma_byte_len_push, replace_all, lemma_encode_utf8_concat, occurs_at, prefix_of_bytes};
use crate::tools::{command_text, entry_label, exit_code, expand_command, expand_home, list_text, read_text, DirEntryInfo, LIST_LIMIT, run_text, CommandOutput, OUTPUT_LIMIT};
use crate::ui::{
    bar_filled, chat_spec, cursor, lossy_chunks, messages_section, min, prefix_width, sat_sub,
    streaming_lines, wrap_text,
};
use vstd::utf8::{encode_utf8, encode_utf8_decode_utf8, encode_utf8_valid_utf8};

verus! {

// ---------------------------------------------------------------------------
// Loading progress
// ---------------------------------------------------------------------------

/// The application's state is sound: the loading progress is a percentage.
pub open spec fn well_formed(v: AppView) -> bool {
    v.loading_pct <= 100
}

/// The loading progress never exceeds 100 %: every operation of the
/// application keeps it a percentage.
pub proof fn law_progress_is_percentage(
    v: AppView,
    ready: bool,
    started: bool,
    pcm: Seq<u8>,
    secs: nat,
    r: ResponseView,
)
    requires
        well_formed(v),
    ensures
        well_formed(initial(v.model_id)),
        well_formed(after_tick_boot(v)),
        well_formed(after_check_ready(v, ready)),
        well_formed(after_submit(v).0),
        well_formed(after_start_recording(v, started)),
        well_formed(after_stop_recording(v, pcm).0),
        well_formed(after_tick_recording(v, secs).0),
        well_formed(after_response(v, r).0),
        well_formed(after_approve(v)),
        well_formed(after_reject(v).0),
        well_formed(after_toggle_voice(v)),
{
}

/// While the model loads, the progress only grows, and it stays at most
/// 92 % until the model reports that it is ready.
pub proof fn law_progress_monotone_until_ready(v: AppView)
    ensures
        after_check_ready(v, false).loading_pct >= v.loading_pct,
        v.loading_pct <= 92 ==> after_check_ready(v, false).loading_pct <= 92,
        after_check_ready(v, true).loading_pct == 100,
        after_check_ready(v, true).state == State::Idle,
{
}

// ---------------------------------------------------------------------------
// The phases
// ---------------------------------------------------------------------------

/// The documented phase changes: boot, then loading, then idle; idle and
/// recording alternate; input is processed, streamed back and ends idle; a
/// tool call waits for approval and, decided, goes back to processing.
pub open spec fn documented_step(from: State, to: State) -> bool {
    from == to || match from {
        State::Booting => to == State::Loading,
        State::Loading => to == State::Idle,
        State::Idle => to == State::Recording || to == State::Processing,
        State::Recording => to == State::Idle || to == State::Processing,
        State::Processing => to == State::Streaming || to == State::Idle || to
            == State::AwaitingApproval,
        State::Streaming => to == State::Idle || to == State::AwaitingApproval,
        State::AwaitingApproval => to == State::Processing,
    }
}

/// Every phase change the main loop can cause follows the documented
/// state machine: the work of each turn in its phase, and each key press
/// with what it leads to. Messages from the model are read in the
/// processing and streaming phases.
pub proof fn law_phases_follow_state_machine(
    v: AppView,
    ready: bool,
    started: bool,
    pcm: Seq<u8>,
    secs: nat,
    r: ResponseView,
)
    ensures
        v.state == State::Booting ==> documented_step(v.state, after_tick_boot(v).state),
        v.state == State::Loading ==> documented_step(v.state, after_check_ready(v, ready).state),
        v.state == State::Recording ==> documented_step(
            v.state,
            after_tick_recording(v, secs).0.state,
        ),
        v.state == State::Recording ==> documented_step(
            v.state,
            after_stop_recording(v, pcm).0.state,
        ),
        v.state == State::Processing || v.state == State::Streaming ==> documented_step(
            v.state,
            after_response(v, r).0.state,
        ),
        v.state == State::Idle ==> documented_step(v.state, after_submit(v).0.state),
        v.state == State::Idle ==> documented_step(
            v.state,
            after_start_recording(v, started).state,
        ),
        v.state == State::Idle ==> documented_step(v.state, after_toggle_voice(v).state),
        v.state == State::AwaitingApproval ==> documented_step(v.state, after_approve(v).state),
        v.state == State::AwaitingApproval ==> documented_step(v.state, after_reject(v).0.state),
{
}

/// The application after one poll over the queued messages `rs`: they are
/// read in order until one of them ends the poll or the queue runs out.
pub open spec fn poll_run(v: AppView, rs: Seq<ResponseView>) -> AppView
    decreases rs.len(),
{
    if rs.len() == 0 {
        v
    } else {
        let (w, more) = after_response(v, rs[0]);
        if more {
            poll_run(w, rs.drop_first())
        } else {
            w
        }
    }
}

/// A whole poll started by the main loop (in the processing or streaming
/// phase) follows the documented state machine, whatever messages are
/// queued; it ends in the approval phase exactly when it ends on a tool call.
pub proof fn law_poll_follows_state_machine(v: AppView, rs: Seq<ResponseView>)
    requires
        v.state == State::Processing || v.state == State::Streaming,
    ensures
        documented_step(v.state, poll_run(v, rs).state),
        poll_run(v, rs).state == v.state || poll_run(v, rs).state == State::Streaming
            || poll_run(v, rs).state == State::Idle || poll_run(v, rs).state
            == State::AwaitingApproval,
    decreases rs.len(),
{
    if rs.len() > 0 {
        let (w, more) = after_response(v, rs[0]);
        if more {
            law_poll_follows_state_machine(w, rs.drop_first());
        }
    }
}

/// The approval phase is left only by the user's decision: the main loop
/// does no work in it (no messages are read), every key other than `y`, `n`
/// and Escape is ignored, and approving or rejecting goes back to
/// processing.
pub proof fn law_approval_left_only_by_decision(v: AppView, key: Key)
    requires
        v.state == State::AwaitingApproval,
    ensures
        tick_spec(v.state) == Tick::Wait,
        key_command(v.state, v.voice_mode, key) == (if key == Key::Esc {
            KeyCommand::Quit
        } else if key == Key::Char('y') {
            KeyCommand::Approve
        } else if key == Key::Char('n') {
            KeyCommand::Reject
        } else {
            KeyCommand::Ignore
        }),
        v.pending_tool is Some ==> after_approve(v).state == State::Processing,
        v.pending_tool is Some ==> after_reject(v).0.state == State::Processing,
{
}

// ---------------------------------------------------------------------------
// Boot sequence and loading
// ---------------------------------------------------------------------------

/// `n` checks on the loading model, none of which finds it ready.
pub open spec fn unready_checks(v: AppView, n: nat) -> AppView
    decreases n,
{
    if n == 0 {
        v
    } else {
        after_check_ready(unready_checks(v, (n - 1) as nat), false)
    }
}

/// The progress shown after `n` checks without the model being ready,
/// starting from 0: 3 points per check up to 60, then 1 point per check,
/// stalling at 92.
pub open spec fn progress_after(n: nat) -> nat {
    if n <= 20 {
        3 * n
    } else if 60 + (n - 20) <= 92 {
        (60 + (n - 20)) as nat
    } else {
        92
    }
}

/// While the model loads, `n` checks without it being ready show
/// `progress_after(n)` percent, which never reaches 100; the phase stays
/// loading and the status shows the percentage.
pub proof fn law_loading_progress(v: AppView, n: nat)
    requires
        v.state == State::Loading,
        v.loading_pct == 0,
    ensures
        unready_checks(v, n).loading_pct == progress_after(n),
        unready_checks(v, n).loading_pct < 100,
        unready_checks(v, n).state == State::Loading,
        n > 0 ==> unready_checks(v, n).status == status_loading_pct(progress_after(n)),
    decreases n,
{
    if n > 0 {
        law_loading_progress(v, (n - 1) as nat);
    }
}

/// `n` boot ticks.
pub open spec fn boot_ticks(v: AppView, n: nat) -> AppView
    decreases n,
{
    if n == 0 {
        v
    } else {
        after_tick_boot(boot_ticks(v, (n - 1) as nat))
    }
}

/// From the start, the boot sequence shows one line per tick and moves on
/// to loading the model exactly after its sixth line.
pub proof fn law_boot_takes_six_ticks(model_id: Seq<char>, n: nat)
    ensures
        boot_ticks(initial(model_id), n).boot_step == n,
        n < 6 ==> boot_ticks(initial(model_id), n).state == State::Booting,
        n >= 6 ==> boot_ticks(initial(model_id), n).state == State::Loading,
        n < 6 ==> boot_ticks(initial(model_id), n).status == "BOOTING..."@,
        n >= 6 ==> boot_ticks(initial(model_id), n).status == "LOADING NEURAL CORE..."@,
    decreases n,
{
    if n > 0 {
        law_boot_takes_six_ticks(model_id, (n - 1) as nat);
    }
}

// ---------------------------------------------------------------------------
// Streaming replies
// ---------------------------------------------------------------------------

/// The application after the messages `rs` arrive, one after the other.
pub open spec fn replay(v: AppView, rs: Seq<ResponseView>) -> AppView
    decreases rs.len(),
{
    if rs.len() == 0 {
        v
    } else {
        after_response(replay(v, rs.drop_last()), rs.last()).0
    }
}

/// The token messages carrying the pieces `ts`.
pub open spec fn token_messages(ts: Seq<Seq<char>>) -> Seq<ResponseView> {
    ts.map_values(|t: Seq<char>| ResponseView::Token { content: t })
}

/// The pieces `ts` put together.
pub open spec fn concat_all(ts: Seq<Seq<char>>) -> Seq<char>
    decreases ts.len(),
{
    if ts.len() == 0 {
        seq![]
    } else {
        concat_all(ts.drop_last()) + ts.last()
    }
}

/// Tokens accumulate: after a run of tokens the reply being streamed is
/// what it was, followed by the tokens in order, and the conversation is
/// untouched.
pub proof fn law_tokens_accumulate(v: AppView, ts: Seq<Seq<char>>)
    ensures
        replay(v, token_messages(ts)).current_response == v.current_response + concat_all(ts),
        replay(v, token_messages(ts)).messages == v.messages,
        ts.len() > 0 ==> replay(v, token_messages(ts)).state == State::Streaming,
    decreases ts.len(),
{
    if ts.len() == 0 {
        assert(token_messages(ts) =~= Seq::<ResponseView>::empty());
        assert(v.current_response + concat_all(ts) =~= v.current_response);
    } else {
        assert(token_messages(ts).drop_last() =~= token_messages(ts.drop_last()));
        law_tokens_accumulate(v, ts.drop_last());
        assert(v.current_response + concat_all(ts) =~= v.current_response + concat_all(
            ts.drop_last(),
        ) + ts.last());
    }
}

/// A streamed reply is recorded once it is done: starting with no reply in
/// progress, tokens followed by `Done` add exactly one AI message holding the
/// tokens put together (none when they are all empty), and the application
/// is idle again with nothing in progress.
pub proof fn law_streamed_reply_is_recorded(v: AppView, ts: Seq<Seq<char>>)
    requires
        v.current_response.len() == 0,
    ensures
        ({
            let done = replay(v, token_messages(ts).push(ResponseView::Done));
            &&& done.messages == (if concat_all(ts).len() > 0 {
                v.messages.push(ai_msg(concat_all(ts)))
            } else {
                v.messages
            })
            &&& done.current_response.len() == 0
            &&& done.state == State::Idle
            &&& done.status == status_online()
        }),
{
    law_tokens_accumulate(v, ts);
    assert(token_messages(ts).push(ResponseView::Done).drop_last() =~= token_messages(ts));
    assert(v.current_response + concat_all(ts) =~= concat_all(ts));
}

/// A poll reads on after transcripts and tokens, and stops at a tool call,
/// at the end of a reply, at an error, or at any other message.
pub proof fn law_poll_stops_at_end_of_reply(v: AppView, r: ResponseView)
    ensures
        after_response(v, r).1 <==> (r is Transcript || r is Token),
{
}

/// An error ends the reply in progress: the partial reply is dropped, the
/// error is recorded as one AI message, and the application is idle again.
pub proof fn law_error_ends_reply(v: AppView, message: Seq<char>)
    ensures
        ({
            let after = after_response(v, ResponseView::Error { message }).0;
            &&& after.messages == v.messages.push(ai_msg("[ERROR] "@ + message))
            &&& after.current_response.len() == 0
            &&& after.state == State::Idle
        }),
{
}

// ---------------------------------------------------------------------------
// Voice input
// ---------------------------------------------------------------------------

/// A recording shows its elapsed time from the start: the status set when
/// it starts is the status for 0 seconds.
pub proof fn law_recording_starts_at_zero(v: AppView)
    ensures
        after_start_recording(v, true).status == recording_status(0),
{
    reveal_strlit("🎤 RECORDING 0s / 28s — [SPACE] to send");
    reveal_strlit("🎤 RECORDING ");
    reveal_strlit("s / 28s — [SPACE] to send");
    assert(decimal(0) == seq!['0']);
    assert("🎤 RECORDING 0s / 28s — [SPACE] to send"@ =~= recording_status(0));
}

/// A recording that captured audio is replaced by its transcript: after the
/// audio is sent and the transcript `t` comes back, the conversation has
/// exactly one new entry, the user's, reading "🎤 " and the transcript.
pub proof fn law_transcript_replaces_voice_placeholder(v: AppView, pcm: Seq<u8>, t: Seq<char>)
    requires
        pcm.len() > 0,
    ensures
        ({
            let sent = after_stop_recording(v, pcm).0;
            let heard = after_response(sent, ResponseView::Transcript { content: t }).0;
            heard.messages == v.messages.push(user_msg("🎤 "@ + t))
        }),
{
    let placeholder = "🎤 "@ + voice_marker();
    reveal_strlit("🎤 ");
    reveal_strlit("[voice input]");
    reveal_strlit("user");
    assert(placeholder.subrange(2, 2 + voice_marker().len() as int) =~= voice_marker());
    assert(occurs_at(placeholder, voice_marker(), 2));
    assert(contains(placeholder, voice_marker()));
    let sent = after_stop_recording(v, pcm).0;
    assert(sent.messages.last() == user_msg(placeholder));
    assert(transcribed(sent.messages, t) =~= v.messages.push(user_msg("🎤 "@ + t)));
}

/// The recording stops by itself once it reaches 28 seconds, and not before.
pub proof fn law_recording_time_limit(v: AppView, secs: nat)
    requires
        v.recording,
    ensures
        after_tick_recording(v, secs).1 <==> secs >= 28,
{
}

// ---------------------------------------------------------------------------
// Tool approval
// ---------------------------------------------------------------------------

/// A pending tool call is decided once: approving or rejecting it clears
/// it, records the decision as one AI message and hands control back to the
/// model; rejecting tells the model with an empty result. Without a pending
/// call both do nothing.
pub proof fn law_tool_decision(v: AppView)
    ensures
        after_approve(v).pending_tool is None,
        after_reject(v).0.pending_tool is None,
        v.pending_tool is None ==> after_approve(v) == v && after_reject(v).0 == v && after_reject(
            v,
        ).1 is None,
        v.pending_tool is Some ==> {
            &&& after_approve(v).messages.len() == v.messages.len() + 1
            &&& after_reject(v).0.messages.len() == v.messages.len() + 1
            &&& after_approve(v).state == State::Processing
            &&& after_reject(v).0.state == State::Processing
            &&& after_reject(v).1 == Some(
                crate::bridge::RequestView::ToolResult {
                    tool: v.pending_tool->0.tool,
                    result: seq![],
                    approved: false,
                },
            )
        },
{
}

// ---------------------------------------------------------------------------
// Input
// ---------------------------------------------------------------------------

/// Switching the input mode twice returns to the same mode.
pub proof fn law_toggle_voice_twice(v: AppView)
    ensures
        after_toggle_voice(after_toggle_voice(v)).voice_mode == v.voice_mode,
        after_toggle_voice(v).voice_mode != v.voice_mode,
{
}

/// Escape quits in every phase; in voice mode no key types text; when the
/// text box is idle in text mode, every other character key types itself
/// (except `y`/`n`, which only mean approve/reject while a tool call waits).
pub proof fn law_keys(state: State, voice_mode: bool, c: char)
    ensures
        key_command(state, voice_mode, Key::Esc) == KeyCommand::Quit,
        voice_mode ==> !(key_command(state, voice_mode, Key::Char(c)) is Type),
        !voice_mode && state == State::Idle ==> key_command(state, voice_mode, Key::Char(c))
            == KeyCommand::Type(c),
{
}

/// Blank input is never sent: submitting text that trims to nothing
/// changes nothing; otherwise exactly one user entry is added and the box
/// is cleared.
pub proof fn law_submit(v: AppView)
    ensures
        crate::text::trim(v.input).len() == 0 ==> after_submit(v) == (v, None::<crate::bridge::RequestView>),
        crate::text::trim(v.input).len() > 0 ==> {
            &&& after_submit(v).0.messages == v.messages.push(user_msg(crate::text::trim(v.input)))
            &&& after_submit(v).0.input.len() == 0
            &&& after_submit(v).1 == Some(
                crate::bridge::RequestView::Text { content: crate::text::trim(v.input) },
            )
        },
{
}

// ---------------------------------------------------------------------------
// Tool results
// ---------------------------------------------------------------------------

proof fn lemma_ascii_byte_len(s: Seq<char>)
    requires
        forall|i: int| 0 <= i < s.len() ==> (#[trigger] s[i] as u32) < 128,
    ensures
        byte_len(s) == s.len(),
    decreases s.len(),
{
    if s.len() > 0 {
        let t = s.drop_last();
        assert forall|i: int| 0 <= i < t.len() implies (#[trigger] t[i] as u32) < 128 by {
            assert(t[i] == s[i]);
        }
        lemma_ascii_byte_len(t);
        assert(t.push(s.last()) =~= s);
        lemma_byte_len_push(t, s.last());
    }
}

/// A command's reported result is bounded: it is never longer than
/// `OUTPUT_LIMIT` bytes plus the 14-byte truncation marker, and a result
/// that fits is reported whole.
pub proof fn law_command_result_bounded(o: CommandOutput)
    ensures
        run_text(o) matches Some(t) ==> byte_len(t) <= OUTPUT_LIMIT + 14,
        byte_len(command_text(o)) <= OUTPUT_LIMIT ==> run_text(o) == Some(command_text(o)),
{
    let t = command_text(o);
    if byte_len(t) > OUTPUT_LIMIT && is_byte_boundary(t, OUTPUT_LIMIT as int) {
        let k = choose|k: int| 0 <= k <= t.len() && #[trigger] byte_len(t.take(k)) == OUTPUT_LIMIT as int;
        let p = prefix_of_bytes(t, OUTPUT_LIMIT as int);
        assert(byte_len(p) == OUTPUT_LIMIT);
        let marker = "...[truncated]"@;
        reveal_strlit("...[truncated]");
        lemma_ascii_byte_len(marker);
        lemma_encode_utf8_concat(p, marker);
    }
}

// ---------------------------------------------------------------------------
// Screen layout
// ---------------------------------------------------------------------------

/// Every character of `s` is ASCII.
pub open spec fn is_ascii_text(s: Seq<char>) -> bool {
    forall|i: int| 0 <= i < s.len() ==> (#[trigger] s[i] as u32) < 128
}

proof fn lemma_ascii_boundary(s: Seq<char>, n: int)
    requires
        is_ascii_text(s),
        0 <= n <= s.len(),
    ensures
        is_byte_boundary(s, n),
{
    let t = s.take(n);
    assert forall|i: int| 0 <= i < t.len() implies (#[trigger] t[i] as u32) < 128 by {
        assert(t[i] == s[i]);
    }
    lemma_ascii_byte_len(t);
    assert(byte_len(s.take(n)) == n);
}

proof fn lemma_ascii_wraps(content: Seq<char>, first_w: nat, width: nat)
    requires
        is_ascii_text(content),
        width > 0,
    ensures
        wrap_text(content, first_w, width) is Some,
{
    lemma_ascii_byte_len(content);
    if byte_len(content) > first_w {
        lemma_ascii_boundary(content, first_w as int);
    }
}

proof fn lemma_ascii_messages(msgs: Seq<MessageView>, width: nat)
    requires
        width > 0,
        forall|i: int| 0 <= i < msgs.len() ==> is_ascii_text(#[trigger] msgs[i].content),
    ensures
        messages_section(msgs, width) is Some,
    decreases msgs.len(),
{
    if msgs.len() > 0 {
        let m = msgs.last();
        assert(is_ascii_text(msgs[msgs.len() - 1].content));
        let is_user = m.role == "user"@;
        lemma_ascii_wraps(m.content, sat_sub(width as int, prefix_width(is_user) as int) as nat, width);
        let rest = msgs.drop_last();
        assert forall|i: int| 0 <= i < rest.len() implies is_ascii_text(#[trigger] rest[i].content) by {
            assert(rest[i] == msgs[i]);
        }
        lemma_ascii_messages(rest, width);
    }
}

proof fn lemma_ascii_sub(s: Seq<char>, a: int, b: int)
    requires
        is_ascii_text(s),
        0 <= a <= b <= s.len(),
    ensures
        is_ascii_text(s.subrange(a, b)),
{
    let t = s.subrange(a, b);
    assert forall|i: int| 0 <= i < t.len() implies (#[trigger] t[i] as u32) < 128 by {
        assert(t[i] == s[a + i]);
    }
}

proof fn lemma_ascii_encode_split(t: Seq<char>, k: int)
    requires
        is_ascii_text(t),
        0 <= k <= t.len(),
    ensures
        encode_utf8(t).take(k) == encode_utf8(t.take(k)),
        encode_utf8(t).skip(k) == encode_utf8(t.skip(k)),
        encode_utf8(t).len() == t.len(),
{
    lemma_ascii_sub(t, 0, k);
    assert(t.take(k) =~= t.subrange(0, k));
    lemma_ascii_byte_len(t.take(k));
    lemma_ascii_byte_len(t);
    assert(t.take(k) + t.skip(k) =~= t);
    lemma_encode_utf8_concat(t.take(k), t.skip(k));
    assert(encode_utf8(t).take(k) =~= encode_utf8(t.take(k)));
    assert(encode_utf8(t).skip(k) =~= encode_utf8(t.skip(k)));
}

proof fn lemma_concat_all_prepend(x: Seq<char>, r: Seq<Seq<char>>)
    ensures
        concat_all(seq![x] + r) == x + concat_all(r),
    decreases r.len(),
{
    if r.len() == 0 {
        assert(seq![x] + r =~= seq![x]);
        assert(seq![x].drop_last() =~= Seq::<Seq<char>>::empty());
        assert(x + concat_all(r) =~= x);
        assert(concat_all(seq![x]) =~= concat_all(Seq::<Seq<char>>::empty()) + x);
    } else {
        assert((seq![x] + r).drop_last() =~= seq![x] + r.drop_last());
        lemma_concat_all_prepend(x, r.drop_last());
        assert(x + concat_all(r) =~= x + concat_all(r.drop_last()) + r.last());
    }
}

proof fn lemma_ascii_chunks(t: Seq<char>, width: nat)
    requires
        is_ascii_text(t),
        width > 0,
    ensures
        concat_all(lossy_chunks(encode_utf8(t), width)) == t,
        lossy_chunks(encode_utf8(t), width).len() == (t.len() + width - 1) / (width as int),
        forall|i: int|
            0 <= i < lossy_chunks(encode_utf8(t), width).len() ==> (#[trigger] lossy_chunks(
                encode_utf8(t),
                width,
            )[i]).len() <= width,
    decreases t.len(),
{
    let b = encode_utf8(t);
    lemma_ascii_byte_len(t);
    if t.len() == 0 {
        assert(concat_all(Seq::<Seq<char>>::empty()) =~= t);
        assert((width - 1) / (width as int) == 0) by (nonlinear_arith)
            requires
                width > 0,
        ;
    } else if t.len() <= width {
        encode_utf8_valid_utf8(t);
        encode_utf8_decode_utf8(t);
        assert(lossy_chunks(b, width) == seq![t]);
        lemma_concat_all_prepend(t, Seq::<Seq<char>>::empty());
        assert(t + Seq::<char>::empty() =~= t);
        assert((t.len() + width - 1) / (width as int) == 1) by (nonlinear_arith)
            requires
                0 < t.len() <= width,
        ;
    } else {
        let head = t.take(width as int);
        let tail = t.skip(width as int);
        lemma_ascii_encode_split(t, width as int);
        lemma_ascii_sub(t, 0, width as int);
        assert(head =~= t.subrange(0, width as int));
        lemma_ascii_sub(t, width as int, t.len() as int);
        assert(tail =~= t.subrange(width as int, t.len() as int));
        encode_utf8_valid_utf8(head);
        encode_utf8_decode_utf8(head);
        lemma_ascii_chunks(tail, width);
        assert(lossy_chunks(b, width) == seq![head] + lossy_chunks(encode_utf8(tail), width));
        lemma_concat_all_prepend(head, lossy_chunks(encode_utf8(tail), width));
        assert(head + tail =~= t);
        assert(1 + (tail.len() + width - 1) / (width as int) == (t.len() + width - 1) / (
        width as int)) by (nonlinear_arith)
            requires
                tail.len() == t.len() - width,
                width > 0,
        ;
        let rows = lossy_chunks(b, width);
        let more = lossy_chunks(encode_utf8(tail), width);
        assert forall|i: int| 0 <= i < rows.len() implies (#[trigger] rows[i]).len() <= width by {
            if i > 0 {
                assert(rows[i] == more[i - 1]);
            }
        }
    }
}

/// Wrapping loses nothing from ASCII text: the first line holds the first
/// `first_w` characters (all of them when they fit), the further lines
/// hold the rest in pieces of `width` characters (the last one possibly
/// shorter), and put together they give back the text exactly.
pub proof fn law_ascii_wrap_reassembles(content: Seq<char>, first_w: nat, width: nat)
    requires
        is_ascii_text(content),
        width > 0,
    ensures
        wrap_text(content, first_w, width) is Some,
        ({
            let (first, rest) = wrap_text(content, first_w, width)->0;
            &&& first + concat_all(rest) == content
            &&& first == content.take(min(content.len() as int, first_w as int))
            &&& rest.len() == (if content.len() <= first_w {
                0
            } else {
                (content.len() - first_w + width - 1) / (width as int)
            })
            &&& forall|i: int| 0 <= i < rest.len() ==> (#[trigger] rest[i]).len() <= width
        }),
{
    lemma_ascii_byte_len(content);
    if content.len() <= first_w {
        assert(content.take(content.len() as int) =~= content);
        assert(content + concat_all(Seq::<Seq<char>>::empty()) =~= content);
    } else {
        let f = first_w as int;
        lemma_ascii_boundary(content, f);
        lemma_ascii_encode_split(content, f);
        lemma_ascii_sub(content, 0, f);
        assert(content.take(f) =~= content.subrange(0, f));
        lemma_ascii_byte_len(content.take(f));
        let k = choose|k: int| 0 <= k <= content.len() && #[trigger] byte_len(content.take(k)) == f;
        lemma_ascii_sub(content, 0, k);
        assert(content.take(k) =~= content.subrange(0, k));
        lemma_ascii_byte_len(content.take(k));
        assert(prefix_of_bytes(content, f) == content.take(f));
        let tail = content.skip(f);
        lemma_ascii_sub(content, f, content.len() as int);
        assert(tail =~= content.subrange(f, content.len() as int));
        lemma_ascii_chunks(tail, width);
        assert(content.take(f) + tail =~= content);
    }
}

/// The streamed reply, when it is ASCII, always lays out in a pane with
/// room for text, and its blinking cursor ends the last line.
pub proof fn law_ascii_stream_ends_with_cursor(cur: Seq<char>, width: nat)
    requires
        is_ascii_text(cur),
        cur.len() > 0,
        width > 0,
    ensures
        streaming_lines(cur, width) is Some,
        streaming_lines(cur, width)->0.last().last() == cursor(),
{
    law_ascii_wrap_reassembles(cur, sat_sub(width as int, 6) as nat, width);
}

/// The conversation pane can always be laid out when its text is ASCII and
/// it is at least 3 cells wide (one cell of text between the borders), as
/// long as the application's state is sound.
pub proof fn law_ascii_chat_always_lays_out(v: AppView, display: Seq<char>, area_width: nat)
    requires
        well_formed(v),
        area_width >= 3,
        is_ascii_text(v.current_response),
        forall|i: int| 0 <= i < v.messages.len() ==> is_ascii_text(#[trigger] v.messages[i].content),
    ensures
        chat_spec(v, display, area_width) is Some,
{
    let width = sat_sub(area_width as int, 2) as nat;
    lemma_ascii_messages(v.messages, width);
    lemma_ascii_wraps(v.current_response, sat_sub(width as int, 6) as nat, width);
    assert(bar_filled(v.loading_pct) <= 30) by (nonlinear_arith)
        requires
            v.loading_pct <= 100,
    {
    }
}

// ---------------------------------------------------------------------------
// Audio
// ---------------------------------------------------------------------------

/// The padded base64 encoding of `n` bytes has 4 characters for every
/// started group of 3 bytes.
pub proof fn law_base64_length(b: Seq<u8>)
    ensures
        base64_encode(b).len() == (if b.len() % 3 == 0 {
            b.len() / 3 * 4
        } else {
            b.len() / 3 * 4 + 4
        }),
    decreases b.len(),
{
    if b.len() >= 3 {
        law_base64_length(b.skip(3));
    }
}

proof fn lemma_base64_char_value(v: int)
    requires
        0 <= v < 64,
    ensures
        base64_value(base64_char(v)) == v,
        base64_char(v) != '=',
{
}

proof fn lemma_base64_group(b0: u8, b1: u8, b2: u8)
    ensures
        ({
            let v0 = b0 as int / 4;
            let v1 = (b0 as int % 4) * 16 + b1 as int / 16;
            let v2 = (b1 as int % 16) * 4 + b2 as int / 64;
            let v3 = b2 as int % 64;
            &&& 0 <= v0 < 64 && 0 <= v1 < 64 && 0 <= v2 < 64 && 0 <= v3 < 64
            &&& (v0 * 4 + v1 / 16) as u8 == b0
            &&& ((v1 % 16) * 16 + v2 / 4) as u8 == b1
            &&& ((v2 % 4) * 64 + v3) as u8 == b2
        }),
{
}

/// Decoding the padded base64 encoding of any bytes gives back exactly
/// those bytes.
pub proof fn law_base64_round_trip(b: Seq<u8>)
    ensures
        base64_decode(base64_encode(b)) == b,
    decreases b.len(),
{
    if b.len() == 0 {
        assert(base64_decode(base64_encode(b)) =~= b);
    } else if b.len() == 1 {
        lemma_base64_group(b[0], 0, 0);
        lemma_base64_char_value(b[0] as int / 4);
        lemma_base64_char_value((b[0] as int % 4) * 16);
        assert(base64_decode(base64_encode(b)) =~= b);
    } else if b.len() == 2 {
        lemma_base64_group(b[0], b[1], 0);
        lemma_base64_char_value(b[0] as int / 4);
        lemma_base64_char_value((b[0] as int % 4) * 16 + b[1] as int / 16);
        lemma_base64_char_value((b[1] as int % 16) * 4);
        assert(base64_decode(base64_encode(b)) =~= b);
    } else {
        lemma_base64_group(b[0], b[1], b[2]);
        lemma_base64_char_value(b[0] as int / 4);
        lemma_base64_char_value((b[0] as int % 4) * 16 + b[1] as int / 16);
        lemma_base64_char_value((b[1] as int % 16) * 4 + b[2] as int / 64);
        lemma_base64_char_value(b[2] as int % 64);
        law_base64_round_trip(b.skip(3));
        let e = base64_encode(b);
        assert(e.skip(4) =~= base64_encode(b.skip(3)));
        assert(b =~= seq![b[0], b[1], b[2]] + b.skip(3));
    }
}

/// The live level buffer never grows past `MAX_LEVELS` entries once it is
/// within bounds, and it ends with the sampled block (as far as it fits).
pub proof fn law_levels_bounded<T>(levels: Seq<T>, block: Seq<T>)
    requires
        levels.len() <= MAX_LEVELS,
    ensures
        levels_after(levels, block).len() <= MAX_LEVELS,
        block.len() > 0 ==> ({
            let s = every_nth(block, level_stride(block.len()));
            let after = levels_after(levels, block);
            s.len() <= MAX_LEVELS ==> after.skip(after.len() - s.len()) == s
        }),
{
    if block.len() > 0 {
        let s = every_nth(block, level_stride(block.len()));
        let grown = levels + s;
        let after = levels_after(levels, block);
        if s.len() <= MAX_LEVELS {
            assert(after.skip(after.len() - s.len()) =~= s);
        }
    }
}

// ---------------------------------------------------------------------------
// Keys that edit the input box
// ---------------------------------------------------------------------------

/// Only the idle phase in text mode edits the input box: a key means "type
/// a character" only there, and only the character of that key; it means
/// "delete the last character" only there, and only for Backspace.
pub proof fn law_typing_only_when_idle(state: State, voice_mode: bool, key: Key)
    ensures
        key_command(state, voice_mode, key) matches KeyCommand::Type(c) ==> {
            &&& state == State::Idle
            &&& !voice_mode
            &&& key == Key::Char(c)
        },
        key_command(state, voice_mode, key) is Backspace ==> {
            &&& state == State::Idle
            &&& !voice_mode
            &&& key == Key::Backspace
        },
{
}

/// While the model is working, a tool call waits, the microphone records or
/// voice input is on, no key press changes the text in the input box.
pub proof fn law_input_kept_outside_idle_text_mode(
    v: AppView,
    key: Key,
    next: AppView,
    a: KeyAction,
)
    requires
        key_effect(v, key_command(v.state, v.voice_mode, key), next, a),
        v.state != State::Idle || v.voice_mode,
    ensures
        next.input == v.input,
{
}

// ---------------------------------------------------------------------------
// Choosing a model
// ---------------------------------------------------------------------------

/// The digit keys choose directly: pressing `d` (1 to 4) chooses the model
/// listed at position `d`, that is index `d - 1`, whichever entry is
/// highlighted.
pub proof fn law_digit_keys_choose(selected: nat, d: nat)
    requires
        1 <= d <= model_count(),
    ensures
        picker_spec(selected, Key::Char(digit_char(d))) == PickerStep::Chosen((d - 1) as usize),
{
}

/// Moving down and then up again returns to the same entry.
pub proof fn law_up_undoes_down(selected: nat)
    requires
        selected + 1 < model_count(),
    ensures
        picker_spec(selected, Key::Down) == PickerStep::Stay((selected + 1) as usize),
        picker_spec(selected + 1, Key::Up) == PickerStep::Stay(selected as usize),
{
}

// ---------------------------------------------------------------------------
// Reading a file
// ---------------------------------------------------------------------------

/// A file that fits is reported whole. A longer one is cut to its first
/// `OUTPUT_LIMIT` bytes (a prefix of the file that encodes to exactly that
/// many bytes), and the total it reports is the file's length in UTF-8
/// bytes, not in characters.
pub proof fn law_read_reports_size_in_bytes(c: Seq<char>)
    ensures
        byte_len(c) <= OUTPUT_LIMIT ==> read_text(c) == Some(c),
        byte_len(c) > OUTPUT_LIMIT && is_byte_boundary(c, OUTPUT_LIMIT as int) ==> {
            &&& read_text(c) is Some
            &&& ends_with(read_text(c)->0, ", "@ + decimal(byte_len(c)) + " bytes total]"@)
            &&& exists|k: int|
                0 <= k <= c.len() && #[trigger] byte_len(c.take(k)) == OUTPUT_LIMIT && starts_with(
                    read_text(c)->0,
                    c.take(k) + "...\n"@,
                )
        },
{
    if byte_len(c) > OUTPUT_LIMIT && is_byte_boundary(c, OUTPUT_LIMIT as int) {
        reveal_strlit("...\n[truncated, ");
        reveal_strlit("...\n[truncated");
        reveal_strlit("...\n");
        reveal_strlit(", ");
        let k = choose|k: int| 0 <= k <= c.len() && #[trigger] byte_len(c.take(k)) == OUTPUT_LIMIT as int;
        let p = c.take(k);
        assert(prefix_of_bytes(c, OUTPUT_LIMIT as int) == p);
        let tail = ", "@ + decimal(byte_len(c)) + " bytes total]"@;
        let r = read_text(c)->0;
        assert(r == p + "...\n[truncated, "@ + decimal(byte_len(c)) + " bytes total]"@);
        let pre = p + "...\n[truncated"@;
        assert(r =~= pre + tail);
        assert(r.subrange(r.len() - tail.len(), r.len() as int) =~= tail);
        let head = p + "...\n"@;
        assert(r.subrange(0, head.len() as int) =~= head);
        assert(starts_with(r, head));
    }
}

// ---------------------------------------------------------------------------
// Reporting a command
// ---------------------------------------------------------------------------

/// `s` holds a character that is not whitespace.
pub open spec fn has_visible(s: Seq<char>) -> bool {
    exists|i: int| 0 <= i < s.len() && !is_whitespace(#[trigger] s[i])
}

proof fn lemma_visible_survives_trim_start(s: Seq<char>, i: int)
    requires
        0 <= i < s.len(),
        !is_whitespace(s[i]),
    ensures
        trim_start(s).len() > 0,
        !is_whitespace(trim_start(s)[0]),
    decreases s.len(),
{
    if is_whitespace(s[0]) {
        assert(s.drop_first()[i - 1] == s[i]);
        lemma_visible_survives_trim_start(s.drop_first(), i - 1);
    }
}

proof fn lemma_visible_first_survives_trim_end(t: Seq<char>)
    requires
        t.len() > 0,
        !is_whitespace(t[0]),
    ensures
        trim_end(t).len() > 0,
    decreases t.len(),
{
    if is_whitespace(t.last()) {
        assert(t.drop_last()[0] == t[0]);
        lemma_visible_first_survives_trim_end(t.drop_last());
    }
}

proof fn lemma_blank_trims_to_nothing(s: Seq<char>)
    requires
        !has_visible(s),
    ensures
        trim_start(s).len() == 0,
    decreases s.len(),
{
    if s.len() > 0 {
        assert(is_whitespace(s[0]));
        assert forall|i: int| 0 <= i < s.drop_first().len() implies is_whitespace(
            #[trigger] s.drop_first()[i],
        ) by {
            assert(s.drop_first()[i] == s[i + 1]);
        }
        lemma_blank_trims_to_nothing(s.drop_first());
    }
}

/// A text trims to nothing exactly when it has no visible character.
pub proof fn lemma_trim_empty_iff_blank(s: Seq<char>)
    ensures
        (trim(s).len() == 0) == !has_visible(s),
{
    if has_visible(s) {
        let i = choose|i: int| 0 <= i < s.len() && !is_whitespace(#[trigger] s[i]);
        lemma_visible_survives_trim_start(s, i);
        lemma_visible_first_survives_trim_end(trim_start(s));
    } else {
        lemma_blank_trims_to_nothing(s);
        assert(trim_start(s) =~= Seq::<char>::empty());
    }
}

/// What a finished command reports: its error output, when there is any,
/// always follows its output (so a failed command's error message reaches
/// the model); a command without error output reports its output as it is,
/// unless it failed with nothing visible on its output, in which case the
/// exit code and a hint are reported instead.
pub proof fn law_command_error_output_reported(o: CommandOutput)
    ensures
        o.stderr@.len() > 0 ==> command_text(o) == o.stdout@ + "\nSTDERR: "@ + o.stderr@,
        o.stderr@.len() == 0 && (o.success || has_visible(o.stdout@)) ==> command_text(o)
            == o.stdout@,
        o.stderr@.len() == 0 && !o.success && !has_visible(o.stdout@) ==> command_text(o) == "Command failed (exit "@
            + signed_decimal(exit_code(o.code))
            + "). HINT: If file paths contain spaces, wrap them in quotes."@,
{
    if o.stderr@.len() > 0 {
        reveal_strlit("\nSTDERR: ");
        let base = o.stdout@ + "\nSTDERR: "@ + o.stderr@;
        assert(base[o.stdout@.len() as int + 1] == 'S');
        assert(!is_whitespace('S'));
        lemma_trim_empty_iff_blank(base);
    } else {
        lemma_trim_empty_iff_blank(o.stdout@);
    }
}

// ---------------------------------------------------------------------------
// Expanding `~` in a command
// ---------------------------------------------------------------------------

/// `s` holds no `~`.
pub open spec fn no_tilde(s: Seq<char>) -> bool {
    forall|i: int| 0 <= i < s.len() ==> #[trigger] s[i] != '~'
}

/// Every `~` of `s` is followed by `/`.
pub open spec fn tildes_before_slash(s: Seq<char>) -> bool {
    forall|i: int| 0 <= i < s.len() && #[trigger] s[i] == '~' ==> i + 1 < s.len() && s[i + 1] == '/'
}

proof fn lemma_replace_keeps_leading_slash(t: Seq<char>, from: Seq<char>, to: Seq<char>)
    requires
        t.len() > 0,
        t[0] == '/',
        from.len() > 0,
        from[0] != '/',
    ensures
        replace_all(t, from, to).len() > 0,
        replace_all(t, from, to)[0] == '/',
{
    if from.len() <= t.len() {
        assert(t.subrange(0, from.len() as int)[0] == t[0]);
    }
    assert(!starts_with(t, from));
}

proof fn lemma_replace_keeps_tildes_before_slash(s: Seq<char>, from: Seq<char>, to: Seq<char>)
    requires
        tildes_before_slash(s),
        no_tilde(to),
        from.len() > 0,
        from[0] != '/',
    ensures
        tildes_before_slash(replace_all(s, from, to)),
    decreases s.len(),
{
    if s.len() > 0 {
        if starts_with(s, from) {
            let t = s.skip(from.len() as int);
            assert forall|i: int| 0 <= i < t.len() && #[trigger] t[i] == '~' implies i + 1 < t.len()
                && t[i + 1] == '/' by {
                assert(s[i + from.len()] == '~');
            }
            lemma_replace_keeps_tildes_before_slash(t, from, to);
            let rest = replace_all(t, from, to);
            let r = to + rest;
            assert(r == replace_all(s, from, to));
            assert forall|i: int| 0 <= i < r.len() && #[trigger] r[i] == '~' implies i + 1 < r.len()
                && r[i + 1] == '/' by {
                if i < to.len() {
                    assert(to[i] != '~');
                } else {
                    assert(rest[i - to.len()] == '~');
                }
            }
        } else {
            let t = s.drop_first();
            assert forall|i: int| 0 <= i < t.len() && #[trigger] t[i] == '~' implies i + 1 < t.len()
                && t[i + 1] == '/' by {
                assert(s[i + 1] == '~');
            }
            lemma_replace_keeps_tildes_before_slash(t, from, to);
            let rest = replace_all(t, from, to);
            let r = seq![s[0]] + rest;
            assert(r == replace_all(s, from, to));
            if s[0] == '~' {
                assert(t[0] == s[1]);
                lemma_replace_keeps_leading_slash(t, from, to);
            }
            assert forall|i: int| 0 <= i < r.len() && #[trigger] r[i] == '~' implies i + 1 < r.len()
                && r[i + 1] == '/' by {
                if i > 0 {
                    assert(rest[i - 1] == '~');
                }
            }
        }
    }
}

proof fn lemma_replace_tilde_slash_removes_tildes(s: Seq<char>, to: Seq<char>)
    requires
        tildes_before_slash(s),
        no_tilde(to),
    ensures
        no_tilde(replace_all(s, "~/"@, to)),
    decreases s.len(),
{
    reveal_strlit("~/");
    let from = "~/"@;
    if s.len() > 0 {
        if starts_with(s, from) {
            let t = s.skip(2);
            assert forall|i: int| 0 <= i < t.len() && #[trigger] t[i] == '~' implies i + 1 < t.len()
                && t[i + 1] == '/' by {
                assert(s[i + 2] == '~');
            }
            lemma_replace_tilde_slash_removes_tildes(t, to);
            let rest = replace_all(t, from, to);
            let r = to + rest;
            assert(r == replace_all(s, from, to));
            assert forall|i: int| 0 <= i < r.len() implies #[trigger] r[i] != '~' by {
                if i >= to.len() {
                    assert(r[i] == rest[i - to.len()]);
                }
            }
        } else {
            if s[0] == '~' {
                assert(s.subrange(0, 2) =~= from);
            }
            let t = s.drop_first();
            assert forall|i: int| 0 <= i < t.len() && #[trigger] t[i] == '~' implies i + 1 < t.len()
                && t[i + 1] == '/' by {
                assert(s[i + 1] == '~');
            }
            lemma_replace_tilde_slash_removes_tildes(t, to);
            let rest = replace_all(t, from, to);
            let r = seq![s[0]] + rest;
            assert(r == replace_all(s, from, to));
            assert forall|i: int| 0 <= i < r.len() implies #[trigger] r[i] != '~' by {
                if i > 0 {
                    assert(r[i] == rest[i - 1]);
                }
            }
        }
    }
}

proof fn lemma_replace_without_tilde(s: Seq<char>, from: Seq<char>, to: Seq<char>)
    requires
        no_tilde(s),
        from.len() > 1,
        from[from.len() - 2] == '~',
    ensures
        replace_all(s, from, to) == s,
    decreases s.len(),
{
    if s.len() > 0 {
        if from.len() <= s.len() {
            assert(s.subrange(0, from.len() as int)[from.len() - 2] == s[from.len() - 2]);
        }
        assert(!starts_with(s, from));
        let t = s.drop_first();
        assert forall|i: int| 0 <= i < t.len() implies #[trigger] t[i] != '~' by {
            assert(t[i] == s[i + 1]);
        }
        lemma_replace_without_tilde(t, from, to);
        assert(seq![s[0]] + t =~= s);
    }
}

/// Every `~/` of a command is expanded: when the home directory holds no
/// `~` and every `~` of the command starts a `~/`, the planned command
/// holds no `~` at all, so no `~/` is left behind.
pub proof fn law_command_tildes_expanded(cmd: Seq<char>, home: Seq<char>)
    requires
        no_tilde(home),
        tildes_before_slash(cmd),
    ensures
        no_tilde(expand_command(cmd, home)),
        !contains(expand_command(cmd, home), "~/"@),
{
    reveal_strlit("\"~/");
    reveal_strlit("'~/");
    reveal_strlit("~/");
    reveal_strlit("\"");
    reveal_strlit("'");
    reveal_strlit("/");
    let to1 = "\""@ + home + "/"@;
    let to2 = "'"@ + home + "/"@;
    let to3 = home + "/"@;
    assert forall|i: int| 0 <= i < to1.len() implies #[trigger] to1[i] != '~' by {
        if 0 < i < to1.len() - 1 {
            assert(to1[i] == home[i - 1]);
        }
    }
    assert forall|i: int| 0 <= i < to2.len() implies #[trigger] to2[i] != '~' by {
        if 0 < i < to2.len() - 1 {
            assert(to2[i] == home[i - 1]);
        }
    }
    assert forall|i: int| 0 <= i < to3.len() implies #[trigger] to3[i] != '~' by {
        if i < to3.len() - 1 {
            assert(to3[i] == home[i]);
        }
    }
    lemma_replace_keeps_tildes_before_slash(cmd, "\"~/"@, to1);
    let c1 = replace_all(cmd, "\"~/"@, to1);
    lemma_replace_keeps_tildes_before_slash(c1, "'~/"@, to2);
    let c2 = replace_all(c1, "'~/"@, to2);
    lemma_replace_tilde_slash_removes_tildes(c2, to3);
    let r = expand_command(cmd, home);
    if contains(r, "~/"@) {
        let i = choose|i: int| occurs_at(r, "~/"@, i);
        assert(r.subrange(i, i + 2)[0] == r[i]);
    }
}

/// A command without `~` is run as it was written.
pub proof fn law_command_without_tilde_unchanged(cmd: Seq<char>, home: Seq<char>)
    requires
        no_tilde(cmd),
    ensures
        expand_command(cmd, home) == cmd,
{
    reveal_strlit("\"~/");
    reveal_strlit("'~/");
    reveal_strlit("~/");
    lemma_replace_without_tilde(cmd, "\"~/"@, "\""@ + home + "/"@);
    lemma_replace_without_tilde(cmd, "'~/"@, "'"@ + home + "/"@);
    lemma_replace_without_tilde(cmd, "~/"@, home + "/"@);
}

proof fn lemma_replace_after_other_char(c: char, t: Seq<char>, from: Seq<char>, to: Seq<char>)
    requires
        from.len() > 0,
        from[0] != c,
    ensures
        replace_all(seq![c] + t, from, to) == seq![c] + replace_all(t, from, to),
{
    let s = seq![c] + t;
    if from.len() <= s.len() {
        assert(s.subrange(0, from.len() as int)[0] == s[0]);
    }
    assert(!starts_with(s, from));
    assert(s.drop_first() =~= t);
}

/// Replacing in a concatenation replaces in each part, when no occurrence of
/// `from` straddles the joint.
proof fn lemma_replace_split(x: Seq<char>, y: Seq<char>, from: Seq<char>, to: Seq<char>)
    requires
        from.len() > 0,
        forall|i: int|
            0 <= i < x.len() < i + from.len() ==> !#[trigger] occurs_at(x + y, from, i),
    ensures
        replace_all(x + y, from, to) == replace_all(x, from, to) + replace_all(y, from, to),
    decreases x.len(),
{
    let s = x + y;
    if x.len() == 0 {
        assert(s =~= y);
        assert(replace_all(x, from, to) =~= Seq::<char>::empty());
        assert(replace_all(x, from, to) + replace_all(y, from, to) =~= replace_all(y, from, to));
    } else if starts_with(s, from) {
        assert(from.len() <= x.len()) by {
            if from.len() > x.len() {
                assert(occurs_at(s, from, 0));
            }
        }
        assert(x.subrange(0, from.len() as int) =~= s.subrange(0, from.len() as int));
        let f = from.len() as int;
        let x2 = x.skip(f);
        assert(s.skip(f) =~= x2 + y);
        assert forall|i: int| 0 <= i < x2.len() < i + from.len() implies !#[trigger] occurs_at(
            x2 + y,
            from,
            i,
        ) by {
            if occurs_at(x2 + y, from, i) {
                assert((x2 + y).subrange(i, i + f) =~= s.subrange(i + f, i + f + f));
                assert(occurs_at(s, from, i + f));
            }
        }
        lemma_replace_split(x2, y, from, to);
        assert(replace_all(s, from, to) =~= to + replace_all(x2 + y, from, to));
        assert(replace_all(x, from, to) =~= to + replace_all(x2, from, to));
    } else {
        assert(!starts_with(x, from)) by {
            if starts_with(x, from) {
                assert(x.subrange(0, from.len() as int) =~= s.subrange(0, from.len() as int));
            }
        }
        let x2 = x.drop_first();
        assert(s.drop_first() =~= x2 + y);
        assert forall|i: int| 0 <= i < x2.len() < i + from.len() implies !#[trigger] occurs_at(
            x2 + y,
            from,
            i,
        ) by {
            if occurs_at(x2 + y, from, i) {
                assert((x2 + y).subrange(i, i + from.len()) =~= s.subrange(
                    i + 1,
                    i + 1 + from.len(),
                ));
                assert(occurs_at(s, from, i + 1));
            }
        }
        lemma_replace_split(x2, y, from, to);
        assert(replace_all(s, from, to) =~= seq![s[0]] + replace_all(x2 + y, from, to));
        assert(replace_all(x, from, to) =~= seq![x[0]] + replace_all(x2, from, to));
    }
}

/// Replacing across a space: a pattern without spaces is replaced in the
/// words on either side separately.
proof fn lemma_replace_around_space(a: Seq<char>, b: Seq<char>, from: Seq<char>, to: Seq<char>)
    requires
        from.len() > 0,
        forall|i: int| 0 <= i < from.len() ==> #[trigger] from[i] != ' ',
    ensures
        replace_all(a + seq![' '] + b, from, to) == replace_all(a, from, to) + seq![' ']
            + replace_all(b, from, to),
{
    let y = seq![' '] + b;
    assert(a + seq![' '] + b =~= a + y);
    assert forall|i: int| 0 <= i < a.len() < i + from.len() implies !#[trigger] occurs_at(
        a + y,
        from,
        i,
    ) by {
        if occurs_at(a + y, from, i) {
            assert((a + y).subrange(i, i + from.len())[a.len() - i] == (a + y)[a.len() as int]);
            assert(from[a.len() - i] == ' ');
        }
    }
    lemma_replace_split(a, y, from, to);
    lemma_replace_after_other_char(' ', b, from, to);
}

/// A command that starts with `~/` starts, once planned, with the home
/// directory and `/`, followed by the rest of the command planned alone.
pub proof fn law_leading_tilde_becomes_home(rest: Seq<char>, home: Seq<char>)
    ensures
        expand_command("~/"@ + rest, home) == home + "/"@ + expand_command(rest, home),
{
    reveal_strlit("\"~/");
    reveal_strlit("'~/");
    reveal_strlit("~/");
    reveal_strlit("\"");
    reveal_strlit("'");
    reveal_strlit("/");
    let q1 = "\"~/"@;
    let q2 = "'~/"@;
    let t1 = "\""@ + home + "/"@;
    let t2 = "'"@ + home + "/"@;
    let t3 = home + "/"@;
    assert("~/"@ + rest =~= seq!['~'] + (seq!['/'] + rest));
    lemma_replace_after_other_char('~', seq!['/'] + rest, q1, t1);
    lemma_replace_after_other_char('/', rest, q1, t1);
    let c1 = replace_all(rest, q1, t1);
    assert(seq!['~'] + (seq!['/'] + c1) =~= seq!['~'] + (seq!['/'] + c1));
    lemma_replace_after_other_char('~', seq!['/'] + c1, q2, t2);
    lemma_replace_after_other_char('/', c1, q2, t2);
    let c2 = replace_all(c1, q2, t2);
    let s = seq!['~'] + (seq!['/'] + c2);
    assert(s.subrange(0, 2) =~= "~/"@);
    assert(s.skip(2) =~= c2);
    assert(replace_all(s, "~/"@, t3) == t3 + replace_all(c2, "~/"@, t3));
}

/// Planning a command treats the words on either side of a space
/// separately: every `~/` is expanded wherever it stands, not only the
/// first one.
pub proof fn law_command_expands_around_spaces(a: Seq<char>, b: Seq<char>, home: Seq<char>)
    ensures
        expand_command(a + " "@ + b, home) == expand_command(a, home) + " "@ + expand_command(
            b,
            home,
        ),
{
    reveal_strlit("\"~/");
    reveal_strlit("'~/");
    reveal_strlit("~/");
    reveal_strlit(" ");
    let q1 = "\"~/"@;
    let q2 = "'~/"@;
    let q3 = "~/"@;
    let t1 = "\""@ + home + "/"@;
    let t2 = "'"@ + home + "/"@;
    let t3 = home + "/"@;
    assert(" "@ =~= seq![' ']);
    lemma_replace_around_space(a, b, q1, t1);
    let a1 = replace_all(a, q1, t1);
    let b1 = replace_all(b, q1, t1);
    lemma_replace_around_space(a1, b1, q2, t2);
    let a2 = replace_all(a1, q2, t2);
    let b2 = replace_all(b1, q2, t2);
    lemma_replace_around_space(a2, b2, q3, t3);
}

// ---------------------------------------------------------------------------
// Decimal numbers in reports
// ---------------------------------------------------------------------------

/// The value of a decimal digit.
pub open spec fn digit_value(c: char) -> int {
    c as int - '0' as int
}

/// The number that a string of decimal digits denotes.
pub open spec fn decimal_value(s: Seq<char>) -> int
    decreases s.len(),
{
    if s.len() == 0 {
        0
    } else {
        decimal_value(s.drop_last()) * 10 + digit_value(s.last())
    }
}

proof fn lemma_digit(d: nat)
    requires
        d < 10,
    ensures
        digit_value(digit_char(d)) == d,
        '0' <= digit_char(d) <= '9',
        d > 0 ==> digit_char(d) != '0',
{
}

/// A number written in decimal (as reports write sizes and exit codes) is
/// a non-empty string of digits without a leading zero that reads back as
/// the same number.
pub proof fn law_decimal_denotes_number(n: nat)
    ensures
        decimal_value(decimal(n)) == n,
        decimal(n).len() > 0,
        forall|i: int| 0 <= i < decimal(n).len() ==> '0' <= #[trigger] decimal(n)[i] <= '9',
        decimal(n).len() > 1 ==> decimal(n)[0] != '0',
    decreases n,
{
    if n < 10 {
        lemma_digit(n);
        let s = decimal(n);
        assert(s == seq![digit_char(n)]);
        assert(s.drop_last() =~= Seq::<char>::empty());
        assert(decimal_value(s.drop_last()) == 0);
        assert(s.last() == digit_char(n));
    } else {
        let q = n / 10;
        let d = (n % 10) as nat;
        law_decimal_denotes_number(q);
        lemma_digit(d);
        let s = decimal(n);
        assert(s == decimal(q).push(digit_char(d)));
        assert(s.drop_last() =~= decimal(q));
        assert(s.last() == digit_char(d));
        assert(decimal_value(s) == decimal_value(decimal(q)) * 10 + digit_value(digit_char(d)));
        assert(q * 10 + d == n);
        assert(s[0] == decimal(q)[0]);
        if decimal(q).len() == 1 {
            assert(q < 10) by {
                if q >= 10 {
                    law_decimal_denotes_number(q / 10);
                    assert(decimal(q).len() == decimal(q / 10).len() + 1);
                }
            }
            lemma_digit(q);
        }
    }
}

// ---------------------------------------------------------------------------
// Cutting a command's report; listing a directory; expanding a path
// ---------------------------------------------------------------------------

/// A command report longer than `OUTPUT_LIMIT` bytes is cut to a prefix of
/// exactly `OUTPUT_LIMIT` bytes, followed by the truncation marker.
pub proof fn law_long_command_report_is_cut(o: CommandOutput)
    requires
        byte_len(command_text(o)) > OUTPUT_LIMIT,
        is_byte_boundary(command_text(o), OUTPUT_LIMIT as int),
    ensures
        exists|k: int|
            0 <= k <= command_text(o).len() && #[trigger] byte_len(command_text(o).take(k))
                == OUTPUT_LIMIT && run_text(o) == Some(command_text(o).take(k) + "...[truncated]"@),
{
    let t = command_text(o);
    let k = choose|k: int| 0 <= k <= t.len() && #[trigger] byte_len(t.take(k)) == OUTPUT_LIMIT as int;
    assert(prefix_of_bytes(t, OUTPUT_LIMIT as int) == t.take(k));
}

/// A listing shows at most `LIST_LIMIT` entries: entries past the limit
/// change nothing; below it, one more entry adds one more line, its name,
/// with `/` after it when it is a directory.
pub proof fn law_listing_grows_by_lines(entries: Seq<DirEntryInfo>, e: DirEntryInfo)
    ensures
        entries.len() >= LIST_LIMIT ==> list_text(entries.push(e)) == list_text(entries),
        0 < entries.len() < LIST_LIMIT ==> list_text(entries.push(e)) == list_text(entries)
            + "\n"@ + (if e.is_dir { e.name@ + "/"@ } else { e.name@ }),
        list_text(seq![e]) == (if e.is_dir { e.name@ + "/"@ } else { e.name@ }),
{
    let f = |x: DirEntryInfo| entry_label(x);
    let n = LIST_LIMIT as int;
    let longer = entries.push(e);
    if entries.len() >= LIST_LIMIT {
        if entries.len() > LIST_LIMIT {
            assert(longer.take(n) =~= entries.take(n));
        } else {
            assert(longer.take(n) =~= entries);
        }
    } else if entries.len() > 0 {
        let parts = longer.map_values(f);
        assert(parts.drop_last() =~= entries.map_values(f));
        assert(parts.last() == entry_label(e));
    }
    assert(seq![e].map_values(f) =~= seq![entry_label(e)]);
}

/// A path starting with `~/` is taken relative to the home directory when
/// it is known; any other path, or any path when the home directory is
/// unknown, is used as it stands.
pub proof fn law_path_expansion(rest: Seq<char>, path: Seq<char>, home: Option<Seq<char>>)
    ensures
        home matches Some(h) ==> expand_home("~/"@ + rest, home) == h + "/"@ + rest,
        !starts_with(path, "~/"@) ==> expand_home(path, home) == path,
        expand_home(path, None) == path,
{
    reveal_strlit("~/");
    reveal_strlit("/");
    let p = "~/"@ + rest;
    assert(p.subrange(0, 2) =~= "~/"@);
    assert(p.skip(1) =~= "/"@ + rest);
}

/// What the other keys mean, by phase: Enter sends only from the idle
/// phase in text mode; Tab switches the input mode only when idle; in voice
/// mode Space starts recording when idle and stops it while recording; `y`
/// and `n` approve and reject only while a tool call waits.
pub proof fn law_key_meanings_by_phase(state: State, voice_mode: bool)
    ensures
        (key_command(state, voice_mode, Key::Enter) is Submit) == (state == State::Idle
            && !voice_mode),
        (key_command(state, voice_mode, Key::Tab) is ToggleVoice) == (state == State::Idle),
        (key_command(state, true, Key::Char(' ')) is StartRecording) == (state == State::Idle),
        (key_command(state, true, Key::Char(' ')) is StopRecording) == (state
            == State::Recording),
        (key_command(state, voice_mode, Key::Char('y')) is Approve) == (state
            == State::AwaitingApproval),
        (key_command(state, voice_mode, Key::Char('n')) is Reject) == (state
            == State::AwaitingApproval),
{
}

} // verus!
