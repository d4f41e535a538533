use vstd::prelude::*;
use vstd::slice::slice_subrange;
use vstd::utf8::encode_utf8;

use crate::app::{App, AppView, MessageView, State, messages_view, model_display_text};
use crate::text::{
    byte_len, byte_len_exec, byte_prefix, concat2, concat3, decimal, decimal_string,
    is_byte_boundary, prefix_of_bytes, push_char, replace_all, replace_str, same_text,
};
use crate::theme::{boot_line, boot_line_count, boot_lines, ready_line, ready_line_count, ready_lines};

verus! {

// ---------------------------------------------------------------------------
// Styled text
// ---------------------------------------------------------------------------

/// The colour of a piece of text.
#[derive(Clone, Copy, Debug, PartialEq, Eq, Structural)]
pub enum Tone {
    /// The terminal's default.
    Plain,
    Primary,
    Dim,
    Accent,
    Alert,
    User,
    Border,
    /// Background colour on the primary colour.
    Inverse,
    /// Background colour on the alert colour.
    AlertInverse,
}

/// How a piece of text stands out.
#[derive(Clone, Copy, Debug, PartialEq, Eq, Structural)]
pub enum Emphasis {
    Normal,
    Bold,
    SlowBlink,
    RapidBlink,
}

/// A piece of styled text.
pub struct Span {
    pub text: String,
    pub tone: Tone,
    pub emphasis: Emphasis,
}

#[verifier::ext_equal]
pub struct SpanView {
    pub text: Seq<char>,
    pub tone: Tone,
    pub emphasis: Emphasis,
}

impl View for Span {
    type V = SpanView;

    open spec fn view(&self) -> SpanView {
        SpanView { text: self.text@, tone: self.tone, emphasis: self.emphasis }
    }
}

pub open spec fn sv(text: Seq<char>, tone: Tone, emphasis: Emphasis) -> SpanView {
    SpanView { text, tone, emphasis }
}

pub open spec fn plain(text: Seq<char>, tone: Tone) -> SpanView {
    sv(text, tone, Emphasis::Normal)
}

/// A line holding one unstyled piece of text.
pub open spec fn raw_line(text: Seq<char>) -> Seq<SpanView> {
    seq![sv(text, Tone::Plain, Emphasis::Normal)]
}

pub open spec fn line_view(l: Seq<Span>) -> Seq<SpanView> {
    l.map_values(|s: Span| s@)
}

pub open spec fn lines_view(ls: Seq<Vec<Span>>) -> Seq<Seq<SpanView>> {
    ls.map_values(|l: Vec<Span>| line_view(l@))
}

fn mk(text: String, tone: Tone, emphasis: Emphasis) -> (s: Span)
    ensures
        s@ == sv(text@, tone, emphasis),
{
    Span { text, tone, emphasis }
}

fn push_span(line: &mut Vec<Span>, s: Span)
    ensures
        line_view(final(line)@) == line_view(old(line)@).push(s@),
{
    let ghost before = line@;
    line.push(s);
    assert(line_view(line@) =~= line_view(before).push(s@));
}

fn push_line(out: &mut Vec<Vec<Span>>, line: Vec<Span>)
    ensures
        lines_view(final(out)@) == lines_view(old(out)@).push(line_view(line@)),
{
    let ghost before = out@;
    let ghost lv = line_view(line@);
    out.push(line);
    assert(lines_view(out@) =~= lines_view(before).push(lv));
}

fn one_span_line(text: String, tone: Tone, emphasis: Emphasis) -> (l: Vec<Span>)
    ensures
        line_view(l@) == seq![sv(text@, tone, emphasis)],
{
    let mut l: Vec<Span> = Vec::new();
    push_span(&mut l, mk(text, tone, emphasis));
    assert(line_view(Seq::<Span>::empty()) =~= Seq::<SpanView>::empty());
    assert(seq![sv(text@, tone, emphasis)] =~= Seq::<SpanView>::empty().push(
        sv(text@, tone, emphasis),
    ));
    l
}

fn empty_line_vec() -> (l: Vec<Span>)
    ensures
        line_view(l@) == Seq::<SpanView>::empty(),
{
    let l: Vec<Span> = Vec::new();
    assert(line_view(l@) =~= Seq::<SpanView>::empty());
    l
}

// ---------------------------------------------------------------------------
// Header, status bar and input line
// ---------------------------------------------------------------------------

/// The header: the system's name and the model's.
pub open spec fn header_line(display: Seq<char>) -> Seq<SpanView> {
    seq![
        sv(" TERMINATOR "@, Tone::Primary, Emphasis::Bold),
        plain("OS v1.0.0 "@, Tone::Dim),
        plain("│ "@, Tone::Border),
        plain("NEURAL CORE: "@, Tone::Dim),
        plain(display, Tone::Accent),
    ]
}

/// The header line for the application.
pub fn header_spans(app: &App) -> (r: Vec<Span>)
    ensures
        line_view(r@) == header_line(model_display_text(app.model_id@)),
{
    let mut r = empty_line_vec();
    push_span(&mut r, mk(" TERMINATOR ".to_string(), Tone::Primary, Emphasis::Bold));
    push_span(&mut r, mk("OS v1.0.0 ".to_string(), Tone::Dim, Emphasis::Normal));
    push_span(&mut r, mk("│ ".to_string(), Tone::Border, Emphasis::Normal));
    push_span(&mut r, mk("NEURAL CORE: ".to_string(), Tone::Dim, Emphasis::Normal));
    push_span(&mut r, mk(app.model_display(), Tone::Accent, Emphasis::Normal));
    assert(line_view(r@) =~= header_line(model_display_text(app.model_id@)));
    r
}

/// The status bar: the input mode, the status text and the key hints.
pub open spec fn status_line(voice_mode: bool, status: Seq<char>) -> Seq<SpanView> {
    seq![
        plain(" ["@ + (if voice_mode { "VOICE"@ } else { "TEXT"@ }) + "] "@, Tone::Accent),
        plain(status, Tone::Dim),
        plain("  [TAB] mode  [ESC] quit"@, Tone::Dim),
    ]
}

/// The status bar for the application.
pub fn status_spans(app: &App) -> (r: Vec<Span>)
    ensures
        line_view(r@) == status_line(app.voice_mode, app.status@),
{
    let mode = if app.voice_mode {
        "VOICE"
    } else {
        "TEXT"
    };
    let mut r = empty_line_vec();
    push_span(&mut r, mk(concat3(" [", mode, "] "), Tone::Accent, Emphasis::Normal));
    push_span(&mut r, mk(app.status.clone(), Tone::Dim, Emphasis::Normal));
    push_span(&mut r, mk("  [TAB] mode  [ESC] quit".to_string(), Tone::Dim, Emphasis::Normal));
    assert(line_view(r@) =~= status_line(app.voice_mode, app.status@));
    r
}

/// The input line: while recording, the elapsed time and the live
/// waveform `wave`; otherwise what the user can do, or has typed.
pub open spec fn input_line(
    state: State,
    voice_mode: bool,
    input: Seq<char>,
    secs: nat,
    wave: Seq<char>,
) -> Seq<SpanView> {
    if state == State::Recording {
        seq![
            sv(" 🎤 REC "@, Tone::AlertInverse, Emphasis::Bold),
            sv(" "@ + decimal(secs) + "s/28s "@, Tone::Accent, Emphasis::Bold),
            plain(wave, Tone::Primary),
        ]
    } else {
        let label = if state == State::Processing {
            "⏳"@
        } else if voice_mode {
            "🎤 VOICE"@
        } else {
            "⌨ INPUT"@
        };
        let content = if state == State::Processing {
            "[ processing... ]"@
        } else if voice_mode {
            "Tap [SPACE] to speak"@
        } else {
            input
        };
        let display = if state == State::Processing || voice_mode {
            content
        } else {
            content + "▌"@
        };
        seq![
            sv(" "@ + label + " "@, Tone::Inverse, Emphasis::Bold),
            plain(" "@, Tone::Primary),
            plain(display, Tone::Primary),
        ]
    }
}

/// The width left for the waveform in an input box `area_width` wide.
pub open spec fn wave_width(area_width: nat) -> nat {
    if area_width >= 20 {
        (area_width - 20) as nat
    } else {
        0
    }
}

/// How many characters of waveform fit in an input box `area_width` wide.
pub fn waveform_width(area_width: u16) -> (w: usize)
    ensures
        w == wave_width(area_width as nat),
{
    (area_width as usize).saturating_sub(20)
}

/// The input line for the application; `secs` is how long the recording
/// has run and `wave` its waveform (both only shown while recording).
pub fn input_spans(app: &App, secs: u64, wave: &str) -> (r: Vec<Span>)
    ensures
        line_view(r@) == input_line(app.state, app.voice_mode, app.input@, secs as nat, wave@),
{
    let mut r = empty_line_vec();
    if app.state == State::Recording {
        push_span(&mut r, mk(" 🎤 REC ".to_string(), Tone::AlertInverse, Emphasis::Bold));
        let digits = decimal_string(secs);
        push_span(&mut r, mk(concat3(" ", digits.as_str(), "s/28s "), Tone::Accent, Emphasis::Bold));
        push_span(&mut r, mk(wave.to_string(), Tone::Primary, Emphasis::Normal));
    } else {
        let label = if app.state == State::Processing {
            "⏳"
        } else if app.voice_mode {
            "🎤 VOICE"
        } else {
            "⌨ INPUT"
        };
        let display = if app.state == State::Processing {
            "[ processing... ]".to_string()
        } else if app.voice_mode {
            "Tap [SPACE] to speak".to_string()
        } else {
            concat2(app.input.as_str(), "▌")
        };
        push_span(&mut r, mk(concat3(" ", label, " "), Tone::Inverse, Emphasis::Bold));
        push_span(&mut r, mk(" ".to_string(), Tone::Primary, Emphasis::Normal));
        push_span(&mut r, mk(display, Tone::Primary, Emphasis::Normal));
    }
    assert(line_view(r@) =~= input_line(app.state, app.voice_mode, app.input@, secs as nat, wave@));
    r
}

// ---------------------------------------------------------------------------
// The approval popup
// ---------------------------------------------------------------------------

/// A rectangle of the terminal, in cells.
pub struct Area {
    pub x: u16,
    pub y: u16,
    pub width: u16,
    pub height: u16,
}

pub open spec fn sat_sub(a: int, b: int) -> int {
    if a >= b {
        a - b
    } else {
        0
    }
}

pub open spec fn min(a: int, b: int) -> int {
    if a <= b {
        a
    } else {
        b
    }
}

/// Where the approval popup goes in a screen `width` by `height`: 56 by 11
/// cells when there is room (keeping a margin of 4), centred.
pub open spec fn popup_spec(width: int, height: int) -> (int, int, int, int) {
    let w = min(56, sat_sub(width, 4));
    let h = min(11, sat_sub(height, 4));
    (sat_sub(width, w) / 2, sat_sub(height, h) / 2, w, h)
}

/// The area of the approval popup on a screen `width` by `height`.
pub fn popup_area(width: u16, height: u16) -> (a: Area)
    ensures
        (a.x as int, a.y as int, a.width as int, a.height as int) == popup_spec(
            width as int,
            height as int,
        ),
        a.x + a.width <= width,
        a.y + a.height <= height,
{
    let room_w = width.saturating_sub(4);
    let w: u16 = if 56 <= room_w {
        56
    } else {
        room_w
    };
    let room_h = height.saturating_sub(4);
    let h: u16 = if 11 <= room_h {
        11
    } else {
        room_h
    };
    let x = width.saturating_sub(w) / 2;
    let y = height.saturating_sub(h) / 2;
    Area { x, y, width: w, height: h }
}

/// The lines of the approval popup for a tool call.
pub open spec fn popup_lines(tool: Seq<char>, display: Seq<char>) -> Seq<Seq<SpanView>> {
    seq![
        raw_line(""@),
        seq![sv("  ⚠  TERMINATOR REQUESTS ACCESS"@, Tone::Accent, Emphasis::Bold)],
        raw_line(""@),
        seq![plain("  ACTION: "@, Tone::Dim), sv(tool, Tone::Primary, Emphasis::Bold)],
        seq![plain("  TARGET: "@, Tone::Dim), plain(display, Tone::Primary)],
        raw_line(""@),
        raw_line(""@),
        seq![
            sv("     [Y] "@, Tone::Primary, Emphasis::Bold),
            plain("APPROVE     "@, Tone::Primary),
            sv("    [N] "@, Tone::Alert, Emphasis::Bold),
            plain("REJECT"@, Tone::Alert),
        ],
    ]
}

/// The popup's lines for the pending tool call `tool`, shown as `display`.
pub fn popup_text(tool: &str, display: &str) -> (r: Vec<Vec<Span>>)
    ensures
        lines_view(r@) == popup_lines(tool@, display@),
{
    let mut r: Vec<Vec<Span>> = Vec::new();
    assert(lines_view(r@) =~= Seq::<Seq<SpanView>>::empty());
    push_line(&mut r, one_span_line("".to_string(), Tone::Plain, Emphasis::Normal));
    push_line(
        &mut r,
        one_span_line("  ⚠  TERMINATOR REQUESTS ACCESS".to_string(), Tone::Accent, Emphasis::Bold),
    );
    push_line(&mut r, one_span_line("".to_string(), Tone::Plain, Emphasis::Normal));
    let mut action = empty_line_vec();
    push_span(&mut action, mk("  ACTION: ".to_string(), Tone::Dim, Emphasis::Normal));
    push_span(&mut action, mk(tool.to_string(), Tone::Primary, Emphasis::Bold));
    assert(line_view(action@) =~= seq![
        plain("  ACTION: "@, Tone::Dim),
        sv(tool@, Tone::Primary, Emphasis::Bold),
    ]);
    push_line(&mut r, action);
    let mut target = empty_line_vec();
    push_span(&mut target, mk("  TARGET: ".to_string(), Tone::Dim, Emphasis::Normal));
    push_span(&mut target, mk(display.to_string(), Tone::Primary, Emphasis::Normal));
    assert(line_view(target@) =~= seq![
        plain("  TARGET: "@, Tone::Dim),
        plain(display@, Tone::Primary),
    ]);
    push_line(&mut r, target);
    push_line(&mut r, one_span_line("".to_string(), Tone::Plain, Emphasis::Normal));
    push_line(&mut r, one_span_line("".to_string(), Tone::Plain, Emphasis::Normal));
    let mut keys = empty_line_vec();
    push_span(&mut keys, mk("     [Y] ".to_string(), Tone::Primary, Emphasis::Bold));
    push_span(&mut keys, mk("APPROVE     ".to_string(), Tone::Primary, Emphasis::Normal));
    push_span(&mut keys, mk("    [N] ".to_string(), Tone::Alert, Emphasis::Bold));
    push_span(&mut keys, mk("REJECT".to_string(), Tone::Alert, Emphasis::Normal));
    assert(line_view(keys@) =~= seq![
        sv("     [Y] "@, Tone::Primary, Emphasis::Bold),
        plain("APPROVE     "@, Tone::Primary),
        sv("    [N] "@, Tone::Alert, Emphasis::Bold),
        plain("REJECT"@, Tone::Alert),
    ]);
    push_line(&mut r, keys);
    assert(lines_view(r@) =~= popup_lines(tool@, display@));
    r
}

// ---------------------------------------------------------------------------
// The conversation pane
// ---------------------------------------------------------------------------

/// What `String::from_utf8_lossy` makes of a byte sequence: its UTF-8
/// decoding, with invalid sequences replaced by U+FFFD.
pub uninterp spec fn utf8_lossy(b: Seq<u8>) -> Seq<char>;

/// Trusted: calls `String::from_utf8_lossy`, whose result depends on the
/// bytes alone; for valid UTF-8 its documentation gives the decoded text.
#[verifier::external_body]
fn lossy_text(b: &[u8]) -> (r: String)
    ensures
        r@ == utf8_lossy(b@),
        vstd::utf8::valid_utf8(b@) ==> r@ == vstd::utf8::decode_utf8(b@),
{
    String::from_utf8_lossy(b).to_string()
}

/// The text shown for a piece of bytes: its UTF-8 decoding when it is
/// valid UTF-8, and otherwise what the lossy decoding makes of it.
pub open spec fn chunk_text(b: Seq<u8>) -> Seq<char> {
    if vstd::utf8::valid_utf8(b) {
        vstd::utf8::decode_utf8(b)
    } else {
        utf8_lossy(b)
    }
}

pub open spec fn strings_view(v: Seq<String>) -> Seq<Seq<char>> {
    v.map_values(|s: String| s@)
}

/// `n` copies of `c`.
pub open spec fn repeat_char(c: char, n: nat) -> Seq<char> {
    Seq::new(n, |i: int| c)
}

/// How many of the 30 cells of the progress bar are filled at `pct` percent.
pub open spec fn bar_filled(pct: nat) -> nat {
    pct * 30 / 100
}

/// The loading progress bar at `pct` percent (meaningful up to 100).
pub open spec fn progress_bar(pct: nat) -> Seq<char> {
    "  ["@ + repeat_char('█', bar_filled(pct)) + repeat_char('░', (30 - bar_filled(pct)) as nat)
        + "] "@ + decimal(pct) + "%"@
}

pub open spec fn boot_row(i: int, display: Seq<char>) -> Seq<SpanView> {
    seq![plain(replace_all(boot_line(i), "{}"@, display), Tone::Primary)]
}

pub open spec fn ready_row(i: int, display: Seq<char>) -> Seq<SpanView> {
    seq![plain(replace_all(ready_line(i), "{}"@, display), Tone::Primary)]
}

/// The boot part of the conversation pane: the boot lines shown so far,
/// and while loading the ready lines and the progress bar. `None` where the
/// progress is so far past 100 that the bar cannot be drawn.
pub open spec fn boot_section(v: AppView, display: Seq<char>) -> Option<Seq<Seq<SpanView>>> {
    if v.state == State::Booting || v.state == State::Loading {
        let shown = min(v.boot_step as int, boot_line_count() as int) as nat;
        let boot = Seq::new(shown, |i: int| boot_row(i, display));
        if v.state == State::Loading {
            if bar_filled(v.loading_pct) > 30 {
                None
            } else {
                Some(
                    boot + Seq::new(ready_line_count(), |i: int| ready_row(i, display)) + seq![
                        raw_line(seq![]),
                        seq![plain(progress_bar(v.loading_pct), Tone::Accent)],
                        seq![sv("Loading model... please wait."@, Tone::Accent, Emphasis::SlowBlink)],
                    ],
                )
            }
        } else {
            Some(boot)
        }
    } else {
        Some(seq![])
    }
}

/// The texts of `b` cut into pieces of `width` bytes (see `chunk_text`).
pub open spec fn lossy_chunks(b: Seq<u8>, width: nat) -> Seq<Seq<char>>
    decreases b.len(),
{
    if b.len() == 0 || width == 0 {
        seq![]
    } else if b.len() <= width {
        seq![chunk_text(b)]
    } else {
        seq![chunk_text(b.take(width as int))] + lossy_chunks(b.skip(width as int), width)
    }
}

/// A text laid out with `first_w` bytes on its first line and `width` bytes
/// on each further line: the first line's text and the further lines.
/// `None` where the cut after `first_w` bytes would split a character, or
/// where further lines are needed but have no room.
pub open spec fn wrap_text(content: Seq<char>, first_w: nat, width: nat) -> Option<
    (Seq<char>, Seq<Seq<char>>),
> {
    if byte_len(content) <= first_w {
        Some((content, seq![]))
    } else if !is_byte_boundary(content, first_w as int) || width == 0 {
        None
    } else {
        Some(
            (
                prefix_of_bytes(content, first_w as int),
                lossy_chunks(encode_utf8(content).skip(first_w as int), width),
            ),
        )
    }
}

pub open spec fn prefix_width(is_user: bool) -> nat {
    if is_user {
        8
    } else {
        6
    }
}

pub open spec fn continuation_rows(rest: Seq<Seq<char>>, tone: Tone) -> Seq<Seq<SpanView>> {
    rest.map_values(|t: Seq<char>| seq![plain(t, tone)])
}

/// The lines of one conversation entry in a pane `width` bytes wide.
pub open spec fn message_lines(m: MessageView, width: nat) -> Option<Seq<Seq<SpanView>>> {
    let is_user = m.role == "user"@;
    let prefix = if is_user {
        "> USER: "@
    } else {
        "> AI: "@
    };
    let tone = if is_user {
        Tone::User
    } else {
        Tone::Primary
    };
    match wrap_text(m.content, sat_sub(width as int, prefix_width(is_user) as int) as nat, width) {
        None => None,
        Some((first, rest)) => Some(
            seq![raw_line(seq![]), seq![sv(prefix, tone, Emphasis::Bold), plain(first, tone)]]
                + continuation_rows(rest, tone),
        ),
    }
}

/// The lines of all conversation entries.
pub open spec fn messages_section(msgs: Seq<MessageView>, width: nat) -> Option<
    Seq<Seq<SpanView>>,
>
    decreases msgs.len(),
{
    if msgs.len() == 0 {
        Some(seq![])
    } else {
        match (messages_section(msgs.drop_last(), width), message_lines(msgs.last(), width)) {
            (Some(a), Some(b)) => Some(a + b),
            _ => None,
        }
    }
}

pub open spec fn cursor() -> SpanView {
    sv("▌"@, Tone::Primary, Emphasis::RapidBlink)
}

/// The lines of the reply being streamed, ending with a blinking cursor.
pub open spec fn streaming_lines(cur: Seq<char>, width: nat) -> Option<Seq<Seq<SpanView>>> {
    if cur.len() == 0 {
        Some(seq![])
    } else {
        let prefix = sv("> AI: "@, Tone::Primary, Emphasis::Bold);
        match wrap_text(cur, sat_sub(width as int, 6) as nat, width) {
            None => None,
            Some((first, rest)) => if rest.len() == 0 {
                Some(seq![raw_line(seq![]), seq![prefix, plain(first, Tone::Primary), cursor()]])
            } else {
                Some(
                    seq![raw_line(seq![]), seq![prefix, plain(first, Tone::Primary)]]
                        + continuation_rows(rest.drop_last(), Tone::Primary) + seq![
                        seq![plain(rest.last(), Tone::Primary), cursor()],
                    ],
                )
            },
        }
    }
}

/// The conversation pane's lines for a pane `area_width` cells wide (two
/// of them are border). `None` where laying out the text fails.
pub open spec fn chat_spec(v: AppView, display: Seq<char>, area_width: nat) -> Option<
    Seq<Seq<SpanView>>,
> {
    let width = sat_sub(area_width as int, 2) as nat;
    match (
        boot_section(v, display),
        messages_section(v.messages, width),
        streaming_lines(v.current_response, width),
    ) {
        (Some(a), Some(b), Some(c)) => Some(a + b + c),
        _ => None,
    }
}

fn push_repeat(s: &mut String, c: char, n: usize)
    ensures
        final(s)@ == old(s)@ + repeat_char(c, n as nat),
{
    let mut i: usize = 0;
    let ghost start = s@;
    while i < n
        invariant
            i <= n,
            s@ == start + repeat_char(c, i as nat),
        decreases n - i,
    {
        push_char(s, c);
        assert(start + repeat_char(c, (i + 1) as nat) =~= (start + repeat_char(c, i as nat)).push(c));
        i += 1;
    }
}

/// The loading progress bar at `pct` percent; `None` past the point where
/// the bar overflows its 30 cells.
pub fn progress_bar_text(pct: u8) -> (r: Option<String>)
    ensures
        bar_filled(pct as nat) <= 30 ==> (r matches Some(t) && t@ == progress_bar(pct as nat)),
        bar_filled(pct as nat) > 30 ==> r is None,
{
    let p = pct as usize;
    let filled = p * 30 / 100;
    if filled > 30 {
        return None;
    }
    let mut s = "  [".to_string();
    push_repeat(&mut s, '█', filled);
    push_repeat(&mut s, '░', 30 - filled);
    s.append("] ");
    let digits = decimal_string(pct as u64);
    s.append(digits.as_str());
    s.append("%");
    Some(s)
}

fn push_boot_rows(
    out: &mut Vec<Vec<Span>>,
    rows: &Vec<&'static str>,
    count: usize,
    display: &str,
    which: Ghost<spec_fn(int) -> Seq<char>>,
)
    requires
        count <= rows@.len(),
        forall|i: int| 0 <= i < rows@.len() ==> (#[trigger] rows@[i])@ == which@(i),
    ensures
        lines_view(final(out)@) == lines_view(old(out)@) + Seq::new(
            count as nat,
            |i: int| seq![plain(replace_all(which@(i), "{}"@, display@), Tone::Primary)],
        ),
{
    let ghost start = lines_view(out@);
    let ghost f = |i: int| seq![plain(replace_all(which@(i), "{}"@, display@), Tone::Primary)];
    let mut i: usize = 0;
    proof {
        reveal_strlit("{}");
    }
    assert(start + Seq::new(0, f) =~= start);
    while i < count
        invariant
            i <= count <= rows@.len(),
            forall|k: int| 0 <= k < rows@.len() ==> (#[trigger] rows@[k])@ == which@(k),
            lines_view(out@) == start + Seq::new(i as nat, f),
            f == (|i: int| seq![plain(replace_all(which@(i), "{}"@, display@), Tone::Primary)]),
            "{}"@.len() > 0,
        decreases count - i,
    {
        let text = replace_str(rows[i], "{}", display);
        let line = one_span_line(text, Tone::Primary, Emphasis::Normal);
        push_line(out, line);
        assert(start + Seq::new((i + 1) as nat, f) =~= (start + Seq::new(i as nat, f)).push(f(i as int)));
        i += 1;
    }
}

/// Lays out `content` with `first_w` bytes on the first line and `width`
/// bytes on each further line.
fn wrap_exec(content: &str, first_w: usize, width: usize) -> (r: Option<(String, Vec<String>)>)
    ensures
        match wrap_text(content@, first_w as nat, width as nat) {
            None => r is None,
            Some((first, rest)) => r matches Some((a, b)) && a@ == first && strings_view(b@)
                == rest,
        },
{
    let n = byte_len_exec(content);
    if n <= first_w {
        let empty: Vec<String> = Vec::new();
        assert(strings_view(empty@) =~= Seq::<Seq<char>>::empty());
        return Some((content.to_string(), empty));
    }
    if width == 0 {
        return None;
    }
    let first = match byte_prefix(content, first_w) {
        None => {
            return None;
        },
        Some(p) => p,
    };
    let b = content.as_bytes();
    let mut rest: Vec<String> = Vec::new();
    let mut i: usize = first_w;
    assert(strings_view(rest@) + lossy_chunks(b@.skip(i as int), width as nat) =~= lossy_chunks(
        b@.skip(first_w as int),
        width as nat,
    ));
    while i < n
        invariant
            n == b@.len(),
            first_w <= i <= n,
            width > 0,
            lossy_chunks(b@.skip(first_w as int), width as nat) == strings_view(rest@)
                + lossy_chunks(b@.skip(i as int), width as nat),
        decreases n - i,
    {
        let ghost tail = b@.skip(i as int);
        let end = if width >= n - i {
            n
        } else {
            i + width
        };
        let chunk = slice_subrange(b, i, end);
        let text = lossy_text(chunk);
        let ghost before = rest@;
        rest.push(text);
        if end == n {
            assert(chunk@ =~= tail);
            assert(b@.skip(n as int) =~= Seq::<u8>::empty());
        } else {
            assert(chunk@ =~= tail.take(width as int));
            assert(tail.skip(width as int) =~= b@.skip(end as int));
        }
        assert(strings_view(rest@) =~= strings_view(before).push(text@));
        assert(lossy_chunks(tail, width as nat) == seq![chunk_text(chunk@)] + lossy_chunks(
            b@.skip(end as int),
            width as nat,
        ));
        i = end;
    }
    assert(b@.skip(i as int) =~= Seq::<u8>::empty());
    assert(strings_view(rest@) + Seq::<Seq<char>>::empty() =~= strings_view(rest@));
    Some((first, rest))
}

fn push_rows(out: &mut Vec<Vec<Span>>, rows: &Vec<String>, upto: usize, tone: Tone)
    requires
        upto <= rows@.len(),
    ensures
        lines_view(final(out)@) == lines_view(old(out)@) + continuation_rows(
            strings_view(rows@).take(upto as int),
            tone,
        ),
{
    let ghost start = lines_view(out@);
    let mut i: usize = 0;
    assert(continuation_rows(strings_view(rows@).take(0), tone) =~= Seq::<Seq<SpanView>>::empty());
    while i < upto
        invariant
            i <= upto <= rows@.len(),
            lines_view(out@) == start + continuation_rows(strings_view(rows@).take(i as int), tone),
        decreases upto - i,
    {
        let line = one_span_line(rows[i].clone(), tone, Emphasis::Normal);
        push_line(out, line);
        assert(continuation_rows(strings_view(rows@).take(i + 1), tone) =~= continuation_rows(
            strings_view(rows@).take(i as int),
            tone,
        ).push(seq![plain(rows@[i as int]@, tone)]));
        i += 1;
    }
}

/// Appends the lines of one conversation entry; returns false where the
/// layout fails.
fn push_message_lines(out: &mut Vec<Vec<Span>>, role: &str, content: &str, width: usize) -> (ok: bool)
    ensures
        ok == (message_lines(MessageView { role: role@, content: content@ }, width as nat) is Some),
        ok ==> lines_view(final(out)@) == lines_view(old(out)@) + message_lines(
            MessageView { role: role@, content: content@ },
            width as nat,
        )->0,
{
    let is_user = same_text(role, "user");
    let prefix = if is_user {
        "> USER: "
    } else {
        "> AI: "
    };
    let tone = if is_user {
        Tone::User
    } else {
        Tone::Primary
    };
    let pw: usize = if is_user {
        8
    } else {
        6
    };
    let first_w = width.saturating_sub(pw);
    match wrap_exec(content, first_w, width) {
        None => false,
        Some((first, rest)) => {
            let ghost start = lines_view(out@);
            push_line(out, one_span_line(String::new(), Tone::Plain, Emphasis::Normal));
            let mut head = empty_line_vec();
            let ghost first_v = first@;
            push_span(&mut head, mk(prefix.to_string(), tone, Emphasis::Bold));
            push_span(&mut head, mk(first, tone, Emphasis::Normal));
            assert(line_view(head@) =~= seq![sv(prefix@, tone, Emphasis::Bold), plain(first_v, tone)]);
            push_line(out, head);
            push_rows(out, &rest, rest.len(), tone);
            assert(strings_view(rest@).take(rest@.len() as int) =~= strings_view(rest@));
            assert(message_lines(MessageView { role: role@, content: content@ }, width as nat)
                == Some(
                seq![raw_line(seq![]), seq![sv(prefix@, tone, Emphasis::Bold), plain(first_v, tone)]]
                    + continuation_rows(strings_view(rest@), tone),
            ));
            assert(lines_view(out@) =~= start + message_lines(
                MessageView { role: role@, content: content@ },
                width as nat,
            )->0);
            true
        },
    }
}

/// Appends the lines of the reply being streamed; returns false where the
/// layout fails.
fn push_streaming_lines(out: &mut Vec<Vec<Span>>, cur: &str, width: usize) -> (ok: bool)
    ensures
        ok == (streaming_lines(cur@, width as nat) is Some),
        ok ==> lines_view(final(out)@) == lines_view(old(out)@) + streaming_lines(
            cur@,
            width as nat,
        )->0,
{
    if cur.is_empty() {
        assert(lines_view(out@) + Seq::<Seq<SpanView>>::empty() =~= lines_view(out@));
        return true;
    }
    let first_w = width.saturating_sub(6);
    match wrap_exec(cur, first_w, width) {
        None => false,
        Some((first, rest)) => {
            let ghost start = lines_view(out@);
            push_line(out, one_span_line(String::new(), Tone::Plain, Emphasis::Normal));
            let mut head = empty_line_vec();
            let ghost first_v = first@;
            let ghost prefix = sv("> AI: "@, Tone::Primary, Emphasis::Bold);
            push_span(&mut head, mk("> AI: ".to_string(), Tone::Primary, Emphasis::Bold));
            push_span(&mut head, mk(first, Tone::Primary, Emphasis::Normal));
            if rest.len() == 0 {
                push_span(&mut head, mk("▌".to_string(), Tone::Primary, Emphasis::RapidBlink));
                assert(line_view(head@) =~= seq![prefix, plain(first_v, Tone::Primary), cursor()]);
                push_line(out, head);
                assert(lines_view(out@) =~= start + streaming_lines(cur@, width as nat)->0);
            } else {
                assert(line_view(head@) =~= seq![prefix, plain(first_v, Tone::Primary)]);
                push_line(out, head);
                let k = rest.len() - 1;
                push_rows(out, &rest, k, Tone::Primary);
                let mut last = empty_line_vec();
                push_span(&mut last, mk(rest[k].clone(), Tone::Primary, Emphasis::Normal));
                push_span(&mut last, mk("▌".to_string(), Tone::Primary, Emphasis::RapidBlink));
                assert(line_view(last@) =~= seq![plain(strings_view(rest@).last(), Tone::Primary), cursor()]);
                push_line(out, last);
                assert(strings_view(rest@).take(k as int) =~= strings_view(rest@).drop_last());
                assert(lines_view(out@) =~= start + streaming_lines(cur@, width as nat)->0);
            }
            true
        },
    }
}

proof fn lemma_section_none(msgs: Seq<MessageView>, k: int, width: nat)
    requires
        0 <= k <= msgs.len(),
        messages_section(msgs.take(k), width) is None,
    ensures
        messages_section(msgs, width) is None,
    decreases msgs.len() - k,
{
    if k == msgs.len() {
        assert(msgs.take(k) =~= msgs);
    } else {
        assert(msgs.take(k + 1).drop_last() =~= msgs.take(k));
        lemma_section_none(msgs, k + 1, width);
    }
}

/// The lines of the conversation pane for a pane `area_width` cells wide;
/// `None` where the layout fails (a cut that would split a character, a
/// pane too narrow for a wrapped line, or a progress bar past its end).
pub fn chat_lines(app: &App, area_width: u16) -> (r: Option<Vec<Vec<Span>>>)
    ensures
        match chat_spec(app@, model_display_text(app.model_id@), area_width as nat) {
            None => r is None,
            Some(ls) => r matches Some(v) && lines_view(v@) == ls,
        },
{
    let ghost v = app@;
    let display = app.model_display();
    let width = (area_width as usize).saturating_sub(2);
    let mut out: Vec<Vec<Span>> = Vec::new();
    assert(lines_view(out@) =~= Seq::<Seq<SpanView>>::empty());
    // The boot sequence.
    if app.state == State::Booting || app.state == State::Loading {
        let boot = boot_lines();
        let shown = if app.boot_step < boot.len() {
            app.boot_step
        } else {
            boot.len()
        };
        push_boot_rows(&mut out, &boot, shown, display.as_str(), Ghost(|i: int| boot_line(i)));
        assert(Seq::new(shown as nat, |i: int| seq![plain(replace_all((|i: int| boot_line(i))(i), "{}"@, display@), Tone::Primary)])
            =~= Seq::new(shown as nat, |i: int| boot_row(i, display@)));
        if app.state == State::Loading {
            let bar = match progress_bar_text(app.loading_pct) {
                None => {
                    return None;
                },
                Some(b) => b,
            };
            let ready = ready_lines();
            push_boot_rows(&mut out, &ready, ready.len(), display.as_str(), Ghost(|i: int| ready_line(i)));
            assert(Seq::new(ready_line_count(), |i: int| seq![plain(replace_all((|i: int| ready_line(i))(i), "{}"@, display@), Tone::Primary)])
                =~= Seq::new(ready_line_count(), |i: int| ready_row(i, display@)));
            push_line(&mut out, one_span_line(String::new(), Tone::Plain, Emphasis::Normal));
            push_line(&mut out, one_span_line(bar, Tone::Accent, Emphasis::Normal));
            push_line(
                &mut out,
                one_span_line(
                    "Loading model... please wait.".to_string(),
                    Tone::Accent,
                    Emphasis::SlowBlink,
                ),
            );
        }
        assert(boot_section(v, display@) is Some);
        assert(lines_view(out@) =~= boot_section(v, display@)->0);
    }
    let ghost boot_part = lines_view(out@);
    assert(boot_section(v, display@) == Some(boot_part));
    // The conversation.
    let n = app.messages.len();
    let mut i: usize = 0;
    assert(messages_view(app.messages@).take(0) =~= Seq::<MessageView>::empty());
    assert(boot_part + Seq::<Seq<SpanView>>::empty() =~= boot_part);
    while i < n
        invariant
            n == app.messages@.len(),
            i <= n,
            app@ == v,
            width as int == sat_sub(area_width as int, 2),
            messages_section(v.messages.take(i as int), width as nat) is Some,
            lines_view(out@) == boot_part + messages_section(
                v.messages.take(i as int),
                width as nat,
            )->0,
        decreases n - i,
    {
        let m = &app.messages[i];
        let ghost before = lines_view(out@);
        let ghost mv = v.messages[i as int];
        assert(mv == m@);
        assert(v.messages.take(i + 1).drop_last() =~= v.messages.take(i as int));
        assert(v.messages.take(i + 1).last() == mv);
        if !push_message_lines(&mut out, m.role.as_str(), m.content.as_str(), width) {
            proof {
                assert(MessageView { role: m.role@, content: m.content@ } == mv);
                assert(messages_section(v.messages.take(i + 1), width as nat) is None);
                lemma_section_none(v.messages, i + 1, width as nat);
            }
            return None;
        }
        i += 1;
    }
    assert(v.messages.take(n as int) =~= v.messages);
    // The reply being streamed.
    if !push_streaming_lines(&mut out, app.current_response.as_str(), width) {
        return None;
    }
    Some(out)
}

/// The first line shown of `line_count` lines in a pane `area_height` cells
/// high (two of them are border), so that the last line is visible. The
/// line count is taken modulo 2^16, as a 16-bit terminal coordinate.
pub fn scroll_offset(line_count: usize, area_height: u16) -> (r: u16)
    ensures
        r == sat_sub(line_count as int % 65536, sat_sub(area_height as int, 2)),
{
    let total = (line_count % 65536) as u16;
    let visible = area_height.saturating_sub(2);
    total.saturating_sub(visible)
}

} // verus!
