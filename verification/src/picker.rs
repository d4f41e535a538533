use vstd::prelude::*;

use crate::bridge::{model_count, model_id, models, ModelInfo};
use crate::control::Key;
use crate::text::{concat2, concat3, decimal, decimal_string, ends_with, ends_with_str, push_char, same_text};
use crate::ui::{line_view, plain, sv, Emphasis, Span, SpanView, Tone};

verus! {

// ---------------------------------------------------------------------------
// Choosing a model
// ---------------------------------------------------------------------------

/// What a key press does in the model picker.
#[derive(Clone, Copy, Debug, PartialEq, Eq, Structural)]
pub enum PickerStep {
    /// Keep choosing, with this entry highlighted.
    Stay(usize),
    /// The entry with this index was chosen.
    Chosen(usize),
    /// The user gave up choosing.
    Cancelled,
}

/// The picker's answer to `key` while entry `selected` is highlighted.
pub open spec fn picker_spec(selected: nat, key: Key) -> PickerStep {
    if key == Key::Up || key == Key::Char('k') {
        PickerStep::Stay((if selected >= 1 { selected - 1 } else { 0 }) as usize)
    } else if key == Key::Down || key == Key::Char('j') {
        PickerStep::Stay((if selected + 1 < model_count() { selected + 1 } else { selected }) as usize)
    } else if key == Key::Enter {
        PickerStep::Chosen(selected as usize)
    } else if key == Key::Esc {
        PickerStep::Cancelled
    } else if key == Key::Char('1') {
        PickerStep::Chosen(0)
    } else if key == Key::Char('2') {
        PickerStep::Chosen(1)
    } else if key == Key::Char('3') {
        PickerStep::Chosen(2)
    } else if key == Key::Char('4') {
        PickerStep::Chosen(3)
    } else {
        PickerStep::Stay(selected as usize)
    }
}

/// Handles one key press in the model picker.
pub fn picker_key(selected: usize, key: Key) -> (s: PickerStep)
    requires
        selected < model_count(),
    ensures
        s == picker_spec(selected as nat, key),
        match s {
            PickerStep::Stay(i) => i < model_count(),
            PickerStep::Chosen(i) => i < model_count(),
            PickerStep::Cancelled => true,
        },
{
    if key == Key::Up || key == Key::Char('k') {
        PickerStep::Stay(selected.saturating_sub(1))
    } else if key == Key::Down || key == Key::Char('j') {
        if selected + 1 < 4 {
            PickerStep::Stay(selected + 1)
        } else {
            PickerStep::Stay(selected)
        }
    } else if key == Key::Enter {
        PickerStep::Chosen(selected)
    } else if key == Key::Esc {
        PickerStep::Cancelled
    } else if key == Key::Char('1') {
        PickerStep::Chosen(0)
    } else if key == Key::Char('2') {
        PickerStep::Chosen(1)
    } else if key == Key::Char('3') {
        PickerStep::Chosen(2)
    } else if key == Key::Char('4') {
        PickerStep::Chosen(3)
    } else {
        PickerStep::Stay(selected)
    }
}

/// The identifier of the chosen model.
pub fn chosen_model_id(index: usize) -> (r: String)
    requires
        index < model_count(),
    ensures
        r@ == model_id(index as int),
{
    let all = models();
    all[index].id.to_string()
}

// ---------------------------------------------------------------------------
// Whether a model is downloaded
// ---------------------------------------------------------------------------

/// Where a model's files go and how large the download is.
pub struct ModelDir {
    pub dir: &'static str,
    pub expected_bytes: u64,
}

/// The directory name and expected size of model `id`, if it is known.
pub open spec fn model_dir_spec(id: Seq<char>) -> Option<(Seq<char>, nat)> {
    if id == "E2B"@ {
        Some(("gemma-4-E2B-it"@, 5_000_000_000))
    } else if id == "E4B"@ {
        Some(("gemma-4-E4B-it"@, 9_000_000_000))
    } else if id == "26B-A4B"@ {
        Some(("gemma-4-26B-A4B-it"@, 16_000_000_000))
    } else if id == "31B"@ {
        Some(("gemma-4-31B-it"@, 20_000_000_000))
    } else {
        None
    }
}

/// Looks up where model `id`'s files go.
pub fn model_dir(id: &str) -> (r: Option<ModelDir>)
    ensures
        match model_dir_spec(id@) {
            None => r is None,
            Some((d, n)) => r matches Some(m) && m.dir@ == d && m.expected_bytes == n,
        },
{
    if same_text(id, "E2B") {
        Some(ModelDir { dir: "gemma-4-E2B-it", expected_bytes: 5_000_000_000u64 })
    } else if same_text(id, "E4B") {
        Some(ModelDir { dir: "gemma-4-E4B-it", expected_bytes: 9_000_000_000u64 })
    } else if same_text(id, "26B-A4B") {
        Some(ModelDir { dir: "gemma-4-26B-A4B-it", expected_bytes: 16_000_000_000u64 })
    } else if same_text(id, "31B") {
        Some(ModelDir { dir: "gemma-4-31B-it", expected_bytes: 20_000_000_000u64 })
    } else {
        None
    }
}

/// A file holds model weights.
pub open spec fn is_weight_name(name: Seq<char>) -> bool {
    ends_with(name, ".safetensors"@) || ends_with(name, ".bin"@)
}

/// Whether a file name is one of model weights.
pub fn is_weight_file(name: &str) -> (b: bool)
    ensures
        b == is_weight_name(name@),
{
    ends_with_str(name, ".safetensors") || ends_with_str(name, ".bin")
}

/// Whether any of the names is one of model weights.
pub fn has_weight_file(names: &Vec<String>) -> (b: bool)
    ensures
        b == exists|i: int| 0 <= i < names@.len() && is_weight_name(#[trigger] names@[i]@),
{
    let mut i: usize = 0;
    while i < names.len()
        invariant
            i <= names@.len(),
            forall|k: int| 0 <= k < i ==> !is_weight_name(#[trigger] names@[k]@),
        decreases names.len() - i,
    {
        if is_weight_file(names[i].as_str()) {
            return true;
        }
        i += 1;
    }
    false
}

/// How far a model's download has come.
#[derive(Clone, Copy, Debug, PartialEq, Eq, Structural)]
pub enum ModelStatus {
    /// Nothing (usable) on disk yet.
    Download,
    /// The weights and the configuration are there.
    Ready,
    /// Part of the download is there: `size` of `expected` bytes.
    Partial { size: u64, expected: u64 },
}

/// A model's status from what is on disk: whether its directory exists,
/// holds weight files and a configuration, and how many bytes it holds.
pub open spec fn status_spec(
    dir_exists: bool,
    has_weights: bool,
    has_config: bool,
    size: u64,
    expected: u64,
) -> ModelStatus {
    if !dir_exists {
        ModelStatus::Download
    } else if has_weights && has_config {
        ModelStatus::Ready
    } else if size > 0 {
        ModelStatus::Partial { size, expected }
    } else {
        ModelStatus::Download
    }
}

/// Decides a model's status from what is on disk (`size` only matters when
/// the directory exists and the model is not complete).
pub fn model_status(
    dir_exists: bool,
    has_weights: bool,
    has_config: bool,
    size: u64,
    expected: u64,
) -> (s: ModelStatus)
    ensures
        s == status_spec(dir_exists, has_weights, has_config, size, expected),
{
    if !dir_exists {
        ModelStatus::Download
    } else if has_weights && has_config {
        ModelStatus::Ready
    } else if size > 0 {
        ModelStatus::Partial { size, expected }
    } else {
        ModelStatus::Download
    }
}

/// The picker's text for a model's status; a partial download shows its
/// size in gigabytes, which is left to the caller (`None`).
pub open spec fn status_label_spec(s: ModelStatus) -> Option<Seq<char>> {
    match s {
        ModelStatus::Download => Some("[download]"@),
        ModelStatus::Ready => Some("[✓ READY]"@),
        ModelStatus::Partial { .. } => None,
    }
}

/// The picker's text for a model's status, except for a partial download.
pub fn status_label(s: ModelStatus) -> (r: Option<String>)
    ensures
        match status_label_spec(s) {
            Some(t) => r matches Some(x) && x@ == t,
            None => r is None,
        },
{
    match s {
        ModelStatus::Download => Some("[download]".to_string()),
        ModelStatus::Ready => Some("[✓ READY]".to_string()),
        ModelStatus::Partial { .. } => None,
    }
}

// ---------------------------------------------------------------------------
// The picker's rows
// ---------------------------------------------------------------------------

/// `s` padded with spaces to at least `width` characters (`{:<width}`).
pub open spec fn pad_right(s: Seq<char>, width: nat) -> Seq<char> {
    if s.len() >= width {
        s
    } else {
        s + Seq::new((width - s.len()) as nat, |i: int| ' ')
    }
}

fn pad_right_exec(s: &str, width: usize) -> (r: String)
    ensures
        r@ == pad_right(s@, width as nat),
{
    let n = s.unicode_len();
    let mut r = s.to_string();
    if n >= width {
        return r;
    }
    let mut i: usize = n;
    while i < width
        invariant
            n <= i <= width,
            n == s@.len(),
            r@ == s@ + Seq::new((i - n) as nat, |k: int| ' '),
        decreases width - i,
    {
        push_char(&mut r, ' ');
        assert(s@ + Seq::new((i + 1 - n) as nat, |k: int| ' ') =~= (s@ + Seq::new(
            (i - n) as nat,
            |k: int| ' ',
        )).push(' '));
        i += 1;
    }
    r
}

/// The tone of a model's status in the picker.
pub open spec fn status_tone(s: ModelStatus) -> Tone {
    match s {
        ModelStatus::Ready => Tone::Primary,
        ModelStatus::Partial { .. } => Tone::Accent,
        ModelStatus::Download => Tone::Dim,
    }
}

/// The picker row for model number `index` (counted from 0), with the
/// highlighted entry `selected`, and the model's status shown as
/// `status_text`.
pub open spec fn picker_row(
    index: nat,
    selected: nat,
    name: Seq<char>,
    ram: Seq<char>,
    size: Seq<char>,
    status: ModelStatus,
    status_text: Seq<char>,
) -> Seq<SpanView> {
    let is_sel = index == selected;
    let marker = if is_sel {
        "▶ "@
    } else {
        "  "@
    };
    let tone = if is_sel {
        Tone::Accent
    } else {
        Tone::Primary
    };
    let emphasis = if is_sel {
        Emphasis::Bold
    } else {
        Emphasis::Normal
    };
    seq![
        sv(" "@ + marker + decimal(index + 1) + ". "@, tone, emphasis),
        sv(pad_right(name, 18), tone, emphasis),
        plain("RAM: "@ + pad_right(ram, 7) + " Disk: "@ + pad_right(size, 7), Tone::Dim),
        plain(" "@ + status_text, status_tone(status)),
    ]
}

/// The picker row of one model.
pub fn picker_row_spans(
    index: usize,
    selected: usize,
    model: &ModelInfo,
    status: ModelStatus,
    status_text: &str,
) -> (r: Vec<Span>)
    requires
        index < usize::MAX,
    ensures
        line_view(r@) == picker_row(
            index as nat,
            selected as nat,
            model.name@,
            model.ram@,
            model.size@,
            status,
            status_text@,
        ),
{
    let is_sel = index == selected;
    let marker = if is_sel {
        "▶ "
    } else {
        "  "
    };
    let tone = if is_sel {
        Tone::Accent
    } else {
        Tone::Primary
    };
    let emphasis = if is_sel {
        Emphasis::Bold
    } else {
        Emphasis::Normal
    };
    let status_tone_v = match status {
        ModelStatus::Ready => Tone::Primary,
        ModelStatus::Partial { .. } => Tone::Accent,
        ModelStatus::Download => Tone::Dim,
    };
    let number = decimal_string((index + 1) as u64);
    let mut first = concat3(" ", marker, number.as_str());
    first.append(". ");
    let name = pad_right_exec(model.name, 18);
    let mut mem = concat2("RAM: ", pad_right_exec(model.ram, 7).as_str());
    mem.append(" Disk: ");
    mem.append(pad_right_exec(model.size, 7).as_str());
    let stat = concat2(" ", status_text);
    let mut r: Vec<Span> = Vec::new();
    r.push(Span { text: first, tone, emphasis });
    r.push(Span { text: name, tone, emphasis });
    r.push(Span { text: mem, tone: Tone::Dim, emphasis: Emphasis::Normal });
    r.push(Span { text: stat, tone: status_tone_v, emphasis: Emphasis::Normal });
    assert(line_view(r@) =~= picker_row(
        index as nat,
        selected as nat,
        model.name@,
        model.ram@,
        model.size@,
        status,
        status_text@,
    ));
    r
}

} // verus!
