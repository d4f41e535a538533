use vstd::prelude::*;

verus! {

// ---------------------------------------------------------------------------
// Base64 (RFC 4648, standard alphabet, with `=` padding)
// ---------------------------------------------------------------------------

/// The character of the standard base64 alphabet for the 6-bit value `v`.
pub open spec fn base64_char(v: int) -> char {
    if v < 26 {
        (65 + v) as char
    } else if v < 52 {
        (97 + v - 26) as char
    } else if v < 62 {
        (48 + v - 52) as char
    } else if v == 62 {
        '+'
    } else {
        '/'
    }
}

/// The standard, padded base64 encoding of `b`: every three bytes become
/// four characters; a final group of one or two bytes is padded with `=`.
pub open spec fn base64_encode(b: Seq<u8>) -> Seq<char>
    decreases b.len(),
{
    if b.len() == 0 {
        seq![]
    } else if b.len() == 1 {
        seq![base64_char(b[0] as int / 4), base64_char((b[0] % 4) * 16), '=', '=']
    } else if b.len() == 2 {
        seq![
            base64_char(b[0] as int / 4),
            base64_char((b[0] % 4) * 16 + b[1] / 16),
            base64_char((b[1] % 16) * 4),
            '=',
        ]
    } else {
        seq![
            base64_char(b[0] as int / 4),
            base64_char((b[0] % 4) * 16 + b[1] / 16),
            base64_char((b[1] % 16) * 4 + b[2] / 64),
            base64_char(b[2] as int % 64),
        ] + base64_encode(b.skip(3))
    }
}

/// The 6-bit value of a character of the standard base64 alphabet.
pub open spec fn base64_value(c: char) -> int {
    let u = c as u32;
    if 65 <= u <= 90 {
        u - 65
    } else if 97 <= u <= 122 {
        u - 71
    } else if 48 <= u <= 57 {
        u + 4
    } else if u == 43 {
        62
    } else {
        63
    }
}

/// The bytes that a padded standard base64 text stands for: each group of
/// four characters gives three bytes, or one or two where the group ends
/// with `=` padding.
pub open spec fn base64_decode(s: Seq<char>) -> Seq<u8>
    decreases s.len(),
{
    if s.len() < 4 {
        seq![]
    } else {
        let v0 = base64_value(s[0]);
        let v1 = base64_value(s[1]);
        let v2 = base64_value(s[2]);
        let v3 = base64_value(s[3]);
        let b0 = (v0 * 4 + v1 / 16) as u8;
        let b1 = ((v1 % 16) * 16 + v2 / 4) as u8;
        let b2 = ((v2 % 4) * 64 + v3) as u8;
        if s[2] == '=' {
            seq![b0]
        } else if s[3] == '=' {
            seq![b0, b1]
        } else {
            seq![b0, b1, b2] + base64_decode(s.skip(4))
        }
    }
}

/// The length of the padded encoding of `n` bytes fits in a `usize`.
pub open spec fn base64_fits(n: nat) -> bool {
    (if n % 3 == 0 {
        n / 3 * 4
    } else {
        n / 3 * 4 + 4
    }) <= usize::MAX
}

/// Whether the padded encoding of `n` bytes has a length that fits in a
/// `usize`.
pub fn base64_fits_len(n: usize) -> (b: bool)
    ensures
        b == base64_fits(n as nat),
{
    let q = n / 3;
    if q > usize::MAX / 4 {
        return false;
    }
    if n % 3 == 0 {
        true
    } else {
        q * 4 <= usize::MAX - 4
    }
}

/// Trusted: calls `base64::Engine::encode` on the `STANDARD` engine of the
/// `base64` crate (standard alphabet, padded), and claims that the result is
/// the RFC 4648 encoding `base64_encode`. The engine panics when the length
/// of the encoding overflows a `usize`, which `requires` leaves out.
#[verifier::external_body]
fn base64_standard_encode(bytes: &[u8]) -> (r: String)
    requires
        base64_fits(bytes@.len()),
    ensures
        r@ == base64_encode(bytes@),
{
    base64::Engine::encode(&base64::engine::general_purpose::STANDARD, bytes)
}

/// The standard base64 encoding of raw PCM bytes, as sent to the inference
/// process.
pub fn encode_base64(bytes: &[u8]) -> (r: String)
    requires
        base64_fits(bytes@.len()),
    ensures
        r@ == base64_encode(bytes@),
{
    base64_standard_encode(bytes)
}

// ---------------------------------------------------------------------------
// Live level buffer for the waveform display
// ---------------------------------------------------------------------------

/// The most samples the level buffer keeps.
pub const MAX_LEVELS: usize = 200;

/// The stride at which a block of `n` samples is sampled for the display:
/// a quarter of the block, and at least 1.
pub open spec fn level_stride(n: nat) -> nat {
    if n / 4 >= 1 {
        n / 4
    } else {
        1
    }
}

/// The samples of `s` at indices 0, `stride`, 2 * `stride`, ...
pub open spec fn every_nth<T>(s: Seq<T>, stride: nat) -> Seq<T>
    decreases s.len(),
{
    if s.len() == 0 || stride == 0 {
        seq![]
    } else if stride >= s.len() {
        seq![s[0]]
    } else {
        seq![s[0]] + every_nth(s.skip(stride as int), stride)
    }
}

/// The level buffer after a block of samples arrives: the sampled block is
/// appended, and the oldest entries are dropped so that at most
/// `MAX_LEVELS` remain. An empty block leaves the buffer as it is.
pub open spec fn levels_after<T>(levels: Seq<T>, block: Seq<T>) -> Seq<T> {
    if block.len() == 0 {
        levels
    } else {
        let grown = levels + every_nth(block, level_stride(block.len()));
        if grown.len() > MAX_LEVELS {
            grown.skip(grown.len() - MAX_LEVELS)
        } else {
            grown
        }
    }
}

/// Feeds one block of captured samples into the live level buffer.
pub fn push_levels<T: Copy>(levels: &mut Vec<T>, block: &[T])
    requires
        old(levels)@.len() + block@.len() <= usize::MAX,
    ensures
        final(levels)@ == levels_after(old(levels)@, block@),
        final(levels)@.len() <= MAX_LEVELS || final(levels)@ == old(levels)@,
{
    let n = block.len();
    if n == 0 {
        return;
    }
    let stride: usize = if n / 4 >= 1 {
        n / 4
    } else {
        1
    };
    let ghost start = levels@;
    let mut i: usize = 0;
    assert(block@.skip(0) =~= block@);
    loop
        invariant_except_break
            levels@.len() <= start.len() + i,
            start + every_nth(block@, stride as nat) == levels@ + every_nth(
                block@.skip(i as int),
                stride as nat,
            ),
        invariant
            n == block@.len(),
            stride == level_stride(n as nat),
            stride >= 1,
            i < n,
            start.len() + block@.len() <= usize::MAX,
        ensures
            levels@ == start + every_nth(block@, stride as nat),
        decreases n - i,
    {
        let ghost rest = block@.skip(i as int);
        let ghost before = levels@;
        levels.push(block[i]);
        if stride >= n - i {
            assert(every_nth(rest, stride as nat) == seq![rest[0]]);
            assert(levels@ =~= before + seq![rest[0]]);
            break;
        }
        assert(every_nth(rest, stride as nat) == seq![rest[0]] + every_nth(
            rest.skip(stride as int),
            stride as nat,
        ));
        assert(rest.skip(stride as int) =~= block@.skip(i + stride));
        assert(levels@ =~= before + seq![rest[0]]);
        i += stride;
    }
    let len = levels.len();
    if len > MAX_LEVELS {
        let excess = len - MAX_LEVELS;
        let mut kept: Vec<T> = Vec::new();
        let mut k: usize = excess;
        while k < len
            invariant
                excess <= k <= len,
                len == levels@.len(),
                kept@ == levels@.subrange(excess as int, k as int),
            decreases len - k,
        {
            kept.push(levels[k]);
            assert(levels@.subrange(excess as int, k as int).push(levels@[k as int])
                =~= levels@.subrange(excess as int, k + 1));
            k += 1;
        }
        assert(kept@ =~= levels@.skip(excess as int));
        *levels = kept;
    }
}

} // verus!
