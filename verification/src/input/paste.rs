//! Clipboard text as bounded terminal input, with paste framing.
use crate::decimal::push_bytes;
use crate::grid::cluster::lemma_encoding_splits;
use crate::text::{chars_of, string_of};
use vstd::prelude::*;
use vstd::utf8::{encode_scalar, encode_utf8};

verus! {

pub const MAX_PASTE_BYTES: usize = 1024 * 1024;

/// The marker before a bracketed paste.
pub open spec fn paste_start() -> Seq<u8> {
    seq![27u8, 91, 50, 48, 48, 126]
}

/// The marker behind a bracketed paste.
pub open spec fn paste_end() -> Seq<u8> {
    seq![27u8, 91, 50, 48, 49, 126]
}

#[derive(Debug, Clone, Copy, PartialEq, Eq, Structural)]
pub enum PasteError {
    TooLarge,
    AllocationFailed,
}

impl PasteError {
    pub fn message(&self) -> (r: String)
        ensures
            r@ == (match self {
                PasteError::TooLarge => "clipboard text exceeds the terminal paste byte limit"@,
                PasteError::AllocationFailed => "could not allocate terminal paste input"@,
            }),
    {
        match self {
            PasteError::TooLarge => {
                "clipboard text exceeds the terminal paste byte limit".to_owned()
            },
            PasteError::AllocationFailed => "could not allocate terminal paste input".to_owned(),
        }
    }
}

/// `Vec::try_reserve_exact` makes room for more elements and keeps those that
/// are there. Whether the allocator has the room is not stated.
#[verifier::external_body]
fn reserve_exact(output: &mut Vec<u8>, additional: usize) -> (r: bool)
    ensures
        final(output)@ == old(output)@,
{
    output.try_reserve_exact(additional).is_ok()
}

/// A control character: C0, Delete or C1.
pub open spec fn is_control(c: char) -> bool {
    c as u32 <= 0x1f || 0x7f <= c as u32 <= 0x9f
}

pub fn control_char(c: char) -> (r: bool)
    ensures
        r == is_control(c),
{
    let code: u32 = c as u32;
    code <= 0x1f || (0x7f <= code && code <= 0x9f)
}

/// What a character of clipboard text is sent as. Line endings become Enter,
/// tabs stay, and other controls go.
pub open spec fn normalized_char(c: char, follows_cr: bool) -> Option<char> {
    if c == '\n' {
        if follows_cr { None } else { Some('\r') }
    } else if c == '\r' || c == '\t' {
        Some(c)
    } else if is_control(c) {
        None
    } else {
        Some(c)
    }
}

/// Clipboard text as it is sent.
pub open spec fn normalized(text: Seq<char>) -> Seq<char>
    decreases text.len(),
{
    if text.len() == 0 {
        text
    } else {
        let before = normalized(text.drop_last());
        let follows_cr = text.len() >= 2 && text[text.len() - 2] == '\r';
        match normalized_char(text.last(), follows_cr) {
            Some(c) => before.push(c),
            None => before,
        }
    }
}

/// The bytes that are sent for clipboard text.
pub open spec fn paste_bytes(text: Seq<char>, bracketed: bool) -> Seq<u8> {
    let payload = encode_utf8(normalized(text));
    if payload.len() == 0 || !bracketed {
        payload
    } else {
        paste_start() + payload + paste_end()
    }
}

/// Text that holds no line feed and no control but Enter and tab.
pub open spec fn sendable(text: Seq<char>) -> bool {
    forall|i: int|
        0 <= i < text.len() ==> (#[trigger] text[i]) == '\r' || text[i] == '\t' || !is_control(text[i])
}

proof fn lemma_normalized_is_sendable(text: Seq<char>)
    ensures
        sendable(normalized(text)),
    decreases text.len(),
{
    if text.len() > 0 {
        lemma_normalized_is_sendable(text.drop_last());
    }
}

proof fn lemma_sendable_stays(text: Seq<char>)
    requires
        sendable(text),
    ensures
        normalized(text) == text,
    decreases text.len(),
{
    if text.len() > 0 {
        let before = text.drop_last();
        assert forall|i: int| 0 <= i < before.len() implies (#[trigger] before[i]) == '\r'
            || before[i] == '\t' || !is_control(before[i]) by {
            assert(before[i] == text[i]);
        }
        lemma_sendable_stays(before);
        assert(text[text.len() - 1] == text.last());
        assert(before.push(text.last()) =~= text);
    }
}

/// What was sent for a text is sent as it is when it is pasted again.
pub proof fn law_sent_text_is_sent_unchanged(text: Seq<char>, bracketed: bool)
    ensures
        normalized(normalized(text)) == normalized(text),
        paste_bytes(normalized(text), bracketed) == paste_bytes(text, bracketed),
        paste_bytes(normalized(text), false) == encode_utf8(normalized(text)),
{
    lemma_normalized_is_sendable(text);
    lemma_sendable_stays(normalized(text));
}

fn sent_char(c: char, follows_cr: bool) -> (r: Option<char>)
    ensures
        r == normalized_char(c, follows_cr),
{
    if c == '\n' {
        if follows_cr {
            None
        } else {
            Some('\r')
        }
    } else if c == '\r' || c == '\t' {
        Some(c)
    } else if control_char(c) {
        None
    } else {
        Some(c)
    }
}

/// The characters that are sent for clipboard text.
fn normalized_chars(text: &str) -> (r: Vec<char>)
    ensures
        r@ == normalized(text@),
{
    let chars: Vec<char> = chars_of(text);
    let mut sent: Vec<char> = Vec::new();
    let mut previous_was_cr: bool = false;
    let mut i: usize = 0;
    proof {
        assert(text@.take(0) =~= Seq::<char>::empty());
    }
    while i < chars.len()
        invariant
            i <= chars@.len(),
            chars@ == text@,
            previous_was_cr == (i > 0 && text@[i - 1] == '\r'),
            sent@ == normalized(text@.take(i as int)),
        decreases chars@.len() - i,
    {
        let c: char = chars[i];
        proof {
            let prefix = text@.take(i + 1);
            assert(prefix.drop_last() =~= text@.take(i as int));
            assert(prefix.last() == c);
        }
        if let Some(kept) = sent_char(c, previous_was_cr) {
            sent.push(kept);
        }
        previous_was_cr = c == '\r';
        i += 1;
    }
    proof {
        assert(text@.take(i as int) =~= text@);
    }
    sent
}

/// The bytes of a character in UTF-8.
pub fn utf8_len(c: char) -> (r: usize)
    ensures
        r == encode_scalar(c as u32).len(),
        1 <= r <= 4,
{
    let code: u32 = c as u32;
    if code <= 0x7f {
        1
    } else if code <= 0x7ff {
        2
    } else if code <= 0xffff {
        3
    } else {
        4
    }
}

/// The bytes of a text grow with every character.
pub proof fn lemma_encoding_of_push(text: Seq<char>, c: char)
    ensures
        encode_utf8(text.push(c)) == encode_utf8(text) + encode_scalar(c as u32),
{
    assert(text.push(c) =~= text + seq![c]);
    lemma_encoding_splits(text, seq![c]);
    assert(seq![c].drop_first() =~= Seq::<char>::empty());
    assert(encode_utf8(Seq::<char>::empty()) =~= Seq::<u8>::empty());
    assert(encode_utf8(seq![c]) =~= encode_scalar(c as u32));
}

pub proof fn lemma_prefix_is_shorter(text: Seq<char>, len: int)
    requires
        0 <= len <= text.len(),
    ensures
        encode_utf8(text.take(len)).len() <= encode_utf8(text).len(),
{
    lemma_encoding_splits(text.take(len), text.skip(len));
    assert(text.take(len) + text.skip(len) =~= text);
}

/// The number of bytes in UTF-8, unless it exceeds the limit.
fn bounded_len(chars: &Vec<char>, limit: usize) -> (r: Option<usize>)
    ensures
        r is Some <==> encode_utf8(chars@).len() <= limit,
        r is Some ==> r->0 == encode_utf8(chars@).len(),
{
    let mut len: usize = 0;
    let mut i: usize = 0;
    proof {
        assert(chars@.take(0) =~= Seq::<char>::empty());
        assert(encode_utf8(Seq::<char>::empty()) =~= Seq::<u8>::empty());
    }
    while i < chars.len()
        invariant
            i <= chars@.len(),
            len <= limit,
            len == encode_utf8(chars@.take(i as int)).len(),
        decreases chars@.len() - i,
    {
        let more: usize = utf8_len(chars[i]);
        proof {
            assert(chars@.take(i + 1) =~= chars@.take(i as int).push(chars@[i as int]));
            lemma_encoding_of_push(chars@.take(i as int), chars@[i as int]);
            lemma_prefix_is_shorter(chars@, i + 1);
        }
        if more > limit - len {
            return None;
        }
        len += more;
        i += 1;
    }
    proof {
        assert(chars@.take(i as int) =~= chars@);
    }
    Some(len)
}

/// Write a paste into a buffer.
pub fn write_paste(output: Vec<u8>, text: &str, bracketed: bool) -> (r: Vec<u8>)
    ensures
        r@ == output@ + paste_bytes(text@, bracketed),
{
    let mut output = output;
    let chars: Vec<char> = normalized_chars(text);
    let payload: String = string_of(&chars);
    let bytes = payload.as_str().as_bytes();
    let ghost before = output@;
    if bracketed && bytes.len() > 0 {
        push_bytes(&mut output, vec![0x1b, 0x5b, 0x32, 0x30, 0x30, 0x7e].as_slice());
        push_bytes(&mut output, bytes);
        push_bytes(&mut output, vec![0x1b, 0x5b, 0x32, 0x30, 0x31, 0x7e].as_slice());
        proof {
            assert(seq![0x1bu8, 0x5b, 0x32, 0x30, 0x30, 0x7e] =~= paste_start());
            assert(seq![0x1bu8, 0x5b, 0x32, 0x30, 0x31, 0x7e] =~= paste_end());
            assert(output@ =~= before + paste_bytes(text@, bracketed));
        }
    } else {
        push_bytes(&mut output, bytes);
        proof {
            assert(output@ =~= before + paste_bytes(text@, bracketed));
        }
    }
    output
}

/// The number of bytes that are sent for clipboard text, markers included,
/// unless there are too many.
pub fn paste_size(text: &str, bracketed: bool, max_bytes: usize) -> (r: Result<usize, PasteError>)
    ensures
        r == if paste_bytes(text@, bracketed).len() > max_bytes {
            Err::<usize, PasteError>(PasteError::TooLarge)
        } else {
            Ok(paste_bytes(text@, bracketed).len() as usize)
        },
{
    let chars: Vec<char> = normalized_chars(text);
    let payload: usize = match bounded_len(&chars, max_bytes) {
        Some(len) => len,
        None => {
            return Err(PasteError::TooLarge);
        },
    };
    let framing: usize = if bracketed && payload > 0 { 12 } else { 0 };
    if framing > max_bytes - payload {
        return Err(PasteError::TooLarge);
    }
    Ok(payload + framing)
}

/// Convert line endings to Enter and remove embedded controls.
///
/// Tabs and line breaks remain useful text input; Escape, C1 and other controls
/// can neither end a bracketed paste nor turn clipboard content into keys. The
/// byte budget includes both markers. An oversized paste is rejected as a
/// whole, so neither characters nor closing markers are cut.
pub fn encode_paste(text: &str, bracketed: bool, max_bytes: usize) -> (r: Result<
    Vec<u8>,
    PasteError,
>)
    ensures
        r == Err::<Vec<u8>, PasteError>(PasteError::TooLarge) <==> paste_bytes(
            text@,
            bracketed,
        ).len() > max_bytes,
        r is Ok ==> r->Ok_0@ == paste_bytes(text@, bracketed),
        normalized(text@).len() == 0 ==> r is Ok,
{
    let size: usize = match paste_size(text, bracketed, max_bytes) {
        Ok(size) => size,
        Err(error) => {
            return Err(error);
        },
    };
    proof {
        lemma_empty_encoding(normalized(text@));
    }
    if size == 0 {
        return Ok(Vec::new());
    }
    let mut output: Vec<u8> = Vec::new();
    if !reserve_exact(&mut output, size) {
        return Err(PasteError::AllocationFailed);
    }
    let encoded: Vec<u8> = write_paste(output, text, bracketed);
    proof {
        assert(encoded@ =~= paste_bytes(text@, bracketed));
    }
    Ok(encoded)
}

proof fn lemma_empty_encoding(text: Seq<char>)
    ensures
        encode_utf8(text).len() == 0 <==> text.len() == 0,
{
    if text.len() > 0 {
        lemma_encoding_splits(text.take(1), text.skip(1));
        assert(text.take(1) + text.skip(1) =~= text);
        assert(encode_scalar(text[0] as u32).len() >= 1);
    }
}

/// No control but Enter and Tab is ever sent.
pub proof fn law_paste_sends_no_controls(text: Seq<char>)
    ensures
        forall|i: int|
            0 <= i < normalized(text).len() ==> (#[trigger] normalized(text)[i]) == '\r'
                || normalized(text)[i] == '\t' || !is_control(normalized(text)[i]),
    decreases text.len(),
{
    if text.len() > 0 {
        law_paste_sends_no_controls(text.drop_last());
        let before = normalized(text.drop_last());
        let all = normalized(text);
        assert forall|i: int| 0 <= i < all.len() implies (#[trigger] all[i]) == '\r' || all[i]
            == '\t' || !is_control(all[i]) by {
            if i < before.len() {
                assert(all[i] == before[i]);
            }
        }
    }
}

proof fn lemma_scalar_bytes(code: u32)
    requires
        code != 27,
    ensures
        forall|i: int| 0 <= i < encode_scalar(code).len() ==> #[trigger] encode_scalar(code)[i] != 27u8,
{
    let c = code;
    assert(c <= 0x7f && c != 27 ==> (c & 0x7f) as u8 != 27u8) by (bit_vector);
    assert((0xC0u8 | ((c >> 6) & 0x1f) as u8) != 27u8) by (bit_vector);
    assert((0xE0u8 | ((c >> 12) & 0x0f) as u8) != 27u8) by (bit_vector);
    assert((0xF0u8 | ((c >> 18) & 0x07) as u8) != 27u8) by (bit_vector);
    assert((0x80u8 | (c & 0x3f) as u8) != 27u8) by (bit_vector);
    assert((0x80u8 | ((c >> 6) & 0x3f) as u8) != 27u8) by (bit_vector);
    assert((0x80u8 | ((c >> 12) & 0x3f) as u8) != 27u8) by (bit_vector);
}

proof fn lemma_no_escape(text: Seq<char>)
    requires
        forall|i: int| 0 <= i < text.len() ==> (#[trigger] text[i]) as u32 != 27,
    ensures
        forall|i: int| 0 <= i < encode_utf8(text).len() ==> #[trigger] encode_utf8(text)[i] != 27u8,
    decreases text.len(),
{
    if text.len() > 0 {
        let rest = text.drop_first();
        assert forall|i: int| 0 <= i < rest.len() implies (#[trigger] rest[i]) as u32 != 27 by {
            assert(text[i + 1] as u32 != 27);
        }
        lemma_no_escape(rest);
        let head = encode_scalar(text[0] as u32);
        lemma_scalar_bytes(text[0] as u32);
        assert forall|i: int| 0 <= i < encode_utf8(text).len() implies #[trigger] encode_utf8(
            text,
        )[i] != 27u8 by {
            if i < head.len() {
                assert(encode_utf8(text)[i] == head[i]);
            } else {
                assert(encode_utf8(text)[i] == encode_utf8(rest)[i - head.len()]);
            }
        }
    }
}

/// Whatever the clipboard holds, the only start marker of a bracketed paste is
/// at its start, and the only end marker at its end.
pub proof fn law_paste_markers_are_the_only_ones(text: Seq<char>, at: int)
    requires
        normalized(text).len() > 0,
        0 <= at <= paste_bytes(text, true).len() - 6,
    ensures
        paste_bytes(text, true).subrange(at, at + 6) == paste_end() <==> at == paste_bytes(
            text,
            true,
        ).len() - 6,
        paste_bytes(text, true).subrange(at, at + 6) == paste_start() <==> at == 0,
{
    let sent = normalized(text);
    let payload = encode_utf8(sent);
    let all = paste_bytes(text, true);
    let part = all.subrange(at, at + 6);
    law_paste_sends_no_controls(text);
    lemma_empty_encoding(sent);
    assert forall|i: int| 0 <= i < sent.len() implies (#[trigger] sent[i]) as u32 != 27 by {
        assert(sent[i] == '\r' || sent[i] == '\t' || !is_control(sent[i]));
    }
    lemma_no_escape(sent);
    assert(all =~= paste_start() + payload + paste_end());
    assert(part[0] == all[at]);
    assert(part[4] == all[at + 4]);
    if at == 0 {
        assert(part =~= paste_start());
    } else if at == all.len() - 6 {
        assert(part =~= paste_end());
    } else if at < 6 {
        assert(all[at] == paste_start()[at]);
    } else {
        assert(all[at] == payload[at - 6]);
    }
}

} // verus!
