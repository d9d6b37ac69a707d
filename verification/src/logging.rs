//! What the USB serial handler does with the bytes it receives.
//!
//! When closing `elf2uf2-term` started with the `-t` flag, the terminal sends
//! `elf2uf2-term`; pressing `q` sends `q`. Either word, with white space
//! around it, asks for a restart into the USB bootloader. Any other text is
//! logged; bytes that are not UTF-8 are ignored.

use vstd::prelude::*;
use vstd::utf8::*;
use vstd::string::StringSliceAdditionalSpecFns;
use crate::text::{
    all_white_space, chars_of, is_white_space, lemma_trim_idempotent,
    lemma_trim_ignores_surrounding_white_space, lemma_trim_removes_only_outer_white_space, trim,
    trim_bounds,
};

verus! {

broadcast use vstd::string::group_string_axioms;

/// Bytes the USB serial logger buffers.
pub const LOG_BUFFER_SIZE: usize = 1024;

/// Milliseconds to wait, after starting the logger, for the host to open
/// the serial port.
pub const HOST_CONNECT_WAIT_MS: u64 = 1000;

/// Decodes `bytes` as UTF-8 with `core::str::from_utf8`. The contract
/// claims that it succeeds exactly on valid UTF-8 and that the text it gives
/// back is encoded by exactly those bytes.
#[verifier::external_body]
fn str_from_utf8(bytes: &[u8]) -> (text: Option<&str>)
    ensures
        text is Some <==> valid_utf8(bytes@),
        text matches Some(s) ==> s.spec_bytes() == bytes@,
{
    match core::str::from_utf8(bytes) {
        Ok(s) => Some(s),
        Err(_) => None,
    }
}

/// Appends `c` to `s` with `String::push`.
#[verifier::external_body]
fn push_char(s: &mut String, c: char)
    ensures
        final(s)@ == old(s)@.push(c),
{
    s.push(c)
}

/// The word that `q` in a terminal sends.
pub open spec fn quit_word() -> Seq<char> {
    seq!['q']
}

/// The word that `elf2uf2-term -t` sends when its serial monitor closes.
pub open spec fn terminal_closed_word() -> Seq<char> {
    seq!['e', 'l', 'f', '2', 'u', 'f', '2', '-', 't', 'e', 'r', 'm']
}

/// Whether trimmed text asks for a restart into the USB bootloader.
pub open spec fn is_boot_request(text: Seq<char>) -> bool {
    text == quit_word() || text == terminal_closed_word()
}

/// What the handler does, as a value of the model.
pub enum ActionView {
    ResetToUsbBoot,
    Log(Seq<char>),
    Ignore,
}

/// The reaction to received bytes: none unless they are UTF-8; a restart
/// into the bootloader for a boot request once trimmed; else a log line
/// with the trimmed text.
pub open spec fn reaction(data: Seq<u8>) -> ActionView {
    if !valid_utf8(data) {
        ActionView::Ignore
    } else {
        let text = trim(decode_utf8(data));
        if is_boot_request(text) {
            ActionView::ResetToUsbBoot
        } else {
            ActionView::Log(text)
        }
    }
}

/// The first scalar of valid UTF-8 `a` is also the first of `a + b`.
proof fn lemma_first_scalar_of_concat(a: Seq<u8>, b: Seq<u8>)
    requires
        a.len() > 0,
        valid_first_scalar(a),
    ensures
        valid_first_scalar(a + b),
        decode_first_scalar(a + b) == decode_first_scalar(a),
        length_of_first_scalar(a + b) == length_of_first_scalar(a),
        length_of_first_scalar(a) <= a.len(),
        pop_first_scalar(a + b) == pop_first_scalar(a) + b,
{
    let c = a + b;
    assert(c[0] == a[0]);
    if a.len() >= 2 {
        assert(c[1] == a[1]);
    }
    if a.len() >= 3 {
        assert(c[2] == a[2]);
    }
    if a.len() >= 4 {
        assert(c[3] == a[3]);
    }
    assert(pop_first_scalar(c) =~= pop_first_scalar(a) + b);
}

/// Concatenated UTF-8 decodes to the concatenated characters.
proof fn lemma_decode_concat(a: Seq<u8>, b: Seq<u8>)
    requires
        valid_utf8(a),
        valid_utf8(b),
    ensures
        valid_utf8(a + b),
        decode_utf8(a + b) == decode_utf8(a) + decode_utf8(b),
    decreases a.len(),
{
    if a.len() == 0 {
        assert(a + b =~= b);
        assert(decode_utf8(a) =~= Seq::<char>::empty());
        assert(decode_utf8(a) + decode_utf8(b) =~= decode_utf8(b));
    } else {
        lemma_first_scalar_of_concat(a, b);
        lemma_decode_concat(pop_first_scalar(a), b);
        let head = seq![decode_first_scalar(a) as char];
        assert(decode_utf8(a + b) == head + decode_utf8(pop_first_scalar(a) + b));
        assert(decode_utf8(a) == head + decode_utf8(pop_first_scalar(a)));
        assert(head + (decode_utf8(pop_first_scalar(a)) + decode_utf8(b)) =~= (head + decode_utf8(pop_first_scalar(a))) + decode_utf8(b));
    }
}

/// What follows a valid UTF-8 prefix of valid UTF-8 is valid UTF-8.
proof fn lemma_valid_after_prefix(a: Seq<u8>, b: Seq<u8>)
    requires
        valid_utf8(a),
        valid_utf8(a + b),
    ensures
        valid_utf8(b),
    decreases a.len(),
{
    if a.len() == 0 {
        assert(a + b =~= b);
    } else {
        lemma_first_scalar_of_concat(a, b);
        lemma_valid_after_prefix(pop_first_scalar(a), b);
    }
}

/// What comes before a valid UTF-8 suffix of valid UTF-8 is valid UTF-8.
proof fn lemma_valid_before_suffix(a: Seq<u8>, b: Seq<u8>)
    requires
        valid_utf8(b),
        valid_utf8(a + b),
    ensures
        valid_utf8(a),
    decreases a.len(),
{
    if a.len() > 0 {
        let c = a + b;
        let n: int = length_of_first_scalar(c);
        assert(c[0] == a[0]);
        if n > a.len() {
            // The first scalar of `c` would run into `b`, whose first byte
            // is a leading byte, not a continuation byte.
            assert(b.len() > 0);
            assert(c[a.len() as int] == b[0]);
            assert(valid_first_scalar(b));
            assert(false);
        }
        if n >= 2 {
            assert(c[1] == a[1]);
        }
        if n >= 3 {
            assert(c[2] == a[2]);
        }
        if n >= 4 {
            assert(c[3] == a[3]);
        }
        assert(valid_first_scalar(a));
        assert(pop_first_scalar(c) =~= pop_first_scalar(a) + b);
        lemma_valid_before_suffix(pop_first_scalar(a), b);
    }
}

/// White space around the received text, however it is encoded, changes
/// nothing: the reaction to `before + data + after` is that to `data`.
pub proof fn lemma_reaction_ignores_surrounding_white_space(
    before: Seq<u8>,
    data: Seq<u8>,
    after: Seq<u8>,
)
    requires
        valid_utf8(before),
        valid_utf8(after),
        all_white_space(decode_utf8(before)),
        all_white_space(decode_utf8(after)),
    ensures
        reaction(before + data + after) == reaction(data),
{
    let whole = before + data + after;
    assert(whole =~= before + (data + after));
    if valid_utf8(data) {
        lemma_decode_concat(data, after);
        lemma_decode_concat(before, data + after);
        assert(decode_utf8(whole) =~= decode_utf8(before) + decode_utf8(data) + decode_utf8(after));
        lemma_trim_ignores_surrounding_white_space(decode_utf8(before), decode_utf8(data), decode_utf8(after));
    } else if valid_utf8(whole) {
        lemma_valid_after_prefix(before, data + after);
        lemma_valid_before_suffix(data, after);
    }
}

/// The handler asks for a restart into the USB bootloader exactly when the
/// bytes are UTF-8 whose text, once trimmed, is `q` or `elf2uf2-term`.
pub proof fn lemma_reset_exactly_on_boot_words(data: Seq<u8>)
    ensures
        reaction(data) is ResetToUsbBoot <==> valid_utf8(data) && (trim(decode_utf8(data)) == seq!['q']
            || trim(decode_utf8(data)) == seq!['e', 'l', 'f', '2', 'u', 'f', '2', '-', 't', 'e', 'r', 'm']),
{
}

/// The handler ignores exactly the bytes that are not UTF-8.
pub proof fn lemma_ignore_exactly_invalid_utf8(data: Seq<u8>)
    ensures
        reaction(data) is Ignore <==> !valid_utf8(data),
{
}

/// Any other UTF-8 input, whatever its length or content, is logged as its
/// whole decoded text with white space trimmed from both ends, and what is
/// logged is always that text.
pub proof fn lemma_logs_trimmed_text(data: Seq<u8>)
    ensures
        valid_utf8(data) && trim(decode_utf8(data)) != seq!['q'] && trim(decode_utf8(data)) != seq![
            'e', 'l', 'f', '2', 'u', 'f', '2', '-', 't', 'e', 'r', 'm',
        ] ==> reaction(data) == ActionView::Log(trim(decode_utf8(data))),
        reaction(data) matches ActionView::Log(text) ==> valid_utf8(data) && text == trim(
            decode_utf8(data),
        ),
{
}

/// Logged text is trimmed text that is no boot request: trimming it again
/// changes nothing, and it neither starts nor ends with white space.
pub proof fn lemma_logged_text_is_trimmed(data: Seq<u8>)
    ensures
        reaction(data) matches ActionView::Log(text) ==> {
            &&& trim(text) == text
            &&& !is_boot_request(text)
            &&& text.len() > 0 ==> !is_white_space(text[0]) && !is_white_space(text.last())
        },
{
    if valid_utf8(data) {
        lemma_trim_idempotent(decode_utf8(data));
        let _ = lemma_trim_removes_only_outer_white_space(decode_utf8(data));
    }
}

/// What the handler asks its caller to do.
#[derive(Debug, PartialEq, Eq)]
pub enum HandlerAction {
    /// Restart the chip into the USB bootloader.
    ResetToUsbBoot,
    /// Log the received text, trimmed.
    Log(String),
    /// Do nothing: the bytes were not UTF-8.
    Ignore,
}

impl View for HandlerAction {
    type V = ActionView;

    open spec fn view(&self) -> ActionView {
        match self {
            HandlerAction::ResetToUsbBoot => ActionView::ResetToUsbBoot,
            HandlerAction::Log(s) => ActionView::Log(s@),
            HandlerAction::Ignore => ActionView::Ignore,
        }
    }
}

/// Whether `chars[start..end]` equals `word`.
fn slice_equals(chars: &Vec<char>, start: usize, end: usize, word: &[char]) -> (r: bool)
    requires
        start <= end <= chars.len(),
    ensures
        r == (chars@.subrange(start as int, end as int) == word@),
{
    if end - start != word.len() {
        assert(chars@.subrange(start as int, end as int).len() != word@.len());
        return false;
    }
    let mut i: usize = 0;
    while i < word.len()
        invariant
            start <= end <= chars.len(),
            end - start == word.len(),
            i <= word.len(),
            forall|k: int| 0 <= k < i ==> chars@[start + k] == word@[k],
        decreases word.len() - i,
    {
        if chars[start + i] != word[i] {
            assert(chars@.subrange(start as int, end as int)[i as int] != word@[i as int]);
            return false;
        }
        i = i + 1;
    }
    assert(chars@.subrange(start as int, end as int) =~= word@);
    true
}

/// The USB serial receive handler.
pub struct Handler;

impl Handler {
    /// A new handler.
    pub fn new() -> (h: Handler) {
        Handler
    }

    /// Decides what to do with `data` received over the USB serial port.
    pub fn handle_data(&self, data: &[u8]) -> (action: HandlerAction)
        ensures
            action@ == reaction(data@),
    {
        match str_from_utf8(data) {
            None => HandlerAction::Ignore,
            Some(text) => {
                proof {
                    encode_utf8_decode_utf8(text@);
                }
                let chars = chars_of(text);
                let (start, end) = trim_bounds(&chars);
                let quit: [char; 1] = ['q'];
                let closed: [char; 12] = ['e', 'l', 'f', '2', 'u', 'f', '2', '-', 't', 'e', 'r', 'm'];
                assert(quit@ == quit_word());
                assert(closed@ == terminal_closed_word());
                if slice_equals(&chars, start, end, &quit) || slice_equals(&chars, start, end, &closed) {
                    HandlerAction::ResetToUsbBoot
                } else {
                    let mut trimmed = String::new();
                    let mut i: usize = start;
                    while i < end
                        invariant
                            start <= i <= end <= chars.len(),
                            trimmed@ == chars@.subrange(start as int, i as int),
                        decreases end - i,
                    {
                        push_char(&mut trimmed, chars[i]);
                        assert(chars@.subrange(start as int, i + 1) =~= chars@.subrange(start as int, i as int).push(chars@[i as int]));
                        i = i + 1;
                    }
                    HandlerAction::Log(trimmed)
                }
            },
        }
    }
}

} // verus!
