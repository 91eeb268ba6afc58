//! Raw stream bytes to rendered ANSI.
//!
//! ```text
//! bytes -> (UTF-8 carry) -> StreamRenderer -> TerminalSink -> TokenRenderer<Vec<u8>> -> ANSI
//! ```
//!
//! The renderer is `trace_stream`'s, given a `Vec<u8>` instead of a terminal.
//! Bytes arrive split at arbitrary points, possibly inside a multi-byte
//! character, while the renderer takes text: the pipeline decodes what it
//! has, shows each byte that can begin or continue no character as U+FFFD,
//! and holds only an unfinished character at the end until the next bytes
//! arrive.

use vstd::prelude::*;
use vstd::utf8::{decode_utf8, is_continuation_byte, pop_first_scalar, valid_utf8, valid_utf8_concat};
use vstd::string::StringExecFns;
use trace_stream::render::{RenderOptions, TokenRenderer};
use trace_stream::viz::StreamRenderer;
use trace_stream::TerminalSink;
use stack::RenderStack;

mod stack;

verus! {

broadcast use valid_utf8_concat;

#[verifier::external_type_specification]
#[verifier::external_body]
pub struct ExRenderOptions(RenderOptions);

/// The rendering stack: `trace_stream`'s stream renderer, over a terminal
/// sink, over a token renderer that writes ANSI into a `Vec<u8>`, held
/// whole. The `Vec<u8>` at its bottom is known by `rendered_output`, and the
/// bytes the stream renderer holds back by `renderer_held_bytes`.
#[verifier::external_body]
#[derive(Debug)]
pub struct AnsiRenderer {
    stream: StreamRenderer<TerminalSink<Vec<u8>>>,
}

/// The rendered bytes waiting in the `Vec<u8>` at the bottom of the stack.
pub uninterp spec fn rendered_output(r: AnsiRenderer) -> Seq<u8>;

/// The render options the stack was built with (kept by the token renderer,
/// which never changes them).
pub uninterp spec fn renderer_options(r: AnsiRenderer) -> RenderOptions;

/// The tool names the stack's pseudo-tool detector recognizes (set only by
/// `StreamRenderer::set_tool_names`).
pub uninterp spec fn renderer_tool_names(r: AnsiRenderer) -> Seq<Seq<char>>;

/// The bytes the stream renderer holds back until they form complete text:
/// its visible-text carry followed by its thinking-text carry.
pub uninterp spec fn renderer_held_bytes(r: AnsiRenderer) -> Seq<u8>;

/// Both `r` and `s` were built with the same options and know the same tool
/// names.
pub open spec fn same_setup(r: AnsiRenderer, s: AnsiRenderer) -> bool {
    &&& renderer_options(s) == renderer_options(r)
    &&& renderer_tool_names(s) == renderer_tool_names(r)
}

/// `s` holds what `r` held, possibly followed by more: the stack only ever
/// appends to its `Vec<u8>`.
pub open spec fn appends_to(r: AnsiRenderer, s: AnsiRenderer) -> bool {
    &&& rendered_output(r).len() <= rendered_output(s).len()
    &&& rendered_output(s).subrange(0, rendered_output(r).len() as int) == rendered_output(r)
}

/// `StreamRenderer::new(TerminalSink::new(TokenRenderer::new(Vec::new(),
/// opts)))`: a DSML stream renderer over an empty `Vec<u8>`, built with
/// `opts` and knowing no tool names. None of the three constructors writes
/// anything, and the stream renderer starts with both carries empty.
#[verifier::external_body]
fn ansi_renderer_new(opts: RenderOptions) -> (r: AnsiRenderer)
    ensures
        rendered_output(r) == Seq::<u8>::empty(),
        renderer_held_bytes(r) == Seq::<u8>::empty(),
        renderer_options(r) == opts,
        renderer_tool_names(r) == Seq::<Seq<char>>::empty(),
{
    AnsiRenderer {
        stream: StreamRenderer::new(TerminalSink::new(TokenRenderer::new(Vec::new(), opts))),
    }
}

/// `StreamRenderer::set_tool_names(names)`: tells the pseudo-tool detector
/// which tool names exist. It renders nothing and holds nothing back.
#[verifier::external_body]
fn renderer_set_tool_names(r: &mut AnsiRenderer, names: Vec<String>)
    ensures
        rendered_output(*final(r)) == rendered_output(*old(r)),
        renderer_held_bytes(*final(r)) == renderer_held_bytes(*old(r)),
        renderer_options(*final(r)) == renderer_options(*old(r)),
        renderer_tool_names(*final(r)) == names@.map_values(|name: String| name@),
{
    r.stream.set_tool_names(names);
}

/// `StreamRenderer::push(text)`: feeds one chunk of model output. The stack
/// only ever appends to its `Vec<u8>`. What it appends is not stated: besides
/// the stack's state and the text, it depends on files on disk (a `write`
/// call's preview is shown only when the target does not exist) and on the
/// current directory (path summaries).
#[verifier::external_body]
fn renderer_push(r: &mut AnsiRenderer, text: &str)
    ensures
        appends_to(*old(r), *final(r)),
        same_setup(*old(r), *final(r)),
{
    r.stream.push(text);
}

/// `StreamRenderer::finish()`: ends the stream, flushing held-back bytes and
/// open banners. As with `push`, it only appends, and what it appends is not
/// stated. Its `flush_carry` writes out both carries and empties them, and
/// nothing after it in `finish` leaves bytes in a carry (the one later write
/// through a carry is a complete `"\n"`, which is flushed at once), so the
/// renderer holds nothing back afterwards.
#[verifier::external_body]
fn renderer_finish(r: &mut AnsiRenderer)
    ensures
        appends_to(*old(r), *final(r)),
        same_setup(*old(r), *final(r)),
        renderer_held_bytes(*final(r)) == Seq::<u8>::empty(),
{
    r.stream.finish();
}

/// `std::mem::take` on the `Vec<u8>` reached through
/// `StreamRenderer::sink_mut`, `TerminalSink::renderer_mut` and
/// `TokenRenderer::sink_mut`: hands out the waiting bytes and leaves the
/// `Vec<u8>` empty.
#[verifier::external_body]
fn renderer_take_output(r: &mut AnsiRenderer) -> (bytes: Vec<u8>)
    ensures
        bytes@ == rendered_output(*old(r)),
        rendered_output(*final(r)) == Seq::<u8>::empty(),
        renderer_held_bytes(*final(r)) == renderer_held_bytes(*old(r)),
        same_setup(*old(r), *final(r)),
{
    std::mem::take(r.stream.sink_mut().renderer_mut().sink_mut())
}

/// `n` is the length of the longest prefix of `bytes` that is valid UTF-8.
pub open spec fn is_longest_valid_prefix(bytes: Seq<u8>, n: int) -> bool {
    &&& 0 <= n <= bytes.len()
    &&& valid_utf8(bytes.subrange(0, n))
    &&& forall|k: int| n < k <= bytes.len() ==> !valid_utf8(#[trigger] bytes.subrange(0, k))
}

#[verifier::external_type_specification]
#[verifier::external_body]
pub struct ExUtf8Error(std::str::Utf8Error);

/// The length `Utf8Error::valid_up_to` reports for `e`.
pub uninterp spec fn utf8_error_valid_up_to(e: std::str::Utf8Error) -> usize;

/// `std::str::from_utf8(bytes)`: the text when `bytes` are valid UTF-8, and
/// otherwise an error whose `valid_up_to`, std documents, is the maximum
/// index `i` for which `from_utf8(&bytes[..i])` succeeds.
#[verifier::external_body]
fn str_from_utf8(bytes: &[u8]) -> (r: Result<&str, std::str::Utf8Error>)
    ensures
        match r {
            Ok(text) => valid_utf8(bytes@) && text@ == decode_utf8(bytes@),
            Err(e) => !valid_utf8(bytes@) && is_longest_valid_prefix(
                bytes@,
                utf8_error_valid_up_to(e) as int,
            ),
        },
{
    std::str::from_utf8(bytes)
}

/// `Utf8Error::valid_up_to()`.
#[verifier::external_body]
fn utf8_valid_up_to(e: &std::str::Utf8Error) -> (n: usize)
    ensures
        n == utf8_error_valid_up_to(*e),
{
    e.valid_up_to()
}

/// The length of the longest valid UTF-8 prefix of `bytes`: all of them when
/// `std::str::from_utf8` takes them, and otherwise its error's
/// `valid_up_to`.
fn valid_utf8_prefix_len(bytes: &[u8]) -> (n: usize)
    ensures
        is_longest_valid_prefix(bytes@, n as int),
{
    match str_from_utf8(bytes) {
        Ok(_) => {
            assert(bytes@.subrange(0, bytes@.len() as int) =~= bytes@);
            bytes.len()
        },
        Err(e) => utf8_valid_up_to(&e),
    }
}

/// The length of the longest valid UTF-8 prefix of `bytes` among its first
/// `k` prefixes, searching down from `k`.
pub open spec fn valid_prefix_at_most(bytes: Seq<u8>, k: int) -> int
    decreases k,
{
    if k <= 0 {
        0
    } else if valid_utf8(bytes.subrange(0, k)) {
        k
    } else {
        valid_prefix_at_most(bytes, k - 1)
    }
}

/// The length of the longest prefix of `bytes` that is valid UTF-8.
pub open spec fn longest_valid_prefix(bytes: Seq<u8>) -> int {
    valid_prefix_at_most(bytes, bytes.len() as int)
}

/// The number of bytes in the well-formed encoding of one character that
/// begins with `lead`: 1 for ASCII, 2, 3 or 4 for the leading bytes allowed
/// by UTF-8, and 0 for a byte that cannot begin a character (a continuation
/// byte, `0xC0`, `0xC1`, or `0xF5` and above).
pub open spec fn lead_width(lead: u8) -> int {
    if lead <= 0x7f {
        1
    } else if 0xc2 <= lead <= 0xdf {
        2
    } else if 0xe0 <= lead <= 0xef {
        3
    } else if 0xf0 <= lead <= 0xf4 {
        4
    } else {
        0
    }
}

/// Whether `second` may follow `lead` in a well-formed encoding: the second
/// byte is a continuation byte, narrowed after `0xE0` (no overlong form),
/// `0xED` (no surrogate), `0xF0` (no overlong form) and `0xF4` (nothing
/// past `U+10FFFF`).
pub open spec fn second_byte_fits(lead: u8, second: u8) -> bool {
    if lead == 0xe0 {
        0xa0 <= second <= 0xbf
    } else if lead == 0xed {
        0x80 <= second <= 0x9f
    } else if lead == 0xf0 {
        0x90 <= second <= 0xbf
    } else if lead == 0xf4 {
        0x80 <= second <= 0x8f
    } else {
        0x80 <= second <= 0xbf
    }
}

/// `bytes` is the start of the encoding of one character that later bytes
/// can still complete: fewer bytes than its leading byte announces, each of
/// them allowed where it stands.
pub open spec fn unfinished_char(bytes: Seq<u8>) -> bool {
    &&& 0 < bytes.len() < lead_width(bytes[0])
    &&& bytes.len() >= 2 ==> second_byte_fits(bytes[0], bytes[1])
    &&& bytes.len() >= 3 ==> is_continuation_byte(bytes[2])
}

/// The replacement character shown for a byte that cannot be decoded.
pub open spec fn replacement() -> Seq<char> {
    seq!['\u{FFFD}']
}

/// The text `bytes` stand for, read from the front: each longest valid
/// UTF-8 run is decoded; a byte where no character can start or continue is
/// shown as U+FFFD and reading goes on after it; an unfinished character at
/// the end is left out (it is held, see `scan_held`).
pub open spec fn scan_text(bytes: Seq<u8>) -> Seq<char>
    decreases bytes.len(),
{
    let n = longest_valid_prefix(bytes);
    let rest = bytes.subrange(n, bytes.len() as int);
    if 0 <= n <= bytes.len() && rest.len() > 0 && !unfinished_char(rest) {
        decode_utf8(bytes.subrange(0, n)) + replacement() + scan_text(rest.drop_first())
    } else {
        decode_utf8(bytes.subrange(0, n))
    }
}

/// The bytes left over when `bytes` are read as `scan_text` reads them: the
/// unfinished character at the end, if there is one, and nothing otherwise.
pub open spec fn scan_held(bytes: Seq<u8>) -> Seq<u8>
    decreases bytes.len(),
{
    let n = longest_valid_prefix(bytes);
    let rest = bytes.subrange(n, bytes.len() as int);
    if 0 <= n <= bytes.len() && rest.len() > 0 && !unfinished_char(rest) {
        scan_held(rest.drop_first())
    } else {
        rest
    }
}

/// The text that a delivery of `bytes` completes while `held` bytes wait.
pub open spec fn completed_text(held: Seq<u8>, bytes: Seq<u8>) -> Seq<char> {
    scan_text(held + bytes)
}

/// The bytes still held after a delivery of `bytes` while `held` bytes wait.
pub open spec fn held_after(held: Seq<u8>, bytes: Seq<u8>) -> Seq<u8> {
    scan_held(held + bytes)
}

proof fn lemma_codepoint_2_not_overlong_after_c0_c1(b0: u8, b1: u8)
    by (bit_vector)
    requires
        0xc0 <= b0 <= 0xc1,
        0x80 <= b1 <= 0xbf,
    ensures
        vstd::utf8::codepoint_width_2(b0, b1) < 0x80,
{
}

proof fn lemma_codepoint_3_after_e0(b1: u8, b2: u8)
    by (bit_vector)
    requires
        0x80 <= b1 <= 0x9f,
        0x80 <= b2 <= 0xbf,
    ensures
        vstd::utf8::codepoint_width_3(0xe0u8, b1, b2) < 0x800,
{
}

proof fn lemma_codepoint_3_after_ed(b1: u8, b2: u8)
    by (bit_vector)
    requires
        0xa0 <= b1 <= 0xbf,
        0x80 <= b2 <= 0xbf,
    ensures
        0xd800 <= vstd::utf8::codepoint_width_3(0xedu8, b1, b2) <= 0xdfff,
{
}

proof fn lemma_codepoint_4_after_f0(b1: u8, b2: u8, b3: u8)
    by (bit_vector)
    requires
        0x80 <= b1 <= 0x8f,
        0x80 <= b2 <= 0xbf,
        0x80 <= b3 <= 0xbf,
    ensures
        vstd::utf8::codepoint_width_4(0xf0u8, b1, b2, b3) < 0x10000,
{
}

proof fn lemma_codepoint_4_past_max(b0: u8, b1: u8, b2: u8, b3: u8)
    by (bit_vector)
    requires
        (b0 == 0xf4 && 0x90 <= b1 <= 0xbf) || (0xf5 <= b0 <= 0xf7 && 0x80 <= b1 <= 0xbf),
        0x80 <= b2 <= 0xbf,
        0x80 <= b3 <= 0xbf,
    ensures
        vstd::utf8::codepoint_width_4(b0, b1, b2, b3) > 0x10ffff,
{
}

/// A valid encoding of one character begins with a byte of non-zero
/// `lead_width`, that width is the encoding's length, and its second byte
/// fits.
proof fn lemma_valid_scalar_shape(y: Seq<u8>)
    requires
        vstd::utf8::valid_first_scalar(y),
    ensures
        lead_width(y[0]) == vstd::utf8::length_of_first_scalar(y),
        lead_width(y[0]) >= 2 ==> second_byte_fits(y[0], y[1]),
        lead_width(y[0]) >= 3 ==> vstd::utf8::is_continuation_byte(y[2]),
{
    if vstd::utf8::is_leading_byte_width_2(y[0]) {
        if y[0] <= 0xc1 {
            lemma_codepoint_2_not_overlong_after_c0_c1(y[0], y[1]);
        }
    } else if vstd::utf8::is_leading_byte_width_3(y[0]) {
        if y[0] == 0xe0 && y[1] < 0xa0 {
            lemma_codepoint_3_after_e0(y[1], y[2]);
        }
        if y[0] == 0xed && y[1] >= 0xa0 {
            lemma_codepoint_3_after_ed(y[1], y[2]);
        }
    } else if vstd::utf8::is_leading_byte_width_4(y[0]) {
        if y[0] == 0xf0 && y[1] < 0x90 {
            lemma_codepoint_4_after_f0(y[1], y[2], y[3]);
        }
        if (y[0] == 0xf4 && y[1] >= 0x90) || y[0] >= 0xf5 {
            lemma_codepoint_4_past_max(y[0], y[1], y[2], y[3]);
        }
    }
}

/// A proper, non-empty start of a valid encoding of one character is an
/// unfinished character.
proof fn lemma_start_of_scalar_is_unfinished(y: Seq<u8>, j: int)
    requires
        vstd::utf8::valid_first_scalar(y),
        0 < j < vstd::utf8::length_of_first_scalar(y),
    ensures
        unfinished_char(y.subrange(0, j)),
{
    lemma_valid_scalar_shape(y);
}

/// An unfinished character begins no complete character.
pub proof fn lemma_unfinished_begins_no_character(t: Seq<u8>)
    requires
        unfinished_char(t),
    ensures
        begins_no_character(t),
        t.len() <= 3,
{
    assert forall|k: int| 0 < k <= t.len() implies !valid_utf8(#[trigger] t.subrange(0, k)) by {
        if valid_utf8(t.subrange(0, k)) {
            let y = t.subrange(0, k);
            assert(vstd::utf8::valid_first_scalar(y));
            lemma_valid_scalar_shape(y);
        }
    }
}

/// One valid encoding of a single character is valid UTF-8.
proof fn lemma_one_scalar_is_valid(z: Seq<u8>)
    requires
        vstd::utf8::valid_first_scalar(z),
        vstd::utf8::length_of_first_scalar(z) == z.len(),
    ensures
        valid_utf8(z),
{
    assert(pop_first_scalar(z) =~= Seq::<u8>::empty());
    reveal_with_fuel(valid_utf8, 2);
}

/// After a valid run, the longest valid prefix and the reading go on
/// unchanged: a valid front `v` is decoded and the rest is read as if alone.
proof fn lemma_valid_front(v: Seq<u8>, y: Seq<u8>)
    requires
        valid_utf8(v),
    ensures
        longest_valid_prefix(v + y) == v.len() + longest_valid_prefix(y),
        scan_text(v + y) == decode_utf8(v) + scan_text(y),
        scan_held(v + y) == scan_held(y),
{
    let w = v + y;
    let m = longest_valid_prefix(y);
    lemma_longest_valid_prefix(y, m);
    let n = v.len() + m;
    assert(w.subrange(0, n) =~= v + y.subrange(0, m));
    assert forall|k: int| n < k <= w.len() implies !valid_utf8(#[trigger] w.subrange(0, k)) by {
        if valid_utf8(w.subrange(0, k)) {
            let z = w.subrange(0, k);
            assert(z.subrange(0, v.len() as int) =~= v);
            lemma_valid_prefix_splits(z, v.len() as int);
            assert(z.subrange(v.len() as int, z.len() as int) =~= y.subrange(0, k - v.len()));
        }
    }
    lemma_longest_valid_prefix(w, n);
    let z = w.subrange(0, n);
    assert(z.subrange(0, v.len() as int) =~= v);
    lemma_valid_prefix_splits(z, v.len() as int);
    assert(z.subrange(v.len() as int, n) =~= y.subrange(0, m));
    assert(w.subrange(n, w.len() as int) =~= y.subrange(m, y.len() as int));
    assert(decode_utf8(w.subrange(0, n)) == decode_utf8(v) + decode_utf8(y.subrange(0, m)));
    assert(scan_text(v + y) =~= decode_utf8(v) + scan_text(y));
}

/// Bytes that begin no character and are not an unfinished one stay so
/// whatever follows: nothing valid starts there, and no later byte can turn
/// them into an unfinished character.
proof fn lemma_dead_start_stays_dead(x: Seq<u8>, b: Seq<u8>)
    requires
        longest_valid_prefix(x) == 0,
        x.len() > 0,
        !unfinished_char(x),
    ensures
        longest_valid_prefix(x + b) == 0,
        !unfinished_char(x + b),
{
    lemma_longest_valid_prefix(x, 0);
    let w = x + b;
    assert(w.subrange(0, 0) =~= Seq::<u8>::empty());
    assert forall|k: int| 0 < k <= w.len() implies !valid_utf8(#[trigger] w.subrange(0, k)) by {
        if valid_utf8(w.subrange(0, k)) {
            let y = w.subrange(0, k);
            assert(vstd::utf8::valid_first_scalar(y));
            let l = vstd::utf8::length_of_first_scalar(y);
            if l <= x.len() {
                let z = x.subrange(0, l);
                assert(z =~= y.subrange(0, l));
                assert(z[0] == y[0]);
                assert(l >= 2 ==> z[1] == y[1]);
                assert(l >= 3 ==> z[2] == y[2]);
                assert(l >= 4 ==> z[3] == y[3]);
                assert(vstd::utf8::valid_first_scalar(z));
                lemma_one_scalar_is_valid(z);
            } else {
                lemma_start_of_scalar_is_unfinished(y, x.len() as int);
                assert(y.subrange(0, x.len() as int) =~= x);
            }
        }
    }
    lemma_longest_valid_prefix(w, 0);
    if unfinished_char(w) {
        assert(w[0] == x[0]);
        assert(x.len() >= 2 ==> w[1] == x[1]);
        assert(x.len() >= 3 ==> w[2] == x[2]);
    }
}

proof fn lemma_scan_splits(x: Seq<u8>, b: Seq<u8>)
    ensures
        scan_text(x) + scan_text(scan_held(x) + b) == scan_text(x + b),
        scan_held(scan_held(x) + b) == scan_held(x + b),
    decreases x.len(),
{
    let n = longest_valid_prefix(x);
    lemma_longest_valid_prefix(x, n);
    let front = x.subrange(0, n);
    let rest = x.subrange(n, x.len() as int);
    assert(x =~= front + rest);
    assert(x + b =~= front + (rest + b));
    lemma_valid_front(front, rest + b);
    if rest.len() == 0 {
        assert(rest + b =~= b);
        assert(scan_held(x) == rest);
        assert(scan_held(x) + b =~= b);
    } else if unfinished_char(rest) {
    } else {
        let r1 = rest.drop_first();
        lemma_longest_valid_prefix(rest, 0);
        assert forall|k: int| 0 < k <= rest.len() implies !valid_utf8(
            #[trigger] rest.subrange(0, k),
        ) by {
            if valid_utf8(rest.subrange(0, k)) {
                assert(x.subrange(0, n + k) =~= front + rest.subrange(0, k));
            }
        }
        assert(rest.subrange(0, 0) =~= Seq::<u8>::empty());
        lemma_longest_valid_prefix(rest, 0);
        lemma_dead_start_stays_dead(rest, b);
        let rb = rest + b;
        assert(rb.subrange(0, 0) =~= Seq::<u8>::empty());
        assert(rb.subrange(0, rb.len() as int) =~= rb);
        assert(rb.drop_first() =~= r1 + b);
        assert(decode_utf8(Seq::<u8>::empty()) =~= Seq::<char>::empty());
        assert(scan_text(rb) =~= replacement() + scan_text(r1 + b));
        assert(scan_held(rb) == scan_held(r1 + b));
        lemma_scan_splits(r1, b);
        assert(scan_text(x) == decode_utf8(front) + replacement() + scan_text(r1));
        assert(scan_held(x) == scan_held(r1));
        assert(scan_text(x) + scan_text(scan_held(x) + b) =~= scan_text(x + b));
    }
}

/// Delivering bytes in two pieces completes the same text, and leaves the
/// same bytes held, as delivering them at once: the text of the first
/// delivery followed by that of the second is the text of the whole.
pub proof fn lemma_split_delivery_matches_whole(held: Seq<u8>, first: Seq<u8>, second: Seq<u8>)
    ensures
        completed_text(held, first) + completed_text(held_after(held, first), second)
            == completed_text(held, first + second),
        held_after(held_after(held, first), second) == held_after(held, first + second),
{
    lemma_scan_splits(held + first, second);
    assert(held + first + second =~= held + (first + second));
}

/// Only an unfinished character is ever held: the held bytes are either
/// none, or at most three bytes that begin no complete character and can
/// still be completed.
pub proof fn lemma_only_an_unfinished_character_is_held(held: Seq<u8>, bytes: Seq<u8>)
    ensures
        held_after(held, bytes).len() == 0 || unfinished_char(held_after(held, bytes)),
        held_after(held, bytes).len() <= 3,
        begins_no_character(held_after(held, bytes)),
{
    lemma_scan_held_shape(held + bytes);
    let h = held_after(held, bytes);
    if h.len() == 0 {
    } else {
        lemma_unfinished_begins_no_character(h);
    }
}

proof fn lemma_scan_held_shape(x: Seq<u8>)
    ensures
        scan_held(x).len() == 0 || unfinished_char(scan_held(x)),
    decreases x.len(),
{
    let n = longest_valid_prefix(x);
    lemma_longest_valid_prefix(x, n);
    let rest = x.subrange(n, x.len() as int);
    if rest.len() > 0 && !unfinished_char(rest) {
        lemma_scan_held_shape(rest.drop_first());
    }
}

/// A byte that cannot begin a character is shown as U+FFFD, and what
/// follows it is read as if it came alone: an invalid byte never holds back
/// the text after it.
pub proof fn lemma_invalid_byte_becomes_replacement(bad: u8, after: Seq<u8>)
    requires
        lead_width(bad) == 0,
    ensures
        scan_text(seq![bad] + after) == replacement() + scan_text(after),
        scan_held(seq![bad] + after) == scan_held(after),
{
    let x = seq![bad];
    assert forall|k: int| 0 < k <= x.len() implies !valid_utf8(#[trigger] x.subrange(0, k)) by {
        if valid_utf8(x.subrange(0, k)) {
            assert(x.subrange(0, k) =~= x);
            assert(vstd::utf8::valid_first_scalar(x));
            lemma_valid_scalar_shape(x);
        }
    }
    assert(x.subrange(0, 0) =~= Seq::<u8>::empty());
    lemma_longest_valid_prefix(x, 0);
    lemma_dead_start_stays_dead(x, after);
    let w = x + after;
    assert(w.subrange(0, 0) =~= Seq::<u8>::empty());
    assert(w.subrange(0, w.len() as int) =~= w);
    assert(w.drop_first() =~= after);
    assert(decode_utf8(Seq::<u8>::empty()) =~= Seq::<char>::empty());
    assert(scan_text(w) =~= replacement() + scan_text(after));
}

/// Bytes that are valid UTF-8 as a whole, together with what was held, pass
/// through at once: the delivery completes all of their text and nothing is
/// held back.
pub proof fn lemma_complete_text_passes_through(held: Seq<u8>, bytes: Seq<u8>)
    requires
        valid_utf8(held + bytes),
    ensures
        completed_text(held, bytes) == decode_utf8(held + bytes),
        held_after(held, bytes) == Seq::<u8>::empty(),
{
    let a = held + bytes;
    let e = Seq::<u8>::empty();
    lemma_valid_front(a, e);
    assert(a + e =~= a);
    lemma_longest_valid_prefix(e, 0);
    assert(e.subrange(0, 0) =~= e);
    assert(decode_utf8(e) =~= Seq::<char>::empty());
    assert(scan_text(e) =~= Seq::<char>::empty());
    assert(scan_held(e) =~= e);
}

/// No non-empty prefix of `bytes` is valid UTF-8: the bytes do not begin
/// with a complete character.
pub open spec fn begins_no_character(bytes: Seq<u8>) -> bool {
    forall|k: int| 0 < k <= bytes.len() ==> !valid_utf8(#[trigger] bytes.subrange(0, k))
}

proof fn lemma_valid_prefix_at_most(bytes: Seq<u8>, k: int)
    requires
        0 <= k <= bytes.len(),
    ensures
        0 <= valid_prefix_at_most(bytes, k) <= k,
        valid_utf8(bytes.subrange(0, valid_prefix_at_most(bytes, k))),
        forall|j: int|
            valid_prefix_at_most(bytes, k) < j <= k ==> !valid_utf8(
                #[trigger] bytes.subrange(0, j),
            ),
    decreases k,
{
    if k <= 0 {
        assert(bytes.subrange(0, 0) =~= Seq::<u8>::empty());
    } else if !valid_utf8(bytes.subrange(0, k)) {
        lemma_valid_prefix_at_most(bytes, k - 1);
    }
}

/// `longest_valid_prefix` is the one length that is a longest valid prefix.
pub proof fn lemma_longest_valid_prefix(bytes: Seq<u8>, n: int)
    ensures
        is_longest_valid_prefix(bytes, longest_valid_prefix(bytes)),
        is_longest_valid_prefix(bytes, n) ==> n == longest_valid_prefix(bytes),
{
    lemma_valid_prefix_at_most(bytes, bytes.len() as int);
    let m = longest_valid_prefix(bytes);
    if is_longest_valid_prefix(bytes, n) {
        if n < m {
            assert(!valid_utf8(bytes.subrange(0, m)));
        } else if m < n {
            assert(!valid_utf8(bytes.subrange(0, n)));
        }
    }
}

/// A valid UTF-8 sequence splits after any of its valid prefixes: the rest
/// is valid too, and the text is the prefix's text followed by the rest's.
pub proof fn lemma_valid_prefix_splits(y: Seq<u8>, k: int)
    requires
        valid_utf8(y),
        0 <= k <= y.len(),
        valid_utf8(y.subrange(0, k)),
    ensures
        valid_utf8(y.subrange(k, y.len() as int)),
        decode_utf8(y) == decode_utf8(y.subrange(0, k)) + decode_utf8(
            y.subrange(k, y.len() as int),
        ),
    decreases y.len(),
{
    if k == 0 {
        assert(y.subrange(0, 0) =~= Seq::<u8>::empty());
        assert(y.subrange(0, y.len() as int) =~= y);
        assert(decode_utf8(y.subrange(0, 0)) =~= Seq::<char>::empty());
        assert(decode_utf8(y) =~= decode_utf8(y.subrange(0, 0)) + decode_utf8(y));
    } else {
        let x = y.subrange(0, k);
        assert(x.len() > 0);
        assert(x[0] == y[0]);
        assert(k >= 2 ==> x[1] == y[1]);
        assert(k >= 3 ==> x[2] == y[2]);
        assert(k >= 4 ==> x[3] == y[3]);
        let l = vstd::utf8::length_of_first_scalar(x);
        assert(vstd::utf8::length_of_first_scalar(y) == l);
        assert(vstd::utf8::decode_first_scalar(y) == vstd::utf8::decode_first_scalar(x));
        let py = pop_first_scalar(y);
        let px = pop_first_scalar(x);
        assert(px =~= py.subrange(0, k - l));
        lemma_valid_prefix_splits(py, k - l);
        assert(py.subrange(k - l, py.len() as int) =~= y.subrange(k, y.len() as int));
        let c = vstd::utf8::decode_first_scalar(y) as char;
        assert(decode_utf8(y) == seq![c] + decode_utf8(py));
        assert(decode_utf8(x) == seq![c] + decode_utf8(px));
        assert(decode_utf8(y) =~= decode_utf8(x) + decode_utf8(y.subrange(k, y.len() as int)));
    }
}

/// The tool names the console's renderer knows, as the agent's dispatcher
/// spells them, so tool-call banners match what the agent itself renders.
/// Names of the `mcp__server__tool` form are discovered per server at run
/// time; the renderer applies that prefix rule itself, so they are not
/// listed.
pub open spec fn known_tool_names() -> Seq<Seq<char>> {
    seq![
        "EnterWorktree"@,
        "ExitWorktree"@,
        "EnterPlanMode"@,
        "ExitPlanMode"@,
        "read"@,
        "more"@,
        "write"@,
        "list"@,
        "glob"@,
        "edit"@,
        "search"@,
        "bash"@,
        "bash_status"@,
        "bash_stop"@,
        "google_search"@,
        "visit_page"@,
        "mcp_describe"@,
        "mcp_call"@,
        "mcp_list_resources"@,
        "mcp_read_resource"@,
        "skill"@,
        "task"@,
        "ask"@,
        "recall"@,
        "run_code"@,
    ]
}

/// The authoritative tool-name table, in the dispatcher's order.
pub fn tool_names() -> (names: Vec<String>)
    ensures
        names@.map_values(|name: String| name@) == known_tool_names(),
{
    broadcast use vstd::string::to_string_from_display_ensures_for_str;

    let mut names: Vec<String> = Vec::new();
    names.push("EnterWorktree".to_string());
    names.push("ExitWorktree".to_string());
    names.push("EnterPlanMode".to_string());
    names.push("ExitPlanMode".to_string());
    names.push("read".to_string());
    names.push("more".to_string());
    names.push("write".to_string());
    names.push("list".to_string());
    names.push("glob".to_string());
    names.push("edit".to_string());
    names.push("search".to_string());
    names.push("bash".to_string());
    names.push("bash_status".to_string());
    names.push("bash_stop".to_string());
    names.push("google_search".to_string());
    names.push("visit_page".to_string());
    names.push("mcp_describe".to_string());
    names.push("mcp_call".to_string());
    names.push("mcp_list_resources".to_string());
    names.push("mcp_read_resource".to_string());
    names.push("skill".to_string());
    names.push("task".to_string());
    names.push("ask".to_string());
    names.push("recall".to_string());
    names.push("run_code".to_string());
    assert(names@.map_values(|name: String| name@) =~= known_tool_names());
    names
}

/// The table holds every tool the dispatcher offers, each under the exact
/// name the dispatcher gives it (the worktree and plan-mode tools
/// capitalised, the rest in lower case), and nothing besides: twenty-five
/// entries for twenty-five tools.
pub proof fn lemma_dispatcher_tools_are_known()
    ensures
        known_tool_names().len() == 25,
        known_tool_names().contains("EnterWorktree"@),
        known_tool_names().contains("ExitWorktree"@),
        known_tool_names().contains("EnterPlanMode"@),
        known_tool_names().contains("ExitPlanMode"@),
        known_tool_names().contains("read"@),
        known_tool_names().contains("more"@),
        known_tool_names().contains("write"@),
        known_tool_names().contains("list"@),
        known_tool_names().contains("glob"@),
        known_tool_names().contains("edit"@),
        known_tool_names().contains("search"@),
        known_tool_names().contains("bash"@),
        known_tool_names().contains("bash_status"@),
        known_tool_names().contains("bash_stop"@),
        known_tool_names().contains("google_search"@),
        known_tool_names().contains("visit_page"@),
        known_tool_names().contains("mcp_describe"@),
        known_tool_names().contains("mcp_call"@),
        known_tool_names().contains("mcp_list_resources"@),
        known_tool_names().contains("mcp_read_resource"@),
        known_tool_names().contains("skill"@),
        known_tool_names().contains("task"@),
        known_tool_names().contains("ask"@),
        known_tool_names().contains("recall"@),
        known_tool_names().contains("run_code"@),
{
    assert(known_tool_names()[0] == "EnterWorktree"@);
    assert(known_tool_names()[1] == "ExitWorktree"@);
    assert(known_tool_names()[2] == "EnterPlanMode"@);
    assert(known_tool_names()[3] == "ExitPlanMode"@);
    assert(known_tool_names()[4] == "read"@);
    assert(known_tool_names()[5] == "more"@);
    assert(known_tool_names()[6] == "write"@);
    assert(known_tool_names()[7] == "list"@);
    assert(known_tool_names()[8] == "glob"@);
    assert(known_tool_names()[9] == "edit"@);
    assert(known_tool_names()[10] == "search"@);
    assert(known_tool_names()[11] == "bash"@);
    assert(known_tool_names()[12] == "bash_status"@);
    assert(known_tool_names()[13] == "bash_stop"@);
    assert(known_tool_names()[14] == "google_search"@);
    assert(known_tool_names()[15] == "visit_page"@);
    assert(known_tool_names()[16] == "mcp_describe"@);
    assert(known_tool_names()[17] == "mcp_call"@);
    assert(known_tool_names()[18] == "mcp_list_resources"@);
    assert(known_tool_names()[19] == "mcp_read_resource"@);
    assert(known_tool_names()[20] == "skill"@);
    assert(known_tool_names()[21] == "task"@);
    assert(known_tool_names()[22] == "ask"@);
    assert(known_tool_names()[23] == "recall"@);
    assert(known_tool_names()[24] == "run_code"@);
}

/// The byte count `lead_width` gives for `lead`.
fn lead_width_of(lead: u8) -> (w: usize)
    ensures
        w == lead_width(lead),
{
    if lead <= 0x7f {
        1
    } else if 0xc2 <= lead && lead <= 0xdf {
        2
    } else if 0xe0 <= lead && lead <= 0xef {
        3
    } else if 0xf0 <= lead && lead <= 0xf4 {
        4
    } else {
        0
    }
}

/// Whether `bytes` are an unfinished character.
fn is_unfinished_char(bytes: &[u8]) -> (unfinished: bool)
    ensures
        unfinished == unfinished_char(bytes@),
{
    if bytes.len() == 0 || bytes.len() >= lead_width_of(bytes[0]) {
        return false;
    }
    let lead = bytes[0];
    if bytes.len() >= 2 {
        let second = bytes[1];
        let fits = if lead == 0xe0 {
            0xa0 <= second && second <= 0xbf
        } else if lead == 0xed {
            0x80 <= second && second <= 0x9f
        } else if lead == 0xf0 {
            0x90 <= second && second <= 0xbf
        } else if lead == 0xf4 {
            0x80 <= second && second <= 0x8f
        } else {
            0x80 <= second && second <= 0xbf
        };
        if !fits {
            return false;
        }
    }
    bytes.len() < 3 || (0x80 <= bytes[2] && bytes[2] <= 0xbf)
}

/// Reads `held` followed by `bytes` as `completed_text` and `held_after`
/// read them: the text they complete (valid runs decoded, each byte that
/// can begin or continue no character shown as U+FFFD), and the unfinished
/// character at the end, if any, which is left to wait for more bytes.
pub fn decode_delivery(held: &[u8], bytes: &[u8]) -> (decoded: (String, Vec<u8>))
    ensures
        decoded.0@ == completed_text(held@, bytes@),
        decoded.1@ == held_after(held@, bytes@),
{
    let mut pending: Vec<u8> = Vec::new();
    pending.extend_from_slice(held);
    pending.extend_from_slice(bytes);
    let ghost all = pending@;
    assert(all =~= held@ + bytes@);
    let mut text = String::new();
    let mut rest_held: Vec<u8> = Vec::new();
    loop
        invariant_except_break
            text@ + scan_text(pending@) == scan_text(all),
            scan_held(pending@) == scan_held(all),
        ensures
            text@ == scan_text(all),
            rest_held@ == scan_held(all),
        decreases pending.len(),
    {
        let n = valid_utf8_prefix_len(pending.as_slice());
        proof {
            lemma_longest_valid_prefix(pending@, n as int);
        }
        let ghost before = pending@;
        let mut rest = pending.split_off(n);
        assert(pending@ =~= before.subrange(0, n as int));
        assert(rest@ =~= before.subrange(n as int, before.len() as int));
        match str_from_utf8(pending.as_slice()) {
            Ok(piece) => text.append(piece),
            Err(_) => {},
        }
        if rest.len() == 0 || is_unfinished_char(rest.as_slice()) {
            rest_held = rest;
            break;
        }
        proof {
            reveal_strlit("\u{FFFD}");
        }
        text.append("\u{FFFD}");
        assert("\u{FFFD}"@ =~= replacement());
        rest.remove(0);
        pending = rest;
    }
    (text, rest_held)
}

/// One session's renderer state: the rendering stack and the trailing bytes
/// of an incomplete UTF-8 character, held until the rest of it arrives.
pub struct Pipeline {
    renderer: RenderStack,
    utf8_carry: Vec<u8>,
    /// All the bytes delivered so far, in order.
    received: Ghost<Seq<u8>>,
}

impl Pipeline {
    /// The bytes held back because they do not yet form a complete
    /// character.
    pub closed spec fn held(&self) -> Seq<u8> {
        self.utf8_carry@
    }

    /// The rendering stack's state.
    pub closed spec fn renderer(&self) -> AnsiRenderer {
        self.renderer.stack()
    }

    /// All the bytes delivered so far, in order.
    pub closed spec fn received(&self) -> Seq<u8> {
        self.received@
    }

    /// All the text pushed into the renderer so far, in order.
    pub closed spec fn sent(&self) -> Seq<char> {
        self.renderer.pushed()
    }

    /// All the ANSI the renderer has produced and the pipeline has handed
    /// out so far, in order.
    pub closed spec fn shown(&self) -> Seq<u8> {
        self.renderer.taken()
    }

    /// Between calls no rendered output waits in the stack (every call hands
    /// out everything it rendered), and the bytes delivered so far have been
    /// read once, in order: their text pushed, their unfinished end held.
    pub closed spec fn wf(&self) -> bool {
        &&& rendered_output(self.renderer.stack()) == Seq::<u8>::empty()
        &&& self.renderer.pushed() == scan_text(self.received@)
        &&& self.utf8_carry@ == scan_held(self.received@)
    }

    /// A pipeline rendering with `opts`, holding nothing, whose renderer
    /// knows the tool names of `tool_names`.
    pub fn new(opts: RenderOptions) -> (pipeline: Self)
        ensures
            pipeline.wf(),
            pipeline.held() == Seq::<u8>::empty(),
            pipeline.received() == Seq::<u8>::empty(),
            pipeline.sent() == Seq::<char>::empty(),
            pipeline.shown() == Seq::<u8>::empty(),
            renderer_options(pipeline.renderer()) == opts,
            renderer_tool_names(pipeline.renderer()) == known_tool_names(),
            renderer_held_bytes(pipeline.renderer()) == Seq::<u8>::empty(),
    {
        let mut renderer = RenderStack::new(opts);
        renderer.set_tool_names(tool_names());
        proof {
            let e = Seq::<u8>::empty();
            lemma_longest_valid_prefix(e, 0);
            assert(e.subrange(0, 0) =~= e);
            assert(decode_utf8(e) =~= Seq::<char>::empty());
        }
        Pipeline { renderer, utf8_carry: Vec::new(), received: Ghost(Seq::empty()) }
    }

    /// Pushes stream bytes through the renderer and returns the ANSI it
    /// produced. Bytes arrive UTF-8-split at arbitrary points and the
    /// renderer takes text: the held bytes followed by `bytes` are read by
    /// `decode_delivery`, and the text it completes is pushed when it is not
    /// empty. Only an unfinished character at the end is held, until the
    /// rest of it arrives. When nothing completes, nothing is rendered.
    pub fn feed(&mut self, bytes: &[u8]) -> (ansi: Vec<u8>)
        requires
            old(self).wf(),
        ensures
            final(self).wf(),
            final(self).received() == old(self).received() + bytes@,
            final(self).held() == held_after(old(self).held(), bytes@),
            final(self).sent() == old(self).sent() + completed_text(old(self).held(), bytes@),
            final(self).sent() == scan_text(final(self).received()),
            final(self).held() == scan_held(final(self).received()),
            final(self).held().len() <= 3,
            begins_no_character(final(self).held()),
            final(self).shown() == old(self).shown() + ansi@,
            same_setup(old(self).renderer(), final(self).renderer()),
            completed_text(old(self).held(), bytes@).len() == 0 ==> ansi@.len() == 0,
    {
        proof {
            lemma_only_an_unfinished_character_is_held(self.utf8_carry@, bytes@);
            lemma_scan_splits(self.received@, bytes@);
        }
        let mut carry: Vec<u8> = Vec::new();
        std::mem::swap(&mut carry, &mut self.utf8_carry);
        let (text, held) = decode_delivery(carry.as_slice(), bytes);
        self.utf8_carry = held;
        self.received = Ghost(self.received@ + bytes@);
        if !text.as_str().is_empty() {
            self.renderer.push(text.as_str());
        }
        proof {
            if text@.len() == 0 {
                assert(self.renderer.pushed() =~= self.renderer.pushed() + text@);
            }
        }
        self.drain()
    }

    /// Ends the stream: the renderer flushes what it held back and closes
    /// open banners, and the ANSI it produced is returned. Bytes held by the
    /// pipeline stay held.
    pub fn finish(&mut self) -> (ansi: Vec<u8>)
        requires
            old(self).wf(),
        ensures
            final(self).wf(),
            final(self).held() == old(self).held(),
            final(self).received() == old(self).received(),
            final(self).sent() == old(self).sent(),
            final(self).shown() == old(self).shown() + ansi@,
            same_setup(old(self).renderer(), final(self).renderer()),
            renderer_held_bytes(final(self).renderer()) == Seq::<u8>::empty(),
    {
        self.renderer.finish();
        self.drain()
    }

    /// Moves whatever ANSI the renderer has produced out of it.
    fn drain(&mut self) -> (ansi: Vec<u8>)
        requires
            old(self).renderer.pushed() == scan_text(old(self).received@),
            old(self).utf8_carry@ == scan_held(old(self).received@),
        ensures
            ansi@ == rendered_output(old(self).renderer()),
            final(self).wf(),
            final(self).held() == old(self).held(),
            final(self).received() == old(self).received(),
            final(self).sent() == old(self).sent(),
            final(self).shown() == old(self).shown() + ansi@,
            same_setup(old(self).renderer(), final(self).renderer()),
            renderer_held_bytes(final(self).renderer()) == renderer_held_bytes(
                old(self).renderer(),
            ),
    {
        self.renderer.take_output()
    }
}

/// Nothing the renderer produces is kept back or lost: between calls no
/// rendered ANSI waits in the stack, so all it has produced is what the
/// pipeline has handed out (`shown`), each call's result being exactly what
/// the stack produced during that call.
pub proof fn lemma_all_rendered_output_is_handed_out(p: &Pipeline)
    requires
        p.wf(),
    ensures
        rendered_output(p.renderer()) == Seq::<u8>::empty(),
{
}

/// Every delivered byte is read once and in order: for a session whose bytes
/// so far are a start of valid UTF-8, with `k` the length of their longest
/// valid prefix, the renderer has been handed exactly the text of the first
/// `k` bytes, and the rest (at most three bytes) is held.
pub proof fn lemma_valid_text_is_passed_on_exactly_once(p: &Pipeline, more: Seq<u8>, k: int)
    requires
        p.wf(),
        valid_utf8(p.received() + more),
        is_longest_valid_prefix(p.received(), k),
    ensures
        p.sent() == decode_utf8(p.received().subrange(0, k)),
        p.held() == p.received().subrange(k, p.received().len() as int),
        p.held().len() <= 3,
{
    lemma_start_of_valid_text(p.received(), more, k);
}

/// Bytes that valid UTF-8 begins with are read as their longest valid prefix
/// decoded, followed by at most three held bytes.
proof fn lemma_start_of_valid_text(c: Seq<u8>, more: Seq<u8>, k: int)
    requires
        valid_utf8(c + more),
        is_longest_valid_prefix(c, k),
    ensures
        scan_text(c) == decode_utf8(c.subrange(0, k)),
        scan_held(c) == c.subrange(k, c.len() as int),
        scan_held(c).len() <= 3,
{
    lemma_longest_valid_prefix(c, k);
    let rest = c.subrange(k, c.len() as int);
    if rest.len() > 0 {
        let w = c + more;
        assert(w.subrange(0, k) =~= c.subrange(0, k));
        lemma_valid_prefix_splits(w, k);
        let y = w.subrange(k, w.len() as int);
        assert(vstd::utf8::valid_first_scalar(y));
        let l = vstd::utf8::length_of_first_scalar(y);
        let j = rest.len() as int;
        if l <= j {
            let z = y.subrange(0, l);
            assert(z[0] == y[0]);
            assert(l >= 2 ==> z[1] == y[1]);
            assert(l >= 3 ==> z[2] == y[2]);
            assert(l >= 4 ==> z[3] == y[3]);
            assert(vstd::utf8::valid_first_scalar(z));
            lemma_one_scalar_is_valid(z);
            assert(c.subrange(0, k + l) =~= c.subrange(0, k) + z);
            assert(false);
        }
        lemma_start_of_scalar_is_unfinished(y, j);
        assert(y.subrange(0, j) =~= rest);
        lemma_unfinished_begins_no_character(rest);
    }
}

} // verus!
