//! The text console shown on the framebuffer: a history of written lines
//! and the whole text written so far, both in fixed-capacity storage.

use core::str::FromStr;
use heapless::{String, Vec};
use vstd::prelude::*;
use vstd::string::StringSliceAdditionalSpecFns;
use vstd::utf8::encode_utf8;

verus! {

pub const BUFFER_WIDTH: usize = 80;

pub const BUFFER_HEIGHT: usize = 25;

pub const BUFFER: usize = BUFFER_HEIGHT * BUFFER_WIDTH;

/// The fixed-capacity vector of heapless.
#[verifier::external_type_specification]
#[verifier::external_body]
#[verifier::reject_recursive_types(T)]
pub struct ExHeaplessVec<T, const N: usize>(Vec<T, N>);

/// The fixed-capacity string of heapless.
#[verifier::external_type_specification]
#[verifier::external_body]
pub struct ExHeaplessString<const N: usize>(String<N>);

/// The lines a line history holds, oldest first.
pub uninterp spec fn history_lines(q: Vec<String<BUFFER_WIDTH>, BUFFER_HEIGHT>) -> Seq<Seq<char>>;

/// The characters a line holds.
pub uninterp spec fn line_chars(line: String<BUFFER_WIDTH>) -> Seq<char>;

/// The characters the text buffer holds.
pub uninterp spec fn text_chars(text: String<BUFFER>) -> Seq<char>;

/// `heapless::Vec::new`: an empty vector.
#[verifier::external_body]
fn history_new() -> (q: Vec<String<BUFFER_WIDTH>, BUFFER_HEIGHT>)
    ensures
        history_lines(q) == Seq::<Seq<char>>::empty(),
{
    Vec::new()
}

/// `heapless::Vec::is_full`: the vector holds as many items as its
/// capacity.
#[verifier::external_body]
fn history_is_full(q: &Vec<String<BUFFER_WIDTH>, BUFFER_HEIGHT>) -> (r: bool)
    ensures
        r == (history_lines(*q).len() == BUFFER_HEIGHT),
{
    q.is_full()
}

/// `heapless::Vec::pop`: removes the last item, if there is one. The item
/// itself is dropped here. It does not panic.
#[verifier::external_body]
fn history_pop(q: &mut Vec<String<BUFFER_WIDTH>, BUFFER_HEIGHT>)
    ensures
        history_lines(*final(q)) == if history_lines(*old(q)).len() == 0 {
            history_lines(*old(q))
        } else {
            history_lines(*old(q)).drop_last()
        },
    no_unwind
{
    let _ = q.pop();
}

/// `heapless::Vec::push`: appends the item unless the vector is full, in
/// which case it is left alone; the result tells whether the item went in.
/// It does not panic.
#[verifier::external_body]
fn history_push(q: &mut Vec<String<BUFFER_WIDTH>, BUFFER_HEIGHT>, line: String<BUFFER_WIDTH>) -> (ok: bool)
    ensures
        ok == (history_lines(*old(q)).len() < BUFFER_HEIGHT),
        ok ==> history_lines(*final(q)) == history_lines(*old(q)).push(line_chars(line)),
        !ok ==> history_lines(*final(q)) == history_lines(*old(q)),
    no_unwind
{
    q.push(line).is_ok()
}

/// `<heapless::String as FromStr>::from_str`: a copy of `s`, refused when
/// `s` takes more bytes than the capacity.
#[verifier::external_body]
fn line_from_str(s: &str) -> (r: Result<String<BUFFER_WIDTH>, ()>)
    ensures
        r is Ok <==> s.spec_bytes().len() <= BUFFER_WIDTH,
        r matches Ok(line) ==> line_chars(line) == s@,
{
    String::<BUFFER_WIDTH>::from_str(s)
}

/// `heapless::String::as_str` on a line.
#[verifier::external_body]
fn line_as_str(line: &String<BUFFER_WIDTH>) -> (r: &str)
    ensures
        r@ == line_chars(*line),
{
    line.as_str()
}

/// `heapless::String::new`: an empty string.
#[verifier::external_body]
fn text_new() -> (t: String<BUFFER>)
    ensures
        text_chars(t) == Seq::<char>::empty(),
{
    String::new()
}

/// `heapless::String::push_str`: appends `s` when its bytes fit into the
/// remaining capacity, and otherwise leaves the string alone; the result
/// tells which. It does not panic.
#[verifier::external_body]
fn text_push_str(text: &mut String<BUFFER>, s: &str) -> (ok: bool)
    ensures
        ok == (encode_utf8(text_chars(*old(text))).len() + s.spec_bytes().len() <= BUFFER),
        ok ==> text_chars(*final(text)) == text_chars(*old(text)) + s@,
        !ok ==> text_chars(*final(text)) == text_chars(*old(text)),
    no_unwind
{
    text.push_str(s).is_ok()
}

/// `heapless::String::as_str` on the text buffer.
#[verifier::external_body]
fn text_as_str(text: &String<BUFFER>) -> (r: &str)
    ensures
        r@ == text_chars(*text),
{
    text.as_str()
}

/// The lines that stay when a new line is written: all of them, or all but
/// the most recent one when the history is full.
pub open spec fn kept_lines(lines: Seq<Seq<char>>) -> Seq<Seq<char>> {
    if lines.len() == BUFFER_HEIGHT {
        lines.drop_last()
    } else {
        lines
    }
}

/// The string fits into one line of the history.
pub open spec fn fits_line(s: &str) -> bool {
    s.spec_bytes().len() <= BUFFER_WIDTH
}

/// A string fits into a line exactly when its UTF-8 encoding takes at most
/// 80 bytes, whatever its characters: a lone newline fits, and so does
/// the empty string.
pub proof fn lemma_fits_line(s: &str)
    ensures
        fits_line(s) <==> s.spec_bytes().len() <= 80,
        s@.len() == 0 ==> fits_line(s),
{
    if s@.len() == 0 {
        assert(encode_utf8(s@) =~= Seq::<u8>::empty());
    }
}

/// The string fits behind `text` in the text buffer.
pub open spec fn fits_text(text: Seq<char>, s: &str) -> bool {
    encode_utf8(text).len() + s.spec_bytes().len() <= BUFFER
}

/// The UTF-8 encoding of two strings one after the other is the encoding
/// of the first followed by that of the second.
pub proof fn lemma_encode_utf8_concat(a: Seq<char>, b: Seq<char>)
    ensures
        encode_utf8(a + b) == encode_utf8(a) + encode_utf8(b),
    decreases a.len(),
{
    if a.len() == 0 {
        assert(a + b =~= b);
        assert(encode_utf8(a) =~= Seq::<u8>::empty());
        assert(encode_utf8(a) + encode_utf8(b) =~= encode_utf8(b));
    } else {
        lemma_encode_utf8_concat(a.drop_first(), b);
        assert((a + b).drop_first() =~= a.drop_first() + b);
        assert((a + b)[0] == a[0]);
        assert(encode_utf8(a + b) =~= encode_utf8(a) + encode_utf8(b));
    }
}

pub struct Writer {
    buffer_queue: Vec<String<BUFFER_WIDTH>, BUFFER_HEIGHT>,
    buffer: String<BUFFER>,
}

impl Writer {
    #[verifier::type_invariant]
    spec fn inv(self) -> bool {
        &&& history_lines(self.buffer_queue).len() <= BUFFER_HEIGHT
        &&& encode_utf8(text_chars(self.buffer)).len() <= BUFFER
    }

    /// The line history, oldest first.
    pub closed spec fn lines(&self) -> Seq<Seq<char>> {
        history_lines(self.buffer_queue)
    }

    /// Everything written so far that fitted.
    pub closed spec fn text(&self) -> Seq<char> {
        text_chars(self.buffer)
    }

    /// A writer that holds no text.
    pub fn new() -> (w: Writer)
        ensures
            w.lines() == Seq::<Seq<char>>::empty(),
            w.text() == Seq::<char>::empty(),
    {
        let w = Writer { buffer_queue: history_new(), buffer: text_new() };
        assert(encode_utf8(Seq::<char>::empty()) =~= Seq::<u8>::empty());
        w
    }

    /// Writes `s`: a string that fits into a line joins the history, which
    /// first drops its most recent line when it is full, and goes onto the
    /// text when there is room for it; a longer string is dropped.
    pub fn write_string(&mut self, s: &str)
        ensures
            final(self).lines().len() <= BUFFER_HEIGHT,
            encode_utf8(final(self).text()).len() <= BUFFER,
            old(self).text().is_prefix_of(final(self).text()),
            s.spec_bytes().len() <= 80 ==> final(self).lines().last() == s@,
            s.spec_bytes().len() <= 80 && encode_utf8(old(self).text()).len() + s.spec_bytes().len() <= 2000
                ==> final(self).text() == old(self).text() + s@,
            s.spec_bytes().len() > 80 ==> final(self).text() == old(self).text(),
            final(self).lines() == if fits_line(s) {
                kept_lines(old(self).lines()).push(s@)
            } else {
                kept_lines(old(self).lines())
            },
            final(self).text() == if fits_line(s) && fits_text(old(self).text(), s) {
                old(self).text() + s@
            } else {
                old(self).text()
            },
    {
        proof {
            use_type_invariant(&*self);
        }
        // A full history first drops its most recent line.
        if history_is_full(&self.buffer_queue) {
            history_pop(&mut self.buffer_queue);
        }
        if let Ok(t) = line_from_str(s) {
            let ghost before = text_chars(self.buffer);
            let line = line_as_str(&t);
            let ghost added = line@;
            proof {
                lemma_encode_utf8_concat(before, added);
                assert(before.is_prefix_of(before + added));
            }
            let _ = text_push_str(&mut self.buffer, line);
            let _ = history_push(&mut self.buffer_queue, t);
        }
    }

    /// Everything written so far that fitted.
    pub fn to_str(&self) -> (r: &str)
        ensures
            r@ == self.text(),
    {
        text_as_str(&self.buffer)
    }
}


/// The error type of `core::fmt`.
#[verifier::external_type_specification]
#[verifier::external_body]
pub struct ExFmtError(core::fmt::Error);

impl core::fmt::Write for Writer {
    /// Writes `s` as `write_string` does, and never fails.
    fn write_str(&mut self, s: &str) -> (r: core::fmt::Result)
        ensures
            r is Ok,
            s.spec_bytes().len() <= 80 ==> final(self).lines().last() == s@,
            s.spec_bytes().len() <= 80 && encode_utf8(old(self).text()).len() + s.spec_bytes().len() <= 2000
                ==> final(self).text() == old(self).text() + s@,
            s.spec_bytes().len() > 80 ==> final(self).text() == old(self).text(),
            final(self).lines() == if fits_line(s) {
                kept_lines(old(self).lines()).push(s@)
            } else {
                kept_lines(old(self).lines())
            },
            final(self).text() == if fits_line(s) && fits_text(old(self).text(), s) {
                old(self).text() + s@
            } else {
                old(self).text()
            },
    {
        self.write_string(s);
        Ok(())
    }
}

} // verus!
