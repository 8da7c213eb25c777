//! Character output to the QEMU serial console.

use vstd::arithmetic::div_mod::{lemma_add_mod_noop, lemma_mod_bound, lemma_mod_self_0, lemma_mod_twice, lemma_small_mod};
use vstd::prelude::*;
use vstd::std_specs::iter::IteratorSpec;

verus! {

pub trait Statistics {
    /// Return the number of characters written.
    fn chars_written(&self) -> (n: usize)
        default_ensures
            n == 0,
    {
        0
    }
}

/// Output to the QEMU serial port.
pub struct QEMUOutput {
    chars_writen: usize,
}

/// The bytes the serial port receives for `chars`: each character as its
/// low byte, with a carriage return before each newline.
pub open spec fn serial_encoding(chars: Seq<char>) -> Seq<u8>
    decreases chars.len(),
{
    if chars.len() == 0 {
        Seq::empty()
    } else {
        let c = chars.last();
        serial_encoding(chars.drop_last()) + if c == '\n' {
            seq![13u8, 10u8]
        } else {
            seq![c as u8]
        }
    }
}

/// How many newlines `chars` holds.
pub open spec fn newline_count(chars: Seq<char>) -> nat
    decreases chars.len(),
{
    if chars.len() == 0 {
        0
    } else {
        newline_count(chars.drop_last()) + if chars.last() == '\n' {
            1nat
        } else {
            0nat
        }
    }
}

/// Sending one more character sends one more byte, its low byte, unless
/// it is a newline, which is sent as a carriage return and a newline.
pub proof fn lemma_serial_push(chars: Seq<char>, c: char)
    ensures
        c != '\n' ==> serial_encoding(chars.push(c)) == serial_encoding(chars).push(c as u8),
        c == '\n' ==> serial_encoding(chars.push(c)) == serial_encoding(chars).push(13u8).push(10u8),
{
    assert(chars.push(c).drop_last() == chars);
    assert(seq![13u8, 10u8] == seq![13u8].push(10u8));
}

/// The port receives one byte per character and one more per newline, and
/// every byte sent so far stays as more characters follow.
pub proof fn lemma_serial_length(chars: Seq<char>, more: Seq<char>)
    ensures
        serial_encoding(chars).len() == chars.len() + newline_count(chars),
        serial_encoding(chars).is_prefix_of(serial_encoding(chars + more)),
    decreases chars.len() + more.len(),
{
    if more.len() > 0 {
        lemma_serial_length(chars, more.drop_last());
        assert((chars + more).drop_last() == chars + more.drop_last());
        assert(serial_encoding(chars).is_prefix_of(serial_encoding(chars + more.drop_last())));
    } else {
        assert(chars + more == chars);
        if chars.len() > 0 {
            lemma_serial_length(chars.drop_last(), Seq::empty());
        }
    }
}

impl QEMUOutput {
    /// The count of characters written, as the output keeps it.
    pub closed spec fn written(&self) -> usize {
        self.chars_writen
    }

    /// Create a new QEMU output object
    pub fn new() -> (o: QEMUOutput)
        ensures
            o.written() == 0,
    {
        QEMUOutput { chars_writen: 0 }
    }

    /// Writes `s`: returns the bytes to send to the serial port for it, one
    /// character each, and counts them as written. The count wraps around
    /// at `usize::MAX`.
    pub fn serial_write(&mut self, s: &str) -> (out: Vec<u8>)
        ensures
            out@ == serial_encoding(s@),
            out@.len() == s@.len() + newline_count(s@),
            final(self).written() == wrapped_count(old(self).written() + out@.len()),
    {
        let mut out: Vec<u8> = Vec::new();
        let mut chars = s.chars();
        let ghost mut done: Seq<char> = Seq::empty();
        proof {
            lemma_wrapped_small(self.chars_writen as int);
        }
        loop
            invariant
                IteratorSpec::decrease(&chars) is Some,
                done + IteratorSpec::remaining(&chars) == s@,
                out@ == serial_encoding(done),
                self.chars_writen == wrapped_count(old(self).written() + out@.len()),
            ensures
                out@ == serial_encoding(s@),
                self.chars_writen == wrapped_count(old(self).written() + out@.len()),
            decreases IteratorSpec::decrease(&chars)->0,
        {
            match chars.next() {
                Some(c) => {
                    // Convert newline to carriage return + newline.
                    if c == '\n' {
                        self.write_char(13u8, &mut out);
                        proof {
                            lemma_wrapped_step(old(self).written() + out@.len() - 1, 1);
                        }
                    }
                    self.write_char(c as u8, &mut out);
                    proof {
                        lemma_wrapped_step(old(self).written() + out@.len() - 1, 1);
                    }
                    proof {
                        let d2 = done.push(c);
                        assert(d2.drop_last() == done);
                        assert(out@ == serial_encoding(d2));
                        done = d2;
                    }
                },
                None => {
                    assert(IteratorSpec::remaining(&chars).len() == 0);
                    assert(done + IteratorSpec::remaining(&chars) == done);
                    break;
                },
            }
        }
        proof {
            lemma_serial_length(s@, Seq::empty());
        }
        out
    }

    /// Queues the byte `b` for the serial port and counts it.
    fn write_char(&mut self, b: u8, out: &mut Vec<u8>)
        ensures
            final(out)@ == old(out)@.push(b),
            final(self).written() == wrapped_count(old(self).written() + 1),
    {
        out.push(b);
        proof {
            let m = usize::MAX as int + 1;
            let x = self.chars_writen as int;
            if x + 1 < m {
                lemma_small_mod((x + 1) as nat, m as nat);
            } else {
                lemma_mod_self_0(m);
            }
        }
        self.chars_writen = self.chars_writen.wrapping_add(1);
    }
}

/// A count taken modulo the range of `usize`.
pub open spec fn wrapped_count(n: int) -> usize {
    (n % (usize::MAX as int + 1)) as usize
}

/// Counting on from a wrapped count is counting on and then wrapping.
proof fn lemma_wrapped_step(n: int, k: int)
    requires
        0 <= n,
        0 <= k,
    ensures
        wrapped_count(wrapped_count(n) + k) == wrapped_count(n + k),
{
    let m = usize::MAX as int + 1;
    lemma_add_mod_noop(n, k, m);
    lemma_small_mod((k % m) as nat, m as nat);
    lemma_mod_bound(n, m);
    lemma_mod_bound(k, m);
    lemma_add_mod_noop(n % m, k, m);
    lemma_mod_twice(n, m);
}

/// A count below the range of `usize` wraps to itself.
proof fn lemma_wrapped_small(n: int)
    requires
        0 <= n <= usize::MAX,
    ensures
        wrapped_count(n) == n,
{
    lemma_small_mod(n as nat, (usize::MAX as int + 1) as nat);
}

impl Default for QEMUOutput {
    /// The same as `QEMUOutput::new`: nothing written yet.
    fn default() -> (o: Self)
        ensures
            o.written() == 0,
    {
        Self::new()
    }
}

impl Statistics for QEMUOutput {
    fn chars_written(&self) -> (n: usize)
        ensures
            n == self.written(),
    {
        self.chars_writen
    }
}

} // verus!
