//! Assembly of a command line from characters that arrive one at a time
//! from two sources (a debug UART and the key matrix), both delivered on the
//! single dispatch thread.
//!
//! Carriage return completes the line; the delete code is normalized to
//! backspace, which removes the previous character; the null character is
//! dropped. The buffer is capped at `LINE_CAPACITY` characters so that a
//! stuck input source cannot grow it without bound: past the cap, ordinary
//! characters are dropped.

use vstd::prelude::*;

verus! {

/// Upper bound on the assembled line length.
pub const LINE_CAPACITY: usize = 256;

/// The code point of `c`, as a mathematical integer.
pub open spec fn code_of(c: char) -> int {
    c as int
}

/// A Unicode scalar value: what `char` can hold.
pub open spec fn scalar_ok(k: int) -> bool {
    (0 <= k && k < 0xD800) || (0xE000 <= k && k <= 0x10FFFF)
}

/// The key code a raw UART scalar stands for: the delete code becomes
/// backspace, and any other code stands for itself.
pub open spec fn norm_code(code: int) -> int {
    if code == 0x7f {
        8
    } else {
        code
    }
}

/// Relies on core::char::from_u32: `Some` exactly for Unicode scalar values,
/// and the returned character has the given code point.
#[verifier::external_body]
fn char_from_code(code: u32) -> (r: Option<char>)
    ensures
        r is Some <==> scalar_ok(code as int),
        r matches Some(c) ==> c as int == code as int,
{
    core::char::from_u32(code)
}

/// Decode one raw UART scalar into the key it stands for: `None` when the
/// scalar is not a Unicode scalar value or is the null character, both of
/// which the service drops.
pub fn decode_scalar(code: usize) -> (r: Option<char>)
    ensures
        r is Some <==> (scalar_ok(norm_code(code as int)) && norm_code(code as int) != 0),
        r matches Some(c) ==> c as int == norm_code(code as int),
{
    let fixed: u32 = if code == 0x7f {
        0x08
    } else if code > 0x10FFFF {
        return None;
    } else {
        code as u32
    };
    match char_from_code(fixed) {
        Some(c) => {
            if c == '\u{0}' {
                None
            } else {
                Some(c)
            }
        },
        None => None,
    }
}

/// What feeding one character does to a line buffer: the new buffer, and the
/// completed command the character emits, if any.
pub open spec fn push_spec(buf: Seq<char>, c: char) -> (Seq<char>, Option<Seq<char>>) {
    if c == '\u{0}' {
        (buf, None)
    } else if c == '\r' {
        (Seq::<char>::empty(), Some(buf))
    } else if c == '\u{7f}' || c == '\u{8}' {
        (if buf.len() > 0 { buf.drop_last() } else { buf }, None)
    } else {
        (if buf.len() < LINE_CAPACITY { buf.push(c) } else { buf }, None)
    }
}

/// Merges the characters of both input sources into one line buffer and
/// recognizes line termination.
pub struct CommandAssembler {
    line: Vec<char>,
}

impl View for CommandAssembler {
    type V = Seq<char>;

    closed spec fn view(&self) -> Seq<char> {
        self.line@
    }
}

impl CommandAssembler {
    /// The assembler's invariant: the line never exceeds the cap.
    pub open spec fn wf(&self) -> bool {
        self@.len() <= LINE_CAPACITY
    }

    /// A fresh assembler with an empty line.
    pub fn new() -> (r: CommandAssembler)
        ensures
            r.wf(),
            r@ == Seq::<char>::empty(),
    {
        let r = CommandAssembler { line: Vec::new() };
        proof {
            assert(r@ =~= Seq::<char>::empty());
        }
        r
    }

    /// The characters accumulated so far.
    pub fn buffered(&self) -> (r: &Vec<char>)
        ensures
            r@ == self@,
    {
        &self.line
    }

    /// Feed one character.
    ///
    /// Carriage return emits the accumulated line (terminator excluded) as a
    /// completed command and clears the buffer. Backspace (to which the
    /// delete code is normalized) removes the previous character, if any.
    /// The null character is dropped. Any other character is appended while
    /// the line is under the cap and dropped once the cap is reached.
    pub fn push_char(&mut self, c: char) -> (r: Option<Vec<char>>)
        requires
            old(self).wf(),
        ensures
            final(self).wf(),
            final(self)@ == push_spec(old(self)@, c).0,
            r is None <==> push_spec(old(self)@, c).1 is None,
            r matches Some(cmd) ==> push_spec(old(self)@, c).1 == Some(cmd@),
    {
        if c == '\u{0}' {
            None
        } else if c == '\r' {
            let mut out: Vec<char> = Vec::new();
            core::mem::swap(&mut out, &mut self.line);
            proof {
                assert(self@ =~= Seq::<char>::empty());
            }
            Some(out)
        } else if c == '\u{7f}' || c == '\u{8}' {
            if self.line.len() > 0 {
                self.line.pop();
            }
            None
        } else {
            if self.line.len() < LINE_CAPACITY {
                self.line.push(c);
            }
            None
        }
    }
}

} // verus!
