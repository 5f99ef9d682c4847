//! A cursor over a byte slice, with the small lexical steps that the
//! decoder and the assembler are built from.
use vstd::prelude::*;

use crate::instruction::{Register, RegisterPair};

verus! {

/// Why an `expect_*` step failed.
#[derive(Clone, Debug, Hash, PartialEq, Eq)]
pub enum ReadError<'c> {
    EndOfBuffer,
    UnexpectedChar(u8),
    UnexpectedSlice(&'c [u8]),
}

pub type ReadResult<'c, T> = Result<T, ReadError<'c>>;

/// Horizontal whitespace: space and tab.
pub open spec fn is_ws(b: u8) -> bool {
    b == 0x20 || b == 0x09
}

/// Line terminators: LF and CR.
pub open spec fn is_nl(b: u8) -> bool {
    b == 0x0A || b == 0x0D
}

pub open spec fn is_upper(b: u8) -> bool {
    0x41 <= b <= 0x5A
}

pub open spec fn is_digit(b: u8) -> bool {
    0x30 <= b <= 0x39
}

/// The first index at or after `i` that does not hold whitespace.
pub open spec fn ws_end(s: Seq<u8>, i: int) -> int
    decreases s.len() - i,
{
    if i < 0 || i >= s.len() || !is_ws(s[i]) {
        i
    } else {
        ws_end(s, i + 1)
    }
}

/// The first index at or after `i` that holds neither whitespace nor a line terminator.
pub open spec fn ws_nl_end(s: Seq<u8>, i: int) -> int
    decreases s.len() - i,
{
    if i < 0 || i >= s.len() || !(is_ws(s[i]) || is_nl(s[i])) {
        i
    } else {
        ws_nl_end(s, i + 1)
    }
}

/// The first index at or after `i` that holds a line terminator, or the end.
pub open spec fn line_end(s: Seq<u8>, i: int) -> int
    decreases s.len() - i,
{
    if i < 0 || i >= s.len() || is_nl(s[i]) {
        i
    } else {
        line_end(s, i + 1)
    }
}

/// The first index at or after `i` that is not whitespace, a line
/// terminator or part of a comment; `in_comment` says whether `i` lies
/// inside a comment, which runs from `;` to the end of its line.
pub open spec fn blank_end(s: Seq<u8>, i: int, in_comment: bool) -> int
    decreases s.len() - i,
{
    if i < 0 || i >= s.len() {
        i
    } else if in_comment {
        blank_end(s, i + 1, !is_nl(s[i]))
    } else if is_ws(s[i]) || is_nl(s[i]) {
        blank_end(s, i + 1, false)
    } else if s[i] == 0x3B {
        blank_end(s, i + 1, true)
    } else {
        i
    }
}

/// The first index at or after `i` that holds no upper-case letter or digit.
pub open spec fn alnum_end(s: Seq<u8>, i: int) -> int
    decreases s.len() - i,
{
    if i < 0 || i >= s.len() || !(is_upper(s[i]) || is_digit(s[i])) {
        i
    } else {
        alnum_end(s, i + 1)
    }
}

/// The first index at or after `i` that holds `v`, if any.
pub open spec fn find_from(s: Seq<u8>, i: int, v: u8) -> Option<int>
    decreases s.len() - i,
{
    if i < 0 || i >= s.len() {
        None
    } else if s[i] == v {
        Some(i)
    } else {
        find_from(s, i + 1, v)
    }
}

pub proof fn lemma_ws_end_bounds(s: Seq<u8>, i: int)
    requires
        0 <= i <= s.len(),
    ensures
        i <= ws_end(s, i) <= s.len(),
    decreases s.len() - i,
{
    if i < s.len() && is_ws(s[i]) {
        lemma_ws_end_bounds(s, i + 1);
    }
}

/// Skipping whitespace stops at the end or at a byte that is not whitespace.
pub proof fn lemma_ws_end_stop(s: Seq<u8>, i: int)
    requires
        0 <= i <= s.len(),
    ensures
        ws_end(s, i) == s.len() || !is_ws(s[ws_end(s, i)]),
    decreases s.len() - i,
{
    if i < s.len() && is_ws(s[i]) {
        lemma_ws_end_stop(s, i + 1);
    }
}

/// A comment stops at the end or at a line terminator.
pub proof fn lemma_line_end_stop(s: Seq<u8>, i: int)
    requires
        0 <= i <= s.len(),
    ensures
        line_end(s, i) == s.len() || is_nl(s[line_end(s, i)]),
    decreases s.len() - i,
{
    if i < s.len() && !is_nl(s[i]) {
        lemma_line_end_stop(s, i + 1);
    }
}

pub proof fn lemma_ws_nl_end_bounds(s: Seq<u8>, i: int)
    requires
        0 <= i <= s.len(),
    ensures
        i <= ws_nl_end(s, i) <= s.len(),
    decreases s.len() - i,
{
    if i < s.len() && (is_ws(s[i]) || is_nl(s[i])) {
        lemma_ws_nl_end_bounds(s, i + 1);
    }
}

pub proof fn lemma_line_end_bounds(s: Seq<u8>, i: int)
    requires
        0 <= i <= s.len(),
    ensures
        i <= line_end(s, i) <= s.len(),
    decreases s.len() - i,
{
    if i < s.len() && !is_nl(s[i]) {
        lemma_line_end_bounds(s, i + 1);
    }
}

pub proof fn lemma_alnum_end_bounds(s: Seq<u8>, i: int)
    requires
        0 <= i <= s.len(),
    ensures
        i <= alnum_end(s, i) <= s.len(),
    decreases s.len() - i,
{
    if i < s.len() && (is_upper(s[i]) || is_digit(s[i])) {
        lemma_alnum_end_bounds(s, i + 1);
    }
}

/// A read position in a byte slice.
#[derive(Clone, Copy, Debug, Hash, PartialEq, Eq)]
pub struct Reader<'a> {
    bytes: &'a [u8],
    pos: usize,
}

impl<'a> Reader<'a> {
    /// All the bytes the reader was made over.
    pub closed spec fn all(self) -> Seq<u8> {
        self.bytes@
    }

    /// How many bytes have been consumed.
    pub closed spec fn position(self) -> int {
        self.pos as int
    }

    pub closed spec fn wf(self) -> bool {
        self.pos <= self.bytes@.len() <= usize::MAX
    }

    /// The bytes not yet consumed.
    pub open spec fn rest(self) -> Seq<u8> {
        self.all().subrange(self.position(), self.all().len() as int)
    }

    /// `self` is `old` with `n` more bytes consumed.
    pub open spec fn advanced(self, old: Reader<'a>, n: int) -> bool {
        &&& self.wf()
        &&& self.all() == old.all()
        &&& self.position() == old.position() + n
    }

    pub proof fn lemma_wf(self)
        requires
            self.wf(),
        ensures
            0 <= self.position() <= self.all().len() <= usize::MAX,
            self.rest().len() == self.all().len() - self.position(),
    {
    }

    pub fn new(slice: &'a [u8]) -> (r: Reader<'a>)
        ensures
            r.wf(),
            r.all() == slice@,
            r.position() == 0,
            r.rest() == slice@,
    {
        let _ = slice.len();
        let r = Reader { bytes: slice, pos: 0 };
        assert(r.rest() =~= slice@);
        r
    }

    /// Consumes and returns the next byte.
    pub fn read(&mut self) -> (r: Option<u8>)
        requires
            old(self).wf(),
        ensures
            old(self).rest().len() > 0 ==> r == Some(old(self).rest()[0]) && final(self).advanced(
                *old(self),
                1,
            ),
            old(self).rest().len() == 0 ==> r.is_none() && *final(self) == *old(self),
    {
        if self.pos < self.bytes.len() {
            let v = self.bytes[self.pos];
            self.pos = self.pos + 1;
            Some(v)
        } else {
            None
        }
    }

    /// Consumes and returns the next `n` bytes, if there are that many.
    pub fn read_n(&mut self, n: usize) -> (r: Option<&'a [u8]>)
        requires
            old(self).wf(),
        ensures
            n <= old(self).rest().len() ==> r.is_some() && r.unwrap()@ == old(self).rest().subrange(
                0,
                n as int,
            ) && final(self).advanced(*old(self), n as int),
            n > old(self).rest().len() ==> r.is_none() && *final(self) == *old(self),
    {
        if n <= self.bytes.len() - self.pos {
            let s = &self.bytes[self.pos..self.pos + n];
            assert(s@ =~= old(self).rest().subrange(0, n as int));
            self.pos = self.pos + n;
            Some(s)
        } else {
            None
        }
    }

    /// Consumes the next byte if `pred` accepts it.
    pub fn read_pred(&mut self, pred: impl FnOnce(u8) -> bool) -> (r: Option<u8>)
        requires
            old(self).wf(),
            forall|v: u8| pred.requires((v,)),
        ensures
            r.is_some() ==> old(self).rest().len() > 0 && r == Some(old(self).rest()[0])
                && pred.ensures((old(self).rest()[0],), true) && final(self).advanced(*old(self), 1),
            r.is_none() ==> *final(self) == *old(self) && (old(self).rest().len() == 0
                || pred.ensures((old(self).rest()[0],), false)),
    {
        if self.pos < self.bytes.len() {
            let v = self.bytes[self.pos];
            if pred(v) {
                self.pos = self.pos + 1;
                return Some(v);
            }
        }
        None
    }

    /// Consumes one byte, if there is one.
    pub fn skip(&mut self)
        requires
            old(self).wf(),
        ensures
            old(self).rest().len() > 0 ==> final(self).advanced(*old(self), 1),
            old(self).rest().len() == 0 ==> *final(self) == *old(self),
    {
        let _ = self.read();
    }

    /// Consumes `n` bytes, if there are that many.
    pub fn skip_n(&mut self, n: usize)
        requires
            old(self).wf(),
        ensures
            n <= old(self).rest().len() ==> final(self).advanced(*old(self), n as int),
            n > old(self).rest().len() ==> *final(self) == *old(self),
    {
        let _ = self.read_n(n);
    }

    pub fn peek(&self) -> (r: Option<u8>)
        requires
            self.wf(),
        ensures
            self.rest().len() > 0 ==> r == Some(self.rest()[0]),
            self.rest().len() == 0 ==> r.is_none(),
    {
        self.peek_at(0)
    }

    /// The byte `index` places ahead, if there is one.
    pub fn peek_at(&self, index: usize) -> (r: Option<u8>)
        requires
            self.wf(),
        ensures
            index < self.rest().len() ==> r == Some(self.rest()[index as int]),
            index >= self.rest().len() ==> r.is_none(),
    {
        if index < self.bytes.len() - self.pos {
            Some(self.bytes[self.pos + index])
        } else {
            None
        }
    }

    /// The next `n` bytes, without consuming them.
    pub fn peek_n(&self, n: usize) -> (r: Option<&'a [u8]>)
        requires
            self.wf(),
        ensures
            n <= self.rest().len() ==> r.is_some() && r.unwrap()@ == self.rest().subrange(
                0,
                n as int,
            ),
            n > self.rest().len() ==> r.is_none(),
    {
        if n <= self.bytes.len() - self.pos {
            let s = &self.bytes[self.pos..self.pos + n];
            assert(s@ =~= self.rest().subrange(0, n as int));
            Some(s)
        } else {
            None
        }
    }

    /// Consumes everything up to and including the next `value`, and returns
    /// what lay before it; unchanged and `None` if `value` does not occur.
    pub fn read_until(&mut self, value: u8) -> (r: Option<&'a [u8]>)
        requires
            old(self).wf(),
        ensures
            match find_from(old(self).all(), old(self).position(), value) {
                Some(k) => r.is_some() && r.unwrap()@ == old(self).all().subrange(
                    old(self).position(),
                    k,
                ) && final(self).advanced(*old(self), k - old(self).position() + 1),
                None => r.is_none() && *final(self) == *old(self),
            },
    {
        let len = self.bytes.len();
        let mut i: usize = self.pos;
        while i < len
            invariant
                self.wf(),
                *self == *old(self),
                self.pos <= i <= len,
                len == self.bytes@.len(),
                find_from(self.all(), self.position(), value) == find_from(self.all(), i as int, value),
            decreases len - i,
        {
            if self.bytes[i] == value {
                let s = &self.bytes[self.pos..i];
                assert(s@ =~= self.all().subrange(self.position(), i as int));
                self.pos = i + 1;
                return Some(s);
            }
            i = i + 1;
        }
        None
    }

    /// Like `read_until`, but takes the rest of the input where `value` does not occur.
    pub fn read_until_or_end(&mut self, value: u8) -> (r: &'a [u8])
        requires
            old(self).wf(),
        ensures
            match find_from(old(self).all(), old(self).position(), value) {
                Some(k) => r@ == old(self).all().subrange(old(self).position(), k)
                    && final(self).advanced(*old(self), k - old(self).position() + 1),
                None => r@ == old(self).rest() && final(self).advanced(
                    *old(self),
                    old(self).rest().len() as int,
                ),
            },
    {
        match self.read_until(value) {
            Some(s) => s,
            None => {
                let s = &self.bytes[self.pos..self.bytes.len()];
                assert(s@ =~= old(self).rest());
                self.pos = self.bytes.len();
                s
            },
        }
    }

    pub fn at_end(&self) -> (r: bool)
        requires
            self.wf(),
        ensures
            r == (self.rest().len() == 0),
    {
        self.pos >= self.bytes.len()
    }

    /// Consumes spaces and tabs.
    pub fn skip_ws(&mut self)
        requires
            old(self).wf(),
        ensures
            final(self).advanced(
                *old(self),
                ws_end(old(self).all(), old(self).position()) - old(self).position(),
            ),
            old(self).position() <= final(self).position() <= final(self).all().len(),
    {
        proof {
            lemma_ws_end_bounds(old(self).all(), old(self).position());
        }
        let len = self.bytes.len();
        while self.pos < len && (self.bytes[self.pos] == 0x20 || self.bytes[self.pos] == 0x09)
            invariant
                self.wf(),
                self.all() == old(self).all(),
                old(self).position() <= self.position(),
                len == self.bytes@.len(),
                ws_end(self.all(), self.position()) == ws_end(
                    old(self).all(),
                    old(self).position(),
                ),
            decreases len - self.pos,
        {
            self.pos = self.pos + 1;
        }
    }

    /// Consumes whitespace and, if a `;` follows, the comment up to the end
    /// of its line. Returns whether a comment was consumed.
    pub fn skip_ws_comment(&mut self) -> (r: bool)
        requires
            old(self).wf(),
        ensures
            ({
                let s = old(self).all();
                let m = ws_end(s, old(self).position());
                if m < s.len() && s[m] == 0x3B {
                    r && final(self).advanced(*old(self), line_end(s, m + 1) - old(self).position())
                } else {
                    !r && final(self).advanced(*old(self), m - old(self).position())
                }
            }),
    {
        self.skip_ws();
        proof {
            lemma_ws_end_bounds(self.all(), old(self).position());
        }
        if self.pos < self.bytes.len() && self.bytes[self.pos] == 0x3B {
            self.pos = self.pos + 1;
            let len = self.bytes.len();
            while self.pos < len && !(self.bytes[self.pos] == 0x0A || self.bytes[self.pos]
                == 0x0D)
                invariant
                    self.wf(),
                    self.all() == old(self).all(),
                    old(self).position() <= self.position(),
                    len == self.bytes@.len(),
                    line_end(self.all(), self.position()) == line_end(
                        old(self).all(),
                        ws_end(old(self).all(), old(self).position()) + 1,
                    ),
                decreases len - self.pos,
            {
                self.pos = self.pos + 1;
            }
            true
        } else {
            false
        }
    }

    /// Consumes whitespace, line terminators and comments.
    pub fn skip_ws_nl_comments(&mut self)
        requires
            old(self).wf(),
        ensures
            final(self).advanced(
                *old(self),
                blank_end(old(self).all(), old(self).position(), false) - old(self).position(),
            ),
            old(self).position() <= final(self).position() <= final(self).all().len(),
    {
        let len = self.bytes.len();
        let mut in_comment = false;
        loop
            invariant
                self.wf(),
                self.all() == old(self).all(),
                old(self).position() <= self.position(),
                len == self.bytes@.len(),
                blank_end(self.all(), self.position(), in_comment) == blank_end(
                    old(self).all(),
                    old(self).position(),
                    false,
                ),
            ensures
                self.wf(),
                self.all() == old(self).all(),
                old(self).position() <= self.position() <= len,
                self.position() == blank_end(old(self).all(), old(self).position(), false),
            decreases len - self.pos,
        {
            if self.pos >= len {
                break ;
            }
            let b = self.bytes[self.pos];
            if in_comment {
                if b == 0x0A || b == 0x0D {
                    in_comment = false;
                }
            } else if b == 0x3B {
                in_comment = true;
            } else if !(b == 0x20 || b == 0x09 || b == 0x0A || b == 0x0D) {
                break ;
            }
            self.pos = self.pos + 1;
        }
    }

    /// Consumes spaces, tabs and line terminators.
    pub fn skip_ws_nl(&mut self)
        requires
            old(self).wf(),
        ensures
            final(self).advanced(
                *old(self),
                ws_nl_end(old(self).all(), old(self).position()) - old(self).position(),
            ),
            old(self).position() <= final(self).position() <= final(self).all().len(),
    {
        proof {
            lemma_ws_nl_end_bounds(old(self).all(), old(self).position());
        }
        let len = self.bytes.len();
        while self.pos < len && (self.bytes[self.pos] == 0x20 || self.bytes[self.pos] == 0x09
            || self.bytes[self.pos] == 0x0A || self.bytes[self.pos] == 0x0D)
            invariant
                self.wf(),
                self.all() == old(self).all(),
                old(self).position() <= self.position(),
                len == self.bytes@.len(),
                ws_nl_end(self.all(), self.position()) == ws_nl_end(
                    old(self).all(),
                    old(self).position(),
                ),
            decreases len - self.pos,
        {
            self.pos = self.pos + 1;
        }
    }

    /// Reads one byte and checks that it is `expected`.
    pub fn expect(&mut self, expected: u8) -> (r: ReadResult<'a, ()>)
        requires
            old(self).wf(),
        ensures
            old(self).rest().len() == 0 ==> r == Err::<(), ReadError<'a>>(ReadError::EndOfBuffer)
                && *final(self) == *old(self),
            old(self).rest().len() > 0 ==> final(self).advanced(*old(self), 1) && (r.is_ok()
                <==> old(self).rest()[0] == expected),
    {
        if let Some(value) = self.read() {
            if value == expected {
                Ok(())
            } else {
                Err(ReadError::UnexpectedChar(value))
            }
        } else {
            Err(ReadError::EndOfBuffer)
        }
    }

    /// Reads one byte and checks it against `pred`.
    pub fn expect_pred(&mut self, pred: impl FnOnce(u8) -> bool) -> (r: ReadResult<'a, u8>)
        requires
            old(self).wf(),
            forall|v: u8| pred.requires((v,)),
        ensures
            old(self).rest().len() == 0 ==> r == Err::<u8, ReadError<'a>>(ReadError::EndOfBuffer)
                && *final(self) == *old(self),
            old(self).rest().len() > 0 ==> final(self).advanced(*old(self), 1) && (r.is_ok() ==> r
                == Ok::<u8, ReadError<'a>>(old(self).rest()[0]) && pred.ensures(
                (old(self).rest()[0],),
                true,
            )) && (r.is_err() ==> pred.ensures((old(self).rest()[0],), false)),
    {
        if let Some(value) = self.read() {
            if pred(value) {
                Ok(value)
            } else {
                Err(ReadError::UnexpectedChar(value))
            }
        } else {
            Err(ReadError::EndOfBuffer)
        }
    }

    /// Reads `expected.len()` bytes and checks that they equal `expected`.
    pub fn expect_slice(&mut self, expected: &[u8]) -> (r: ReadResult<'a, ()>)
        requires
            old(self).wf(),
        ensures
            expected@.len() > old(self).rest().len() ==> r == Err::<(), ReadError<'a>>(
                ReadError::EndOfBuffer,
            ) && *final(self) == *old(self),
            expected@.len() <= old(self).rest().len() ==> final(self).advanced(
                *old(self),
                expected@.len() as int,
            ) && (r.is_ok() <==> old(self).rest().subrange(0, expected@.len() as int)
                == expected@),
    {
        if let Some(value) = self.read_n(expected.len()) {
            if slices_equal(value, expected) {
                Ok(())
            } else {
                Err(ReadError::UnexpectedSlice(value))
            }
        } else {
            Err(ReadError::EndOfBuffer)
        }
    }

    /// Consumes whitespace, one line terminator (CR LF, LF or CR) and the
    /// whitespace after it. Unchanged past the leading whitespace when no
    /// terminator follows it.
    pub fn expect_nl(&mut self) -> (r: ReadResult<'a, ()>)
        requires
            old(self).wf(),
        ensures
            ({
                let s = old(self).all();
                let m = ws_end(s, old(self).position());
                if m < s.len() && is_nl(s[m]) {
                    let after = if s[m] == 0x0D && m + 1 < s.len() && s[m + 1] == 0x0A {
                        m + 2
                    } else {
                        m + 1
                    };
                    r.is_ok() && final(self).advanced(*old(self), ws_end(s, after) - old(self).position())
                } else {
                    r.is_err() && final(self).advanced(*old(self), m - old(self).position())
                }
            }),
            final(self).position() <= final(self).all().len(),
            old(self).position() <= final(self).position(),
            r.is_ok() ==> old(self).position() < final(self).position(),
    {
        self.skip_ws();
        proof {
            lemma_ws_end_bounds(self.all(), old(self).position());
        }
        let len = self.bytes.len();
        if self.pos < len && self.bytes[self.pos] == 0x0D {
            if self.pos + 1 < len && self.bytes[self.pos + 1] == 0x0A {
                self.pos = self.pos + 2;
            } else {
                self.pos = self.pos + 1;
            }
        } else if self.pos < len && self.bytes[self.pos] == 0x0A {
            self.pos = self.pos + 1;
        } else if self.pos < len {
            return Err(ReadError::UnexpectedChar(self.bytes[self.pos]));
        } else {
            return Err(ReadError::EndOfBuffer);
        }
        self.skip_ws();
        Ok(())
    }

    /// Reads a label definition: a letter, `@` or `?`, then letters and
    /// digits, then `:`. Returns the name without the colon; unchanged on
    /// error.
    pub fn expect_label_name(&mut self) -> (r: ReadResult<'a, &'a [u8]>)
        requires
            old(self).wf(),
        ensures
            ({
                let s = old(self).all();
                let p = old(self).position();
                let e = alnum_end(s, p + 1);
                if p < s.len() && (is_upper(s[p]) || s[p] == 0x40 || s[p] == 0x3F) && e < s.len()
                    && s[e] == 0x3A {
                    r.is_ok() && r.unwrap()@ == s.subrange(p, e) && final(self).advanced(
                        *old(self),
                        e + 1 - p,
                    )
                } else {
                    r.is_err() && *final(self) == *old(self)
                }
            }),
    {
        let len = self.bytes.len();
        let start = self.pos;
        if start >= len {
            return Err(ReadError::EndOfBuffer);
        }
        let first = self.bytes[start];
        if !((first >= 0x41 && first <= 0x5A) || first == 0x40 || first == 0x3F) {
            return Err(ReadError::UnexpectedChar(first));
        }
        let mut i: usize = start + 1;
        while i < len && ((self.bytes[i] >= 0x41 && self.bytes[i] <= 0x5A) || (
        self.bytes[i] >= 0x30 && self.bytes[i] <= 0x39))
            invariant
                self.wf(),
                *self == *old(self),
                start + 1 <= i <= len,
                len == self.bytes@.len(),
                alnum_end(self.all(), i as int) == alnum_end(self.all(), start + 1),
            decreases len - i,
        {
            i = i + 1;
        }
        if i >= len {
            return Err(ReadError::EndOfBuffer);
        }
        if self.bytes[i] != 0x3A {
            return Err(ReadError::UnexpectedChar(self.bytes[i]));
        }
        let name = &self.bytes[start..i];
        assert(name@ =~= self.all().subrange(start as int, i as int));
        self.pos = i + 1;
        Ok(name)
    }

    /// Reads a register name: one of `B C D E H L M A`. Unchanged on error.
    pub fn expect_register(&mut self) -> (r: ReadResult<'a, Register>)
        requires
            old(self).wf(),
        ensures
            ({
                let rest = old(self).rest();
                if rest.len() > 0 && register_named(rest[0]).is_some() {
                    r == Ok::<Register, ReadError<'a>>(register_named(rest[0]).unwrap())
                        && final(self).advanced(*old(self), 1)
                } else {
                    r.is_err() && *final(self) == *old(self)
                }
            }),
    {
        if self.pos >= self.bytes.len() {
            return Err(ReadError::EndOfBuffer);
        }
        let v = self.bytes[self.pos];
        let reg = if v == 0x42 {
            Register::B
        } else if v == 0x43 {
            Register::C
        } else if v == 0x44 {
            Register::D
        } else if v == 0x45 {
            Register::E
        } else if v == 0x48 {
            Register::H
        } else if v == 0x4C {
            Register::L
        } else if v == 0x4D {
            Register::M
        } else if v == 0x41 {
            Register::A
        } else {
            return Err(ReadError::UnexpectedChar(v));
        };
        self.pos = self.pos + 1;
        Ok(reg)
    }

    /// Reads a register pair name: `B`, `D`, `H` or `SP`. Unchanged on error.
    pub fn expect_register_pair(&mut self) -> (r: ReadResult<'a, RegisterPair>)
        requires
            old(self).wf(),
        ensures
            ({
                let rest = old(self).rest();
                if rest.len() >= 2 && rest[0] == 0x53 && rest[1] == 0x50 {
                    r == Ok::<RegisterPair, ReadError<'a>>(RegisterPair::Sp)
                        && final(self).advanced(*old(self), 2)
                } else if rest.len() > 0 && (rest[0] == 0x42 || rest[0] == 0x44 || rest[0]
                    == 0x48) {
                    r == Ok::<RegisterPair, ReadError<'a>>(
                        if rest[0] == 0x42 {
                            RegisterPair::Bc
                        } else if rest[0] == 0x44 {
                            RegisterPair::De
                        } else {
                            RegisterPair::Hl
                        },
                    ) && final(self).advanced(*old(self), 1)
                } else {
                    r.is_err() && *final(self) == *old(self)
                }
            }),
    {
        if self.pos >= self.bytes.len() {
            return Err(ReadError::EndOfBuffer);
        }
        let v = self.bytes[self.pos];
        if v == 0x53 && self.pos + 1 < self.bytes.len() && self.bytes[self.pos + 1] == 0x50 {
            self.pos = self.pos + 2;
            return Ok(RegisterPair::Sp);
        }
        let rp = if v == 0x42 {
            RegisterPair::Bc
        } else if v == 0x44 {
            RegisterPair::De
        } else if v == 0x48 {
            RegisterPair::Hl
        } else {
            return Err(ReadError::UnexpectedChar(v));
        };
        self.pos = self.pos + 1;
        Ok(rp)
    }

    /// Reads one hexadecimal digit (either case).
    pub fn expect_hex(&mut self) -> (r: ReadResult<'a, u8>)
        requires
            old(self).wf(),
        ensures
            old(self).rest().len() == 0 ==> r.is_err() && *final(self) == *old(self),
            old(self).rest().len() > 0 ==> final(self).advanced(*old(self), 1) && match hex_value(
                old(self).rest()[0],
            ) {
                Some(d) => r == Ok::<u8, ReadError<'a>>(d),
                None => r.is_err(),
            },
    {
        match self.read() {
            None => Err(ReadError::EndOfBuffer),
            Some(v) => match hex_digit(v) {
                Some(d) => Ok(d),
                None => Err(ReadError::UnexpectedChar(v)),
            },
        }
    }

    /// Reads two hexadecimal digits, high first, as one byte.
    pub fn expect_hex_8(&mut self) -> (r: ReadResult<'a, u8>)
        requires
            old(self).wf(),
        ensures
            ({
                let rest = old(self).rest();
                if rest.len() >= 2 && hex_value(rest[0]).is_some() && hex_value(rest[1]).is_some() {
                    r == Ok::<u8, ReadError<'a>>(
                        (16 * hex_value(rest[0]).unwrap() + hex_value(rest[1]).unwrap()) as u8,
                    ) && final(self).advanced(*old(self), 2)
                } else {
                    r.is_err()
                }
            }),
    {
        let high = self.expect_hex()?;
        let low = self.expect_hex()?;
        Ok(high * 16 + low)
    }

    /// How many bytes have been consumed.
    pub fn read_amount_bytes(&self) -> (r: usize)
        requires
            self.wf(),
        ensures
            r == self.position(),
    {
        self.pos
    }
}

/// The register that an upper-case letter names in assembly source.
pub open spec fn register_named(b: u8) -> Option<Register> {
    if b == 0x42 {
        Some(Register::B)
    } else if b == 0x43 {
        Some(Register::C)
    } else if b == 0x44 {
        Some(Register::D)
    } else if b == 0x45 {
        Some(Register::E)
    } else if b == 0x48 {
        Some(Register::H)
    } else if b == 0x4C {
        Some(Register::L)
    } else if b == 0x4D {
        Some(Register::M)
    } else if b == 0x41 {
        Some(Register::A)
    } else {
        None
    }
}

/// The value of a hexadecimal digit, in either case.
pub open spec fn hex_value(b: u8) -> Option<u8> {
    if 0x30 <= b <= 0x39 {
        Some((b - 0x30) as u8)
    } else if 0x41 <= b <= 0x46 {
        Some((b - 0x41 + 10) as u8)
    } else if 0x61 <= b <= 0x66 {
        Some((b - 0x61 + 10) as u8)
    } else {
        None
    }
}

pub fn hex_digit(b: u8) -> (r: Option<u8>)
    ensures
        r == hex_value(b),
        r.is_some() ==> r.unwrap() < 16,
{
    if b >= 0x30 && b <= 0x39 {
        Some(b - 0x30)
    } else if b >= 0x41 && b <= 0x46 {
        Some(b - 0x41 + 10)
    } else if b >= 0x61 && b <= 0x66 {
        Some(b - 0x61 + 10)
    } else {
        None
    }
}

fn slices_equal(a: &[u8], b: &[u8]) -> (r: bool)
    ensures
        r == (a@ == b@),
{
    if a.len() != b.len() {
        return false;
    }
    let mut i: usize = 0;
    while i < a.len()
        invariant
            a@.len() == b@.len(),
            i <= a@.len(),
            forall|k: int| 0 <= k < i ==> a@[k] == b@[k],
        decreases a.len() - i,
    {
        if a[i] != b[i] {
            return false;
        }
        i = i + 1;
    }
    assert(a@ =~= b@);
    true
}

} // verus!
