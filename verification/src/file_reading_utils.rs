//! Reading little-endian numbers and strings from a byte buffer, front to
//! back.

use vstd::prelude::*;
use vstd::utf8::{decode_utf8, valid_utf8};

verus! {

/// Why a value could not be read.
#[derive(Clone, Copy, Debug, PartialEq, Eq, Structural)]
pub enum ReadError {
    /// Fewer bytes are left than the value takes.
    UnexpectedEof,
    /// The bytes of a string are not valid UTF-8.
    InvalidUtf8,
}

/// A byte buffer and a position in it. Reading starts at the position and
/// moves it forward; a position behind the end leaves nothing to read.
pub struct Cursor {
    data: Vec<u8>,
    position: u64,
}

impl Cursor {
    /// All bytes of the buffer.
    pub closed spec fn bytes(&self) -> Seq<u8> {
        self.data@
    }

    pub closed spec fn spec_position(&self) -> int {
        self.position as int
    }

    /// Where reading starts: the position, or the end if the position lies
    /// behind it.
    pub open spec fn start(&self) -> int {
        if self.spec_position() < self.bytes().len() {
            self.spec_position()
        } else {
            self.bytes().len() as int
        }
    }

    /// The bytes that are left to read.
    pub open spec fn rest(&self) -> Seq<u8> {
        self.bytes().subrange(self.start(), self.bytes().len() as int)
    }

    /// The same buffer, `n` bytes further on.
    pub open spec fn advanced(&self, before: &Cursor, n: int) -> bool {
        &&& self.bytes() == before.bytes()
        &&& self.spec_position() == before.spec_position() + n
        &&& 0 <= n <= before.rest().len()
        &&& self.rest() == before.rest().skip(n)
    }

    /// Two reads in a row are one read of both lengths.
    pub proof fn lemma_advanced_twice(&self, first: &Cursor, before: &Cursor, n: int, m: int)
        requires
            first.advanced(before, n),
            self.advanced(first, m),
        ensures
            self.advanced(before, n + m),
    {
        assert(before.rest().skip(n).skip(m) =~= before.rest().skip(n + m));
    }

    /// No read at all leaves the cursor where it is.
    pub proof fn lemma_advanced_zero(&self)
        ensures
            self.advanced(self, 0),
    {
        assert(self.rest().skip(0) =~= self.rest());
    }

    /// A cursor at the start of `data`.
    pub fn new(data: Vec<u8>) -> (c: Self)
        ensures
            c.bytes() == data@,
            c.spec_position() == 0,
    {
        Cursor { data, position: 0 }
    }

    pub fn position(&self) -> (p: u64)
        ensures
            p == self.spec_position(),
    {
        self.position
    }

    pub fn set_position(&mut self, position: u64)
        ensures
            final(self).bytes() == old(self).bytes(),
            final(self).spec_position() == position,
    {
        self.position = position;
    }

    /// The buffer.
    pub fn get_ref(&self) -> (d: &Vec<u8>)
        ensures
            d@ == self.bytes(),
    {
        &self.data
    }

    /// How many bytes are left to read.
    pub fn remaining(&self) -> (n: usize)
        ensures
            n == self.rest().len(),
    {
        let len: usize = self.data.len();
        if self.position < len as u64 {
            len - self.position as usize
        } else {
            0
        }
    }

    /// Where reading starts, as an index into the buffer.
    fn start_index(&self) -> (i: usize)
        ensures
            i == self.start(),
            i + self.rest().len() == self.bytes().len(),
            self.bytes().len() <= usize::MAX,
    {
        let len: usize = self.data.len();
        if self.position < len as u64 {
            self.position as usize
        } else {
            len
        }
    }

    /// Moves the position over `n` bytes that are left.
    fn advance(&mut self, n: usize)
        requires
            n <= old(self).rest().len(),
        ensures
            final(self).advanced(old(self), n as int),
    {
        let start: usize = self.start_index();
        if n > 0 {
            self.position = (start + n) as u64;
        }
        assert(self.rest() =~= old(self).rest().skip(n as int));
    }

    /// Reads up to `count` bytes: as many as are left, if fewer are left.
    pub fn take(&mut self, count: usize) -> (out: Vec<u8>)
        ensures
            out@ == old(self).rest().take(taken(old(self).rest().len() as int, count as int)),
            final(self).advanced(old(self), taken(old(self).rest().len() as int, count as int)),
    {
        let start: usize = self.start_index();
        let left: usize = self.remaining();
        let n: usize = if count < left {
            count
        } else {
            left
        };
        let mut out: Vec<u8> = Vec::with_capacity(n);
        let mut i: usize = 0;
        while i < n
            invariant
                i <= n,
                start == self.start(),
                start + n <= self.data@.len(),
                self.data@.len() <= usize::MAX,
                out@ == self.data@.subrange(start as int, start + i),
            decreases n - i,
        {
            out.push(self.data[start + i]);
            i = i + 1;
        }
        proof {
            assert(out@ == self.rest().take(n as int));
        }
        self.advance(n);
        out
    }
}

/// How many bytes a read of `count` bytes gets when `left` are left.
pub open spec fn taken(left: int, count: int) -> int {
    if count < left {
        count
    } else {
        left
    }
}

/// The number that four bytes stand for, least significant byte first.
pub open spec fn le_u32(b: Seq<u8>) -> int {
    b[0] + b[1] * 0x100 + b[2] * 0x1_0000 + b[3] * 0x100_0000
}

/// The signed number that four bytes stand for in two's complement, least
/// significant byte first.
pub open spec fn le_i32(b: Seq<u8>) -> int {
    if le_u32(b) < 0x8000_0000 {
        le_u32(b)
    } else {
        le_u32(b) - 0x1_0000_0000
    }
}

/// Reads four bytes as an unsigned number, least significant byte first.
/// Where fewer than four bytes are left nothing is read.
pub fn read_u32(cursor: &mut Cursor) -> (r: Result<u32, ReadError>)
    ensures
        r is Ok <==> old(cursor).rest().len() >= 4,
        r matches Ok(v) ==> v == le_u32(old(cursor).rest()) && final(cursor).advanced(
            old(cursor),
            4,
        ),
        r is Err ==> r == Err::<u32, ReadError>(ReadError::UnexpectedEof) && *final(cursor)
            == *old(cursor),
{
    if cursor.remaining() < 4 {
        return Err(ReadError::UnexpectedEof);
    }
    let start: usize = cursor.start_index();
    let b0: u32 = cursor.data[start] as u32;
    let b1: u32 = cursor.data[start + 1] as u32;
    let b2: u32 = cursor.data[start + 2] as u32;
    let b3: u32 = cursor.data[start + 3] as u32;
    cursor.advance(4);
    Ok(b0 + b1 * 0x100 + b2 * 0x1_0000 + b3 * 0x100_0000)
}

/// Reads four bytes as a signed number in two's complement, least
/// significant byte first. Where fewer than four bytes are left nothing is
/// read.
pub fn read_i32(cursor: &mut Cursor) -> (r: Result<i32, ReadError>)
    ensures
        r is Ok <==> old(cursor).rest().len() >= 4,
        r matches Ok(v) ==> v == le_i32(old(cursor).rest()) && final(cursor).advanced(
            old(cursor),
            4,
        ),
        r is Err ==> r == Err::<i32, ReadError>(ReadError::UnexpectedEof) && *final(cursor)
            == *old(cursor),
{
    match read_u32(cursor) {
        Ok(v) => {
            if v < 0x8000_0000 {
                Ok(v as i32)
            } else {
                Ok((v as i64 - 0x1_0000_0000) as i32)
            }
        },
        Err(e) => Err(e),
    }
}

/// Reads the four bytes of a 32-bit float and hands them on as the number
/// that they stand for as an unsigned integer: the float's bit pattern.
pub fn read_f32(cursor: &mut Cursor) -> (r: Result<u32, ReadError>)
    ensures
        r is Ok <==> old(cursor).rest().len() >= 4,
        r matches Ok(v) ==> v == le_u32(old(cursor).rest()) && final(cursor).advanced(
            old(cursor),
            4,
        ),
        r is Err ==> r == Err::<u32, ReadError>(ReadError::UnexpectedEof) && *final(cursor)
            == *old(cursor),
{
    read_u32(cursor)
}

/// Reads four bytes as a colour: red, green, blue, alpha.
pub fn read_color(cursor: &mut Cursor) -> (r: Result<(u8, u8, u8, u8), ReadError>)
    ensures
        r is Ok <==> old(cursor).rest().len() >= 4,
        r matches Ok(c) ==> {
            &&& c.0 == old(cursor).rest()[0]
            &&& c.1 == old(cursor).rest()[1]
            &&& c.2 == old(cursor).rest()[2]
            &&& c.3 == old(cursor).rest()[3]
            &&& final(cursor).advanced(old(cursor), 4)
        },
        r is Err ==> r == Err::<(u8, u8, u8, u8), ReadError>(ReadError::UnexpectedEof)
            && *final(cursor) == *old(cursor),
{
    if cursor.remaining() < 4 {
        return Err(ReadError::UnexpectedEof);
    }
    let start: usize = cursor.start_index();
    let c: (u8, u8, u8, u8) = (
        cursor.data[start],
        cursor.data[start + 1],
        cursor.data[start + 2],
        cursor.data[start + 3],
    );
    cursor.advance(4);
    Ok(c)
}

/// How many bytes stand before the first zero byte of `s`; the length of `s`
/// if it holds none.
pub open spec fn until_zero(s: Seq<u8>) -> int
    decreases s.len(),
{
    if s.len() == 0 || s[0] == 0 {
        0
    } else {
        1 + until_zero(s.drop_first())
    }
}

/// What a read up to a zero byte hands on: the bytes before the zero byte.
/// Where no zero byte is left, all bytes that are left but the last.
pub open spec fn terminated_text(rest: Seq<u8>) -> Seq<u8> {
    if until_zero(rest) < rest.len() {
        rest.take(until_zero(rest))
    } else if rest.len() > 0 {
        rest.drop_last()
    } else {
        rest
    }
}

/// How many bytes a read up to a zero byte takes: the zero byte is among
/// them if there is one.
pub open spec fn terminated_len(rest: Seq<u8>) -> int {
    if until_zero(rest) < rest.len() {
        until_zero(rest) + 1
    } else {
        rest.len() as int
    }
}

/// The first zero byte of `s` stands at `i`, or `i` is the length of `s` and
/// `s` holds none.
pub proof fn lemma_until_zero_is(s: Seq<u8>, i: int)
    requires
        0 <= i <= s.len(),
        forall|j: int| 0 <= j < i ==> s[j] != 0,
        i < s.len() ==> s[i] == 0,
    ensures
        until_zero(s) == i,
    decreases s.len(),
{
    if !(s.len() == 0 || s[0] == 0) {
        let t = s.drop_first();
        assert forall|j: int| 0 <= j < i - 1 implies t[j] != 0 by {
            assert(t[j] == s[j + 1]);
        }
        lemma_until_zero_is(t, i - 1);
    }
}

/// Reads bytes up to and with the next zero byte, or to the end where there
/// is none, and hands on what was read without its last byte.
pub fn read_null_terminated_bytes(cursor: &mut Cursor) -> (out: Vec<u8>)
    ensures
        out@ == terminated_text(old(cursor).rest()),
        final(cursor).advanced(old(cursor), terminated_len(old(cursor).rest())),
{
    let start: usize = cursor.start_index();
    let left: usize = cursor.remaining();
    let mut i: usize = 0;
    while i < left && cursor.data[start + i] != 0
        invariant
            i <= left,
            start == cursor.start(),
            left == cursor.rest().len(),
            start + left == cursor.data@.len(),
            cursor.data@.len() <= usize::MAX,
            *cursor == *old(cursor),
            forall|j: int| 0 <= j < i ==> cursor.rest()[j] != 0,
        decreases left - i,
    {
        i = i + 1;
    }
    proof {
        lemma_until_zero_is(cursor.rest(), i as int);
    }
    if i < left {
        let out: Vec<u8> = cursor.take(i);
        let ghost taken_to: Cursor = *cursor;
        cursor.advance(1);
        proof {
            cursor.lemma_advanced_twice(&taken_to, old(cursor), i as int, 1);
        }
        out
    } else if left > 0 {
        let out: Vec<u8> = cursor.take(left - 1);
        let ghost taken_to: Cursor = *cursor;
        cursor.advance(1);
        proof {
            cursor.lemma_advanced_twice(&taken_to, old(cursor), left - 1, 1);
        }
        out
    } else {
        proof {
            cursor.lemma_advanced_zero();
        }
        Vec::new()
    }
}

/// Makes a string of bytes that are valid UTF-8.
///
/// Trusted: `String::from_utf8` returns the string whose UTF-8 encoding is
/// the given bytes, and fails exactly when they are not valid UTF-8.
#[verifier::external_body]
fn string_from_utf8(bytes: Vec<u8>) -> (r: Option<String>)
    ensures
        r is Some <==> valid_utf8(bytes@),
        r matches Some(s) ==> s@ == decode_utf8(bytes@),
{
    match String::from_utf8(bytes) {
        Ok(s) => Some(s),
        Err(_) => None,
    }
}

/// The string that valid UTF-8 bytes spell.
pub fn text_of(bytes: Vec<u8>) -> (r: Result<String, ReadError>)
    ensures
        r is Ok <==> valid_utf8(bytes@),
        r matches Ok(s) ==> s@ == decode_utf8(bytes@),
        r is Err ==> r == Err::<String, ReadError>(ReadError::InvalidUtf8),
{
    match string_from_utf8(bytes) {
        Some(s) => Ok(s),
        None => Err(ReadError::InvalidUtf8),
    }
}

/// Reads a string that ends with a zero byte. The bytes are taken as by
/// `read_null_terminated_bytes`, also where they are not valid UTF-8.
pub fn read_null_terminated_str(cursor: &mut Cursor) -> (r: Result<String, ReadError>)
    ensures
        final(cursor).advanced(old(cursor), terminated_len(old(cursor).rest())),
        r is Ok <==> valid_utf8(terminated_text(old(cursor).rest())),
        r matches Ok(s) ==> s@ == decode_utf8(terminated_text(old(cursor).rest())),
        r is Err ==> r == Err::<String, ReadError>(ReadError::InvalidUtf8),
{
    let bytes: Vec<u8> = read_null_terminated_bytes(cursor);
    text_of(bytes)
}

/// The bytes of a string of `size` bytes read from `rest`: as many as are
/// left, if fewer are left.
pub open spec fn sized_text(rest: Seq<u8>, size: int) -> Seq<u8> {
    rest.take(taken(rest.len() as int, size))
}

/// Reads a string of `size` bytes, or of as many as are left.
pub fn read_sized_str(cursor: &mut Cursor, size: u32) -> (r: Result<String, ReadError>)
    ensures
        final(cursor).advanced(old(cursor), taken(old(cursor).rest().len() as int, size as int)),
        r is Ok <==> valid_utf8(sized_text(old(cursor).rest(), size as int)),
        r matches Ok(s) ==> s@ == decode_utf8(sized_text(old(cursor).rest(), size as int)),
        r is Err ==> r == Err::<String, ReadError>(ReadError::InvalidUtf8),
{
    let bytes: Vec<u8> = cursor.take(size as usize);
    text_of(bytes)
}

/// Reads a string that stands behind its length: four bytes of length,
/// least significant first, then the string's bytes, or as many as are left.
/// Where fewer than four bytes are left nothing is read.
pub fn read_str(cursor: &mut Cursor) -> (r: Result<String, ReadError>)
    ensures
        old(cursor).rest().len() < 4 ==> r == Err::<String, ReadError>(ReadError::UnexpectedEof)
            && *final(cursor) == *old(cursor),
        old(cursor).rest().len() >= 4 ==> {
            let size = le_u32(old(cursor).rest());
            let body = old(cursor).rest().skip(4);
            &&& final(cursor).advanced(old(cursor), 4 + taken(body.len() as int, size))
            &&& r is Ok <==> valid_utf8(sized_text(body, size))
            &&& r matches Ok(s) ==> s@ == decode_utf8(sized_text(body, size))
            &&& r is Err ==> r == Err::<String, ReadError>(ReadError::InvalidUtf8)
        },
{
    let size: u32 = match read_u32(cursor) {
        Ok(v) => v,
        Err(e) => {
            return Err(e);
        },
    };
    let ghost behind_size: Cursor = *cursor;
    let r = read_sized_str(cursor, size);
    proof {
        cursor.lemma_advanced_twice(
            &behind_size,
            old(cursor),
            4,
            taken(behind_size.rest().len() as int, size as int),
        );
    }
    r
}

} // verus!
