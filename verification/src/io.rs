use vstd::prelude::*;

verus! {

/// Error values surfaced by the archive and container decoders.
///
/// `Format` reports the byte offset at which the input contradicted the
/// format (a magic mismatch, an asserted byte that differed, a flag byte
/// with an unknown bit set, or corrupt compressed data).
/// `UnexpectedEof` reports the byte offset at which the input ended while
/// more bytes were still required.
/// `UnsupportedAlgorithm` carries the four-byte algorithm code of a
/// recognised container whose compression scheme is not implemented.
/// `IndexOutOfRange` rejects an entry index at or beyond the entry count.
#[derive(Debug, Clone, PartialEq, Eq)]
pub enum Error {
    Format { offset: usize },
    UnexpectedEof { offset: usize },
    UnsupportedAlgorithm { code0: u8, code1: u8, code2: u8, code3: u8 },
    IndexOutOfRange,
}

/// Builds the error used for data that contradicts the format at `offset`.
pub fn invalid_data(offset: usize) -> (r: Error)
    ensures
        r == (Error::Format { offset }),
{
    Error::Format { offset }
}

/// Value of the four bytes starting at `i` read as a little-endian integer.
pub open spec fn u32_le_at(s: Seq<u8>, i: int) -> int {
    s[i] + s[i + 1] * 0x100 + s[i + 2] * 0x10000 + s[i + 3] * 0x1000000
}

/// Value of the four bytes starting at `i` read as a big-endian integer.
pub open spec fn u32_be_at(s: Seq<u8>, i: int) -> int {
    s[i + 3] + s[i + 2] * 0x100 + s[i + 1] * 0x10000 + s[i] * 0x1000000
}

/// Value of the four bytes starting at `i` in the selected byte order.
pub open spec fn u32_at(s: Seq<u8>, i: int, big_endian: bool) -> int {
    if big_endian {
        u32_be_at(s, i)
    } else {
        u32_le_at(s, i)
    }
}

/// Value of the eight bytes starting at `i` read as a little-endian integer.
pub open spec fn u64_le_at(s: Seq<u8>, i: int) -> int {
    s[i] + s[i + 1] * 0x100 + s[i + 2] * 0x10000 + s[i + 3] * 0x1000000
        + s[i + 4] * 0x100000000 + s[i + 5] * 0x10000000000 + s[i + 6] * 0x1000000000000
        + s[i + 7] * 0x100000000000000
}

/// Value of the eight bytes starting at `i` read as a big-endian integer.
pub open spec fn u64_be_at(s: Seq<u8>, i: int) -> int {
    s[i + 7] + s[i + 6] * 0x100 + s[i + 5] * 0x10000 + s[i + 4] * 0x1000000
        + s[i + 3] * 0x100000000 + s[i + 2] * 0x10000000000 + s[i + 1] * 0x1000000000000
        + s[i] * 0x100000000000000
}

/// Value of the eight bytes starting at `i` in the selected byte order.
pub open spec fn u64_at(s: Seq<u8>, i: int, big_endian: bool) -> int {
    if big_endian {
        u64_be_at(s, i)
    } else {
        u64_le_at(s, i)
    }
}

/// Value of the four bytes starting at `i` read as a two's-complement
/// signed integer in the selected byte order.
pub open spec fn i32_at(s: Seq<u8>, i: int, big_endian: bool) -> int {
    if u32_at(s, i, big_endian) >= 0x8000_0000 {
        u32_at(s, i, big_endian) - 0x1_0000_0000
    } else {
        u32_at(s, i, big_endian)
    }
}

/// Offset reported when a byte-at-a-time read starting at `pos` runs off
/// the end of `s`: the first position at which no byte was available.
pub open spec fn eof_offset(s: Seq<u8>, pos: int) -> int {
    if pos >= s.len() {
        pos
    } else {
        s.len() as int
    }
}

/// The bytes of `s` from `pos` to the end; empty when `pos` lies outside `s`.
pub open spec fn rest(s: Seq<u8>, pos: int) -> Seq<u8> {
    if 0 <= pos <= s.len() {
        s.skip(pos)
    } else {
        Seq::empty()
    }
}

/// Result of checking that the byte at `pos` equals `v`: end of input and
/// mismatches are told apart, each reported at `pos`.
pub open spec fn spec_expect_u8(s: Seq<u8>, pos: int, v: u8) -> Result<(), Error> {
    if pos >= s.len() {
        Err(Error::UnexpectedEof { offset: pos as usize })
    } else if s[pos] != v {
        Err(Error::Format { offset: pos as usize })
    } else {
        Ok(())
    }
}

/// Result of checking the four bytes at `pos` against `m0..m3` in order:
/// the first byte that is missing or differs decides the error.
pub open spec fn spec_expect4(s: Seq<u8>, pos: int, m0: u8, m1: u8, m2: u8, m3: u8) -> Result<
    (),
    Error,
> {
    if spec_expect_u8(s, pos, m0) is Err {
        spec_expect_u8(s, pos, m0)
    } else if spec_expect_u8(s, pos + 1, m1) is Err {
        spec_expect_u8(s, pos + 1, m1)
    } else if spec_expect_u8(s, pos + 2, m2) is Err {
        spec_expect_u8(s, pos + 2, m2)
    } else if spec_expect_u8(s, pos + 3, m3) is Err {
        spec_expect_u8(s, pos + 3, m3)
    } else {
        Ok(())
    }
}

/// Position of the first zero byte of `s` at or after `i`, or an index at
/// or past the end of `s` when no zero byte follows `i`.
pub open spec fn nul_end(s: Seq<u8>, i: int) -> int
    decreases s.len() - i,
{
    if i < 0 || i >= s.len() {
        i
    } else if s[i] == 0 {
        i
    } else {
        nul_end(s, i + 1)
    }
}

/// Position of the first aligned zero byte pair of `s` at or after `i`
/// (stepping two bytes at a time), or an index within two bytes of the end
/// when no such pair follows `i`.
pub open spec fn nul2_end(s: Seq<u8>, i: int) -> int
    decreases s.len() - i,
{
    if i < 0 || i + 2 > s.len() {
        i
    } else if s[i] == 0 && s[i + 1] == 0 {
        i
    } else {
        nul2_end(s, i + 2)
    }
}

/// A read position over an in-memory byte source. Seeks move the position
/// freely, including past the end; reads past the end fail or stop short,
/// they never touch memory outside the source.
#[derive(Debug)]
pub struct Cursor {
    pub data: Vec<u8>,
    pub pos: usize,
}

impl View for Cursor {
    type V = Seq<u8>;

    open spec fn view(&self) -> Seq<u8> {
        self.data@
    }
}

impl Cursor {
    pub fn new(data: Vec<u8>) -> (r: Cursor)
        ensures
            r@ == data@,
            r.pos == 0,
    {
        Cursor { data, pos: 0 }
    }

    pub fn position(&self) -> (r: usize)
        ensures
            r == self.pos,
    {
        self.pos
    }

    pub fn seek(&mut self, pos: usize)
        ensures
            final(self)@ == old(self)@,
            final(self).pos == pos,
    {
        self.pos = pos;
    }

    pub fn read_u8(&mut self) -> (r: Result<u8, Error>)
        ensures
            final(self)@ == old(self)@,
            ({
                let s = old(self)@;
                let p = old(self).pos;
                if (p as int) < s.len() {
                    r == Ok::<u8, Error>(s[p as int]) && final(self).pos == p + 1
                } else {
                    r == Err::<u8, Error>(Error::UnexpectedEof { offset: p }) && final(self).pos
                        == p
                }
            }),
    {
        if self.pos < self.data.len() {
            let b = self.data[self.pos];
            self.pos = self.pos + 1;
            Ok(b)
        } else {
            Err(Error::UnexpectedEof { offset: self.pos })
        }
    }

    /// Reads one byte as a boolean: `1` is true, every other value false.
    pub fn read_bool(&mut self) -> (r: Result<bool, Error>)
        ensures
            final(self)@ == old(self)@,
            ({
                let s = old(self)@;
                let p = old(self).pos;
                if (p as int) < s.len() {
                    r == Ok::<bool, Error>(s[p as int] == 1) && final(self).pos == p + 1
                } else {
                    r == Err::<bool, Error>(Error::UnexpectedEof { offset: p })
                }
            }),
    {
        let b = self.read_u8()?;
        Ok(b == 1)
    }

    pub fn read_u32(&mut self, big_endian: bool) -> (r: Result<u32, Error>)
        ensures
            final(self)@ == old(self)@,
            ({
                let s = old(self)@;
                let p = old(self).pos as int;
                if p + 4 <= s.len() {
                    r matches Ok(v) && v as int == u32_at(s, p, big_endian) && final(self).pos == p
                        + 4
                } else {
                    r == Err::<u32, Error>(
                        Error::UnexpectedEof { offset: eof_offset(s, p) as usize },
                    )
                }
            }),
    {
        let b0 = self.read_u8()?;
        let b1 = self.read_u8()?;
        let b2 = self.read_u8()?;
        let b3 = self.read_u8()?;
        if big_endian {
            Ok((b3 as u32) + (b2 as u32) * 0x100 + (b1 as u32) * 0x10000 + (b0 as u32) * 0x1000000)
        } else {
            Ok((b0 as u32) + (b1 as u32) * 0x100 + (b2 as u32) * 0x10000 + (b3 as u32) * 0x1000000)
        }
    }

    pub fn read_u64(&mut self, big_endian: bool) -> (r: Result<u64, Error>)
        ensures
            final(self)@ == old(self)@,
            ({
                let s = old(self)@;
                let p = old(self).pos as int;
                if p + 8 <= s.len() {
                    r matches Ok(v) && v as int == u64_at(s, p, big_endian) && final(self).pos == p
                        + 8
                } else {
                    r == Err::<u64, Error>(
                        Error::UnexpectedEof { offset: eof_offset(s, p) as usize },
                    )
                }
            }),
    {
        let b0 = self.read_u8()?;
        let b1 = self.read_u8()?;
        let b2 = self.read_u8()?;
        let b3 = self.read_u8()?;
        let b4 = self.read_u8()?;
        let b5 = self.read_u8()?;
        let b6 = self.read_u8()?;
        let b7 = self.read_u8()?;
        let lo: u64;
        let hi: u64;
        if big_endian {
            lo = (b7 as u64) + (b6 as u64) * 0x100 + (b5 as u64) * 0x10000 + (b4 as u64)
                * 0x1000000;
            hi = (b3 as u64) + (b2 as u64) * 0x100 + (b1 as u64) * 0x10000 + (b0 as u64)
                * 0x1000000;
        } else {
            lo = (b0 as u64) + (b1 as u64) * 0x100 + (b2 as u64) * 0x10000 + (b3 as u64)
                * 0x1000000;
            hi = (b4 as u64) + (b5 as u64) * 0x100 + (b6 as u64) * 0x10000 + (b7 as u64)
                * 0x1000000;
        }
        Ok(lo + hi * 0x100000000)
    }

    pub fn read_i32(&mut self, big_endian: bool) -> (r: Result<i32, Error>)
        ensures
            final(self)@ == old(self)@,
            ({
                let s = old(self)@;
                let p = old(self).pos as int;
                if p + 4 <= s.len() {
                    r matches Ok(v) && v as int == i32_at(s, p, big_endian) && final(self).pos == p
                        + 4
                } else {
                    r == Err::<i32, Error>(
                        Error::UnexpectedEof { offset: eof_offset(s, p) as usize },
                    )
                }
            }),
    {
        let v = self.read_u32(big_endian)?;
        if v <= 0x7FFF_FFFFu32 {
            Ok(v as i32)
        } else {
            Ok(((v - 0x8000_0000u32) as i32) + (-0x7FFF_FFFF - 1))
        }
    }

    /// Checks that the next byte equals `value`, consuming it on success.
    pub fn expect_u8(&mut self, value: u8) -> (r: Result<(), Error>)
        ensures
            final(self)@ == old(self)@,
            ({
                let s = old(self)@;
                let p = old(self).pos as int;
                match spec_expect_u8(s, p, value) {
                    Ok(()) => r is Ok && final(self).pos == old(self).pos + 1,
                    Err(e) => r == Err::<(), Error>(e),
                }
            }),
    {
        let b = self.read_u8()?;
        if b == value {
            Ok(())
        } else {
            Err(invalid_data(self.pos - 1))
        }
    }

    /// Checks that the next four bytes equal `m0..m3`, reporting the first
    /// position that is missing or differs.
    pub fn expect_magic(&mut self, m0: u8, m1: u8, m2: u8, m3: u8) -> (r: Result<(), Error>)
        ensures
            final(self)@ == old(self)@,
            ({
                let s = old(self)@;
                let p = old(self).pos as int;
                &&& (r is Ok <==> (p + 4 <= s.len() && s[p] == m0 && s[p + 1] == m1 && s[p + 2]
                    == m2 && s[p + 3] == m3))
                &&& (r is Ok ==> final(self).pos == old(self).pos + 4)
                &&& (match spec_expect4(s, p, m0, m1, m2, m3) {
                    Ok(()) => r is Ok,
                    Err(e) => r == Err::<(), Error>(e),
                })
            }),
    {
        self.expect_u8(m0)?;
        self.expect_u8(m1)?;
        self.expect_u8(m2)?;
        self.expect_u8(m3)?;
        Ok(())
    }

    /// Reads exactly `n` bytes, failing without moving when fewer remain.
    pub fn read_bytes(&mut self, n: usize) -> (r: Result<Vec<u8>, Error>)
        ensures
            final(self)@ == old(self)@,
            ({
                let s = old(self)@;
                let p = old(self).pos as int;
                if p + n <= s.len() {
                    r matches Ok(v) && v@ == s.subrange(p, p + n) && final(self).pos == p + n
                } else {
                    r == Err::<Vec<u8>, Error>(
                        Error::UnexpectedEof { offset: eof_offset(s, p) as usize },
                    ) && final(self).pos == old(self).pos
                }
            }),
    {
        if self.pos > self.data.len() || n > self.data.len() - self.pos {
            let offset = if self.pos >= self.data.len() {
                self.pos
            } else {
                self.data.len()
            };
            return Err(Error::UnexpectedEof { offset });
        }
        let ghost s = self@;
        let ghost p = self.pos as int;
        let mut out: Vec<u8> = Vec::new();
        let mut i: usize = 0;
        while i < n
            invariant
                self@ == s,
                self.pos as int == p,
                0 <= i <= n,
                p + n <= s.len(),
                s.len() <= usize::MAX,
                out@ == s.subrange(p, p + i),
            decreases n - i,
        {
            let b = self.data[self.pos + i];
            out.push(b);
            i = i + 1;
            proof {
                assert(out@ =~= s.subrange(p, p + i));
            }
        }
        self.pos = self.pos + n;
        Ok(out)
    }

    /// Reads up to `n` bytes, stopping short at the end of the source.
    pub fn read(&mut self, n: usize) -> (r: Vec<u8>)
        ensures
            final(self)@ == old(self)@,
            ({
                let s = old(self)@;
                let p = old(self).pos as int;
                let m = rest(s, p);
                let k = if (n as int) <= m.len() {
                    n as int
                } else {
                    m.len() as int
                };
                r@ == m.take(k) && final(self).pos as int == p + k && rest(
                    final(self)@,
                    final(self).pos as int,
                ) == m.skip(k)
            }),
    {
        let ghost s = self@;
        let ghost p = self.pos as int;
        let len = self.data.len();
        if self.pos > len {
            proof {
                assert(rest(s, p) =~= Seq::<u8>::empty());
                assert(rest(s, p).skip(0) =~= rest(s, p));
            }
            return Vec::new();
        }
        let avail: usize = len - self.pos;
        let k: usize = if n <= avail {
            n
        } else {
            avail
        };
        let mut out: Vec<u8> = Vec::new();
        let mut i: usize = 0;
        while i < k
            invariant
                self@ == s,
                self.pos as int == p,
                0 <= i <= k,
                p + k <= s.len(),
                s.len() <= usize::MAX,
                out@ == s.subrange(p, p + i),
            decreases k - i,
        {
            let b = self.data[self.pos + i];
            out.push(b);
            i = i + 1;
            proof {
                assert(out@ =~= s.subrange(p, p + i));
            }
        }
        self.pos = self.pos + k;
        proof {
            assert(out@ =~= rest(s, p).take(
                if (n as int) <= rest(s, p).len() {
                    n as int
                } else {
                    rest(s, p).len() as int
                },
            ));
            assert(rest(s, p + k) =~= rest(s, p).skip(k as int));
        }
        out
    }

    /// Reads the bytes up to (not including) the next zero byte and
    /// consumes the terminator; fails at the end of the source when no
    /// terminator follows.
    pub fn read_cstr_bytes(&mut self) -> (r: Result<Vec<u8>, Error>)
        ensures
            final(self)@ == old(self)@,
            ({
                let s = old(self)@;
                let p = old(self).pos as int;
                if nul_end(s, p) < s.len() {
                    r matches Ok(v) && v@ == s.subrange(p, nul_end(s, p)) && final(self).pos as int
                        == nul_end(s, p) + 1
                } else {
                    r == Err::<Vec<u8>, Error>(
                        Error::UnexpectedEof { offset: s.len() as usize },
                    )
                }
            }),
    {
        let ghost s = self@;
        let ghost p = self.pos as int;
        let mut out: Vec<u8> = Vec::new();
        let mut j: usize = self.pos;
        if self.pos >= self.data.len() {
            return Err(Error::UnexpectedEof { offset: self.data.len() });
        }
        while j < self.data.len()
            invariant
                self@ == s,
                s == old(self)@,
                p == old(self).pos as int,
                self.pos as int == p,
                p <= j as int <= s.len(),
                out@ == s.subrange(p, j as int),
                nul_end(s, p) == nul_end(s, j as int),
            decreases s.len() - j,
        {
            let b = self.data[j];
            if b == 0 {
                proof {
                    assert(nul_end(s, j as int) == j as int);
                }
                self.pos = j + 1;
                return Ok(out);
            }
            out.push(b);
            proof {
                assert(nul_end(s, j as int) == nul_end(s, j + 1));
            }
            j = j + 1;
            proof {
                assert(out@ =~= s.subrange(p, j as int));
            }
        }
        proof {
            assert(nul_end(s, j as int) == j as int);
        }
        Err(Error::UnexpectedEof { offset: self.data.len() })
    }

    /// Reads byte pairs up to (not including) the next aligned zero pair
    /// and consumes the terminator; fails at the end of the source when no
    /// terminator follows.
    pub fn read_utf16_bytes(&mut self) -> (r: Result<Vec<u8>, Error>)
        ensures
            final(self)@ == old(self)@,
            ({
                let s = old(self)@;
                let p = old(self).pos as int;
                if nul2_end(s, p) + 2 <= s.len() {
                    r matches Ok(v) && v@ == s.subrange(p, nul2_end(s, p)) && final(self).pos
                        as int == nul2_end(s, p) + 2
                } else {
                    r == Err::<Vec<u8>, Error>(
                        Error::UnexpectedEof { offset: s.len() as usize },
                    )
                }
            }),
    {
        let ghost s = self@;
        let ghost p = self.pos as int;
        let mut out: Vec<u8> = Vec::new();
        let mut j: usize = self.pos;
        if self.pos >= self.data.len() {
            return Err(Error::UnexpectedEof { offset: self.data.len() });
        }
        while self.data.len() - j >= 2
            invariant
                self@ == s,
                s == old(self)@,
                p == old(self).pos as int,
                self.pos as int == p,
                p <= j as int <= s.len(),
                out@ == s.subrange(p, j as int),
                nul2_end(s, p) == nul2_end(s, j as int),
            decreases s.len() - j,
        {
            let b0 = self.data[j];
            let b1 = self.data[j + 1];
            if b0 == 0 && b1 == 0 {
                proof {
                    assert(nul2_end(s, j as int) == j as int);
                }
                self.pos = j + 2;
                return Ok(out);
            }
            out.push(b0);
            out.push(b1);
            proof {
                assert(nul2_end(s, j as int) == nul2_end(s, j + 2));
            }
            j = j + 2;
            proof {
                assert(out@ =~= s.subrange(p, j as int));
            }
        }
        proof {
            assert(nul2_end(s, j as int) == j as int);
        }
        Err(Error::UnexpectedEof { offset: self.data.len() })
    }
}

/// The text that the legacy single-byte encoding assigns to a byte
/// sequence; a function of the bytes alone.
pub uninterp spec fn shift_jis_of(bytes: Seq<u8>) -> Seq<char>;

/// Relies on encoding_rs::Encoding::decode on SHIFT_JIS: the decoded text
/// is a function of the input bytes alone (malformed sequences become
/// replacement characters, never an error).
#[verifier::external_body]
pub(crate) fn decode_shift_jis(bytes: &Vec<u8>) -> (r: String)
    ensures
        r@ == shift_jis_of(bytes@),
{
    let (decoded, _, _) = encoding_rs::SHIFT_JIS.decode(&bytes[..]);
    decoded.into_owned()
}

/// The text that UTF-16 in the given byte order assigns to a byte
/// sequence; a function of the bytes and the order alone.
pub uninterp spec fn utf16_of(bytes: Seq<u8>, big_endian: bool) -> Seq<char>;

/// Relies on encoding_rs::Encoding::decode on UTF_16BE / UTF_16LE: the
/// decoded text is a function of the input bytes and the byte order alone
/// (malformed sequences become replacement characters, never an error).
#[verifier::external_body]
pub(crate) fn decode_utf16(bytes: &Vec<u8>, big_endian: bool) -> (r: String)
    ensures
        r@ == utf16_of(bytes@, big_endian),
{
    let encoding = if big_endian {
        encoding_rs::UTF_16BE
    } else {
        encoding_rs::UTF_16LE
    };
    let (decoded, _, _) = encoding.decode(&bytes[..]);
    decoded.into_owned()
}

} // verus!
