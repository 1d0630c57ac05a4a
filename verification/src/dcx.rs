use vstd::prelude::*;

use crate::io::{spec_expect4, u32_at, Cursor, Error};

verus! {

/// Fields of the fixed 76-byte container header. All multi-byte integers
/// are big-endian. Unknown fields are skipped, not recorded.
#[derive(Debug, Clone, PartialEq, Eq, Structural)]
pub struct Metadata {
    pub format_magic0: u8,
    pub format_magic1: u8,
    pub format_magic2: u8,
    pub format_magic3: u8,
    pub dcs_offset: u32,
    pub dcp_offset: u32,
    pub compressed_size: u32,
    pub size: u32,
    pub algorithm0: u8,
    pub algorithm1: u8,
    pub algorithm2: u8,
    pub algorithm3: u8,
    pub dca_size: u32,
}

/// The recorded header fields agree with the raw header bytes of `s`.
pub open spec fn metadata_matches(m: Metadata, s: Seq<u8>) -> bool {
    &&& m.format_magic0 == s[4]
    &&& m.format_magic1 == s[5]
    &&& m.format_magic2 == s[6]
    &&& m.format_magic3 == s[7]
    &&& m.dcs_offset as int == u32_at(s, 8, true)
    &&& m.dcp_offset as int == u32_at(s, 12, true)
    &&& m.compressed_size as int == u32_at(s, 28, true)
    &&& m.size as int == u32_at(s, 32, true)
    &&& m.algorithm0 == s[40]
    &&& m.algorithm1 == s[41]
    &&& m.algorithm2 == s[42]
    &&& m.algorithm3 == s[43]
    &&& m.dca_size as int == u32_at(s, 72, true)
}

/// What the deflate decoder yields on a byte sequence: the decompressed
/// bytes, or nothing when the sequence is not a well-formed zlib stream.
/// A function of the bytes alone.
pub uninterp spec fn inflate_of(bytes: Seq<u8>) -> Option<Seq<u8>>;

/// Relies on flate2::read::ZlibDecoder (with std::io::Read::read_to_end):
/// the decompressed bytes are a function of the input bytes alone; bytes
/// past the end of the zlib stream are ignored; a corrupt stream gives an
/// error.
#[verifier::external_body]
fn zlib_inflate(bytes: &Vec<u8>) -> (r: Option<Vec<u8>>)
    ensures
        match r {
            Some(v) => inflate_of(bytes@) == Some(v@),
            None => inflate_of(bytes@) is None,
        },
{
    let mut decoder = flate2::read::ZlibDecoder::new(&bytes[..]);
    let mut out = Vec::new();
    match std::io::Read::read_to_end(&mut decoder, &mut out) {
        Ok(_) => Some(out),
        Err(_) => None,
    }
}

/// The container decode of `s`, exactly as `DcxReader::new` performs it:
/// the whole 76-byte header must be present; the `DCX\0`, `DCS\0` and
/// `DCP\0` tags are checked in that order, the first missing or differing
/// byte deciding the error; a recognised header with an algorithm code
/// other than `DFLT` is unsupported; otherwise the bytes after the header
/// are inflated, corruption being a format error at the payload start.
pub open spec fn spec_dcx_new(s: Seq<u8>) -> Result<Seq<u8>, Error> {
    if s.len() < 76 {
        Err(Error::UnexpectedEof { offset: s.len() as usize })
    } else if spec_expect4(s, 0, 0x44, 0x43, 0x58, 0x00) is Err {
        Err(spec_expect4(s, 0, 0x44, 0x43, 0x58, 0x00)->Err_0)
    } else if spec_expect4(s, 24, 0x44, 0x43, 0x53, 0x00) is Err {
        Err(spec_expect4(s, 24, 0x44, 0x43, 0x53, 0x00)->Err_0)
    } else if spec_expect4(s, 36, 0x44, 0x43, 0x50, 0x00) is Err {
        Err(spec_expect4(s, 36, 0x44, 0x43, 0x50, 0x00)->Err_0)
    } else if !(s[40] == 0x44 && s[41] == 0x46 && s[42] == 0x4C && s[43] == 0x54) {
        Err(
            Error::UnsupportedAlgorithm {
                code0: s[40],
                code1: s[41],
                code2: s[42],
                code3: s[43],
            },
        )
    } else {
        match inflate_of(s.skip(76)) {
            Some(v) => Ok(v),
            None => Err(Error::Format { offset: 76 }),
        }
    }
}

/// The decompression scheme a container selected. Only the deflate family
/// is implemented; other codes are rejected when the container is opened.
#[derive(Debug, Clone, Copy, PartialEq, Eq, Structural)]
pub enum DcxCompressionCodec {
    Deflate,
}

/// An open container: the header has been validated, the payload
/// decompressed, and the decompressed bytes are served as a forward-only
/// stream.
#[derive(Debug, Clone)]
pub struct DcxReader {
    pub metadata: Metadata,
    pub codec: DcxCompressionCodec,
    pub data: Vec<u8>,
    pub pos: usize,
}

impl DcxReader {
    /// The bytes not yet consumed by `read`.
    pub open spec fn stream(self) -> Seq<u8> {
        crate::io::rest(self.data@, self.pos as int)
    }

    /// Opens a container held in `data`: validates the header tags,
    /// rejects algorithms other than `DFLT`, and inflates the payload.
    pub fn new(data: Vec<u8>) -> (r: Result<DcxReader, Error>)
        ensures
            match r {
                Ok(d) => spec_dcx_new(data@) == Ok::<Seq<u8>, Error>(d.data@) && d.pos == 0
                    && metadata_matches(d.metadata, data@) && d.codec == DcxCompressionCodec::Deflate,
                Err(e) => spec_dcx_new(data@) == Err::<Seq<u8>, Error>(e),
            },
    {
        if data.len() < 76 {
            return Err(Error::UnexpectedEof { offset: data.len() });
        }
        let mut cur = Cursor::new(data);
        cur.expect_magic(0x44, 0x43, 0x58, 0x00)?;
        let format_magic0 = cur.read_u8()?;
        let format_magic1 = cur.read_u8()?;
        let format_magic2 = cur.read_u8()?;
        let format_magic3 = cur.read_u8()?;
        let dcs_offset = cur.read_u32(true)?;
        let dcp_offset = cur.read_u32(true)?;
        let _ = cur.read_u32(true)?;
        let _ = cur.read_u32(true)?;
        cur.expect_magic(0x44, 0x43, 0x53, 0x00)?;
        let compressed_size = cur.read_u32(true)?;
        let size = cur.read_u32(true)?;
        cur.expect_magic(0x44, 0x43, 0x50, 0x00)?;
        let algorithm0 = cur.read_u8()?;
        let algorithm1 = cur.read_u8()?;
        let algorithm2 = cur.read_u8()?;
        let algorithm3 = cur.read_u8()?;
        // six unknown header words and the trailing tag are skipped
        // unchecked; the trailing size is recorded
        cur.seek(68);
        let _ = cur.read_u32(true)?;
        let dca_size = cur.read_u32(true)?;
        if !(algorithm0 == 0x44 && algorithm1 == 0x46 && algorithm2 == 0x4C && algorithm3 == 0x54) {
            return Err(
                Error::UnsupportedAlgorithm {
                    code0: algorithm0,
                    code1: algorithm1,
                    code2: algorithm2,
                    code3: algorithm3,
                },
            );
        }
        let n = cur.data.len();
        let payload = cur.read(n);
        proof {
            assert(payload@ =~= cur@.skip(76));
        }
        match zlib_inflate(&payload) {
            Some(v) => Ok(
                DcxReader {
                    metadata: Metadata {
                        format_magic0,
                        format_magic1,
                        format_magic2,
                        format_magic3,
                        dcs_offset,
                        dcp_offset,
                        compressed_size,
                        size,
                        algorithm0,
                        algorithm1,
                        algorithm2,
                        algorithm3,
                        dca_size,
                    },
                    codec: DcxCompressionCodec::Deflate,
                    data: v,
                    pos: 0,
                },
            ),
            None => Err(Error::Format { offset: 76 }),
        }
    }

    /// Reads up to `n` bytes of the decompressed payload, stopping short
    /// at the end of the stream.
    pub fn read(&mut self, n: usize) -> (r: Vec<u8>)
        ensures
            final(self).data@ == old(self).data@,
            final(self).metadata == old(self).metadata,
            final(self).codec == old(self).codec,
            ({
                let m = old(self).stream();
                let k = if (n as int) <= m.len() {
                    n as int
                } else {
                    m.len() as int
                };
                r@ == m.take(k) && final(self).stream() == m.skip(k)
            }),
    {
        let ghost m = self.stream();
        let len = self.data.len();
        if self.pos > len {
            proof {
                assert(m =~= Seq::<u8>::empty());
            }
            return Vec::new();
        }
        let avail: usize = len - self.pos;
        let k: usize = if n <= avail {
            n
        } else {
            avail
        };
        let ghost s = self.data@;
        let ghost p = self.pos as int;
        let mut out: Vec<u8> = Vec::new();
        let mut i: usize = 0;
        while i < k
            invariant
                self.data@ == s,
                self.pos as int == p,
                0 <= i <= k,
                p + k <= s.len(),
                s.len() <= usize::MAX,
                out@ == s.subrange(p, p + i),
            decreases k - i,
        {
            let b = self.data[self.pos + i];
            out.push(b);
            i = i + 1;
            proof {
                assert(out@ =~= s.subrange(p, p + i));
            }
        }
        self.pos = self.pos + k;
        proof {
            assert(out@ =~= m.take(
                if (n as int) <= m.len() {
                    n as int
                } else {
                    m.len() as int
                },
            ));
            assert(crate::io::rest(s, p + k) =~= m.skip(
                if (n as int) <= m.len() {
                    n as int
                } else {
                    m.len() as int
                },
            ));
        }
        out
    }
}

} // verus!
