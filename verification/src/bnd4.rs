use vstd::prelude::*;

use crate::dcx::{spec_dcx_new, DcxReader};
use crate::flags::{
    decode_flag_byte, spec_decode_flag_byte, Bnd4EntryFlags, Bnd4Flags,
};
use crate::io::{
    decode_shift_jis, decode_utf16, invalid_data, nul2_end, nul_end, rest, shift_jis_of, u32_at,
    u64_at, utf16_of, i32_at, Cursor, Error,
};

verus! {

/// Archive-wide information, parsed once from the 64-byte archive header.
/// The structural offsets are recorded but, as the format carries
/// redundant metadata, not cross-checked against the parsed table.
#[derive(Debug, Clone)]
pub struct Bnd4ArchiveInfo {
    pub file_count: u32,
    pub header_size: u64,
    pub version: Vec<u8>,
    pub file_header_size: u64,
    pub file_header_end: u64,
    pub unicode: bool,
    pub format: Bnd4Flags,
    pub extended: bool,
    pub name_buckets_offset: u64,
}

/// One entry record of the table. Which optional fields are present is
/// decided by the archive-wide format flags, never per entry.
#[derive(Debug, Clone, Copy, PartialEq, Eq)]
pub struct Bnd4FileInfo {
    pub flags: Bnd4EntryFlags,
    pub size: u64,
    pub data_offset: u64,
    pub decompressed_size: Option<u64>,
    pub id: Option<i32>,
    pub name_offset: Option<u32>,
}

/// The archive header fields starting at byte `p` parse successfully:
/// all 52 bytes are present, the corrected format flag byte denotes a
/// valid flag set, and the asserted zero byte is zero.
pub open spec fn spec_archive_info_ok(s: Seq<u8>, p: int, flags_le: bool) -> bool {
    &&& p + 52 <= s.len()
    &&& Bnd4Flags::spec_from_bits(spec_decode_flag_byte(s[p + 37], flags_le)) is Some
    &&& s[p + 39] == 0
}

/// The format flags stored (bit-order corrected) in the header at `p`.
pub open spec fn spec_format_flags(s: Seq<u8>, p: int, flags_le: bool) -> Bnd4Flags {
    Bnd4Flags::spec_from_bits(spec_decode_flag_byte(s[p + 37], flags_le)).unwrap()
}

/// The recorded archive information agrees with the header bytes at `p`.
pub open spec fn archive_info_matches(
    info: Bnd4ArchiveInfo,
    s: Seq<u8>,
    p: int,
    be: bool,
    flags_le: bool,
) -> bool {
    &&& info.file_count as int == u32_at(s, p, be)
    &&& info.header_size as int == u64_at(s, p + 4, be)
    &&& info.version@ == s.subrange(p + 12, p + 20)
    &&& info.file_header_size as int == u64_at(s, p + 20, be)
    &&& info.file_header_end as int == u64_at(s, p + 28, be)
    &&& info.unicode == (s[p + 36] == 1)
    &&& Some(info.format) == Bnd4Flags::spec_from_bits(spec_decode_flag_byte(s[p + 37], flags_le))
    &&& info.extended == (s[p + 38] == 1)
    &&& info.name_buckets_offset as int == u64_at(s, p + 44, be)
}

/// Size in bytes of one entry record, fixed for a whole archive by its
/// format flags: 16 fixed bytes, then the optional decompressed size, the
/// 4- or 8-byte data offset, the optional id and the optional name offset.
pub open spec fn entry_size(f: Bnd4Flags) -> int {
    16 + (if f.spec_supports_compression() {
        8int
    } else {
        0int
    }) + (if f.spec_has_long_offsets() {
        8int
    } else {
        4int
    }) + (if f.spec_supports_ids() {
        4int
    } else {
        0int
    }) + (if f.spec_supports_filenames() {
        4int
    } else {
        0int
    })
}

/// Position of entry record `i` in a table that starts at `p + 52`,
/// under the record size the format flags fix.
pub open spec fn entry_pos(p: int, f: Bnd4Flags, i: int) -> int {
    p + 52 + i * entry_size(f)
}

/// The entry record at `p` parses successfully: the whole record is
/// present, the corrected flag byte denotes a valid flag set, the three
/// asserted zero bytes are zero and the reserved word reads as -1.
pub open spec fn spec_entry_ok(s: Seq<u8>, p: int, f: Bnd4Flags, be: bool, flags_le: bool) -> bool {
    &&& p + entry_size(f) <= s.len()
    &&& Bnd4EntryFlags::spec_from_bits(spec_decode_flag_byte(s[p], flags_le)) is Some
    &&& s[p + 1] == 0
    &&& s[p + 2] == 0
    &&& s[p + 3] == 0
    &&& u32_at(s, p + 4, be) == 0xFFFF_FFFF
}

/// The parsed entry record agrees with the record bytes at `p`, under the
/// field-presence rules of the format flags `f`.
pub open spec fn entry_matches(
    fi: Bnd4FileInfo,
    s: Seq<u8>,
    p: int,
    f: Bnd4Flags,
    be: bool,
    flags_le: bool,
) -> bool {
    let comp = f.spec_supports_compression();
    let long = f.spec_has_long_offsets();
    let ids = f.spec_supports_ids();
    let names = f.spec_supports_filenames();
    let off_pos = p + 16 + if comp {
        8int
    } else {
        0int
    };
    let id_pos = off_pos + if long {
        8int
    } else {
        4int
    };
    let name_pos = id_pos + if ids {
        4int
    } else {
        0int
    };
    &&& Some(fi.flags) == Bnd4EntryFlags::spec_from_bits(spec_decode_flag_byte(s[p], flags_le))
    &&& fi.size as int == u64_at(s, p + 8, be)
    &&& (if comp {
        fi.decompressed_size matches Some(d) && d as int == u64_at(s, p + 16, be)
    } else {
        fi.decompressed_size is None
    })
    &&& fi.data_offset as int == (if long {
        u64_at(s, off_pos, be)
    } else {
        u32_at(s, off_pos, be)
    })
    &&& (if ids {
        fi.id matches Some(v) && v as int == i32_at(s, id_pos, be)
    } else {
        fi.id is None
    })
    &&& (if names {
        fi.name_offset matches Some(o) && o as int == u32_at(s, name_pos, be)
    } else {
        fi.name_offset is None
    })
}

/// The archive header at `p` and every record of the entry table behind
/// it parse successfully.
pub open spec fn spec_table_ok(s: Seq<u8>, p: int, be: bool, flags_le: bool) -> bool {
    &&& spec_archive_info_ok(s, p, flags_le)
    &&& (forall|i: int|
        0 <= i < u32_at(s, p, be) ==> spec_entry_ok(
            s,
            #[trigger] entry_pos(p, spec_format_flags(s, p, flags_le), i),
            spec_format_flags(s, p, flags_le),
            be,
            flags_le,
        ))
}

/// The 12-byte archive prologue is well-formed: the `BND4` tag and the
/// three asserted zero bytes are in place. The two bytes after the tag
/// and the byte before the header are recorded or skipped unchecked.
pub open spec fn spec_prologue_ok(s: Seq<u8>) -> bool {
    &&& s.len() >= 12
    &&& s[0] == 0x42
    &&& s[1] == 0x4E
    &&& s[2] == 0x44
    &&& s[3] == 0x34
    &&& s[6] == 0
    &&& s[7] == 0
    &&& s[8] == 0
}

/// The byte at offset 9 selects big-endian multi-byte integers for the
/// whole header and table.
pub open spec fn spec_is_big_endian(s: Seq<u8>) -> bool {
    s[9] == 1
}

/// The byte at offset 10 declares the flag bytes stored in little-endian
/// bit order; when it is not set every flag byte is bit-reversed first.
/// This switch is independent of the integer byte order.
pub open spec fn spec_is_flags_le(s: Seq<u8>) -> bool {
    s[10] == 1
}

/// The whole archive parses: prologue, header at offset 12, and every
/// entry record.
pub open spec fn spec_bnd4_ok(s: Seq<u8>) -> bool {
    &&& spec_prologue_ok(s)
    &&& spec_table_ok(s, 12, spec_is_big_endian(s), spec_is_flags_le(s))
}

/// The payload bytes of an entry: `size` bytes starting at `data_offset`,
/// cut short at the end of the archive (reads past the bound behave as
/// end of stream, they never reach other entries' data).
pub open spec fn spec_payload(s: Seq<u8>, off: u64, size: u64) -> Seq<u8> {
    let start = if off <= s.len() {
        off as int
    } else {
        s.len() as int
    };
    let end = if off + size <= s.len() {
        off + size
    } else {
        s.len() as int
    };
    s.subrange(start, end)
}

/// The name lookup an entry open performs: nothing when the entry has no
/// name offset; otherwise the null-terminated run at that offset, decoded
/// as UTF-16 in the archive byte order when the archive is unicode and in
/// the legacy single-byte encoding otherwise. A run that reaches the end
/// of the archive without a terminator is an error.
pub open spec fn spec_open_name(s: Seq<u8>, fi: Bnd4FileInfo, unicode: bool, be: bool) -> Result<
    Option<Seq<char>>,
    Error,
> {
    match fi.name_offset {
        None => Ok(None),
        Some(off) => {
            if unicode {
                if nul2_end(s, off as int) + 2 <= s.len() {
                    Ok(Some(utf16_of(s.subrange(off as int, nul2_end(s, off as int)), be)))
                } else {
                    Err(Error::UnexpectedEof { offset: s.len() as usize })
                }
            } else {
                if nul_end(s, off as int) < s.len() {
                    Ok(Some(shift_jis_of(s.subrange(off as int, nul_end(s, off as int)))))
                } else {
                    Err(Error::UnexpectedEof { offset: s.len() as usize })
                }
            }
        },
    }
}

/// The byte stream an entry open exposes: the bounded payload, passed
/// through a fresh container decode when the entry is individually
/// compressed. Errors of the inner container are reported at offsets
/// relative to the payload start.
pub open spec fn spec_entry_stream(s: Seq<u8>, fi: Bnd4FileInfo) -> Result<Seq<u8>, Error> {
    if fi.flags.spec_is_compressed() {
        spec_dcx_new(spec_payload(s, fi.data_offset, fi.size))
    } else {
        Ok(spec_payload(s, fi.data_offset, fi.size))
    }
}

/// The full result of opening an entry: the name is resolved first, then
/// the stream is built; the first failure decides the error.
pub open spec fn spec_file(s: Seq<u8>, fi: Bnd4FileInfo, unicode: bool, be: bool) -> Result<
    (Option<Seq<char>>, Seq<u8>),
    Error,
> {
    match spec_open_name(s, fi, unicode, be) {
        Err(e) => Err(e),
        Ok(name) => match spec_entry_stream(s, fi) {
            Err(e) => Err(e),
            Ok(stream) => Ok((name, stream)),
        },
    }
}

/// The byte length an entry declares for its fully drained stream: the
/// decompressed size when the archive records one, its stored size
/// otherwise.
pub open spec fn declared_len(fi: Bnd4FileInfo) -> int {
    match fi.decompressed_size {
        Some(d) => d as int,
        None => fi.size as int,
    }
}

/// An entry whose open is owed success: its name (if any) terminates
/// within the archive, its stream decodes, and the drained stream length
/// equals the declared length.
pub open spec fn spec_entry_valid(s: Seq<u8>, fi: Bnd4FileInfo, unicode: bool, be: bool) -> bool {
    &&& spec_open_name(s, fi, unicode, be) is Ok
    &&& (spec_entry_stream(s, fi) matches Ok(stream) && stream.len() == declared_len(fi))
}

/// Law: in a valid archive, opening any index below the entry count is
/// owed success, and the stream it yields has, after decompression when
/// the entry is compressed, exactly the length the entry declares.
/// `Bnd4Archive::file` returns precisely this result.
pub proof fn lemma_valid_archive_entries_open(a: Bnd4Archive, i: int)
    requires
        a.spec_valid(),
        0 <= i < a.archive_info.file_count as int,
    ensures
        spec_file(a.reader@, a.entries@[i], a.archive_info.unicode, a.is_big_endian) matches Ok(pair)
            && pair.1.len() == declared_len(a.entries@[i]),
{
    assert(spec_entry_valid(a.reader@, a.entries@[i], a.archive_info.unicode, a.is_big_endian));
}

/// An open archive: the parsed header, the full entry table, and the
/// owned byte source that entry opens seek within.
#[derive(Debug)]
pub struct Bnd4Archive {
    pub archive_info: Bnd4ArchiveInfo,
    pub entries: Vec<Bnd4FileInfo>,
    /// Decides how UTF-16 names are decoded when they are looked up.
    pub is_big_endian: bool,
    pub reader: Cursor,
}

impl Bnd4Archive {
    /// The entry table has exactly as many records as the header declares.
    pub open spec fn wf(self) -> bool {
        self.entries@.len() == self.archive_info.file_count as int
    }

    /// A valid archive: every entry of the table can be opened and drains
    /// to its declared length.
    pub open spec fn spec_valid(self) -> bool {
        &&& self.wf()
        &&& (forall|i: int|
            0 <= i < self.entries@.len() ==> spec_entry_valid(
                self.reader@,
                self.entries@[i],
                self.archive_info.unicode,
                self.is_big_endian,
            ))
    }

    /// Reads the archive header fields in the selected byte order,
    /// applying the flag bit-order correction to the format flag byte.
    fn read_archive_info(reader: &mut Cursor, be: bool, flags_le: bool) -> (r: Result<
        Bnd4ArchiveInfo,
        Error,
    >)
        ensures
            final(reader)@ == old(reader)@,
            ({
                let s = old(reader)@;
                let p = old(reader).pos as int;
                &&& (r is Ok <==> spec_archive_info_ok(s, p, flags_le))
                &&& (r matches Ok(info) ==> archive_info_matches(info, s, p, be, flags_le)
                    && final(reader).pos as int == p + 52)
                &&& (r matches Err(e) ==> (e is Format || e is UnexpectedEof))
            }),
    {
        let file_count = reader.read_u32(be)?;
        let header_size = reader.read_u64(be)?;
        let version = reader.read_bytes(8)?;
        let file_header_size = reader.read_u64(be)?;
        let file_header_end = reader.read_u64(be)?;
        let unicode = reader.read_bool()?;
        let flag_pos = reader.position();
        let format_bits = reader.read_u8()?;
        let format = match Bnd4Flags::from_bits(decode_flag_byte(format_bits, flags_le)) {
            Some(f) => f,
            None => {
                return Err(invalid_data(flag_pos));
            },
        };
        let extended = reader.read_bool()?;
        reader.expect_u8(0)?;
        let _ = reader.read_u32(be)?;
        let name_buckets_offset = reader.read_u64(be)?;
        Ok(
            Bnd4ArchiveInfo {
                file_count,
                header_size,
                version,
                file_header_size,
                file_header_end,
                unicode,
                format,
                extended,
                name_buckets_offset,
            },
        )
    }

    /// Reads one entry record under the field-presence rules of `format`,
    /// applying the flag bit-order correction to the entry flag byte.
    fn read_entry_info(reader: &mut Cursor, format: Bnd4Flags, be: bool, flags_le: bool) -> (r:
        Result<Bnd4FileInfo, Error>)
        ensures
            final(reader)@ == old(reader)@,
            ({
                let s = old(reader)@;
                let p = old(reader).pos as int;
                &&& (r is Ok <==> spec_entry_ok(s, p, format, be, flags_le))
                &&& (r matches Ok(fi) ==> entry_matches(fi, s, p, format, be, flags_le)
                    && final(reader).pos as int == p + entry_size(format))
                &&& (r matches Err(e) ==> (e is Format || e is UnexpectedEof))
            }),
    {
        let flag_pos = reader.position();
        let flag_bits = reader.read_u8()?;
        let flags = match Bnd4EntryFlags::from_bits(decode_flag_byte(flag_bits, flags_le)) {
            Some(f) => f,
            None => {
                return Err(invalid_data(flag_pos));
            },
        };
        reader.expect_u8(0)?;
        reader.expect_u8(0)?;
        reader.expect_u8(0)?;
        let reserved_pos = reader.position();
        let reserved = reader.read_u32(be)?;
        if reserved != 0xFFFF_FFFFu32 {
            return Err(invalid_data(reserved_pos));
        }
        let size = reader.read_u64(be)?;
        let decompressed_size = if format.supports_compression() {
            Some(reader.read_u64(be)?)
        } else {
            None
        };
        let data_offset = if format.has_long_offsets() {
            reader.read_u64(be)?
        } else {
            reader.read_u32(be)? as u64
        };
        let id = if format.supports_ids() {
            Some(reader.read_i32(be)?)
        } else {
            None
        };
        let name_offset = if format.supports_filenames() {
            Some(reader.read_u32(be)?)
        } else {
            None
        };
        Ok(Bnd4FileInfo { flags, size, data_offset, decompressed_size, id, name_offset })
    }

    /// Reads the archive header and then exactly as many entry records as
    /// it declares, in the byte order the prologue selected.
    fn new_from_header(reader: &mut Cursor, be: bool, flags_le: bool) -> (r: Result<
        (Bnd4ArchiveInfo, Vec<Bnd4FileInfo>),
        Error,
    >)
        ensures
            final(reader)@ == old(reader)@,
            ({
                let s = old(reader)@;
                let p = old(reader).pos as int;
                &&& (r is Ok <==> spec_table_ok(s, p, be, flags_le))
                &&& (r matches Ok(t) ==> archive_info_matches(t.0, s, p, be, flags_le)
                    && t.1@.len() == u32_at(s, p, be) && (forall|i: int|
                    0 <= i < t.1@.len() ==> entry_matches(
                        #[trigger] t.1@[i],
                        s,
                        entry_pos(p, spec_format_flags(s, p, flags_le), i),
                        spec_format_flags(s, p, flags_le),
                        be,
                        flags_le,
                    )))
                &&& (r matches Err(e) ==> (e is Format || e is UnexpectedEof))
            }),
    {
        let ghost s = reader@;
        let ghost p = reader.pos as int;
        let archive_info = Self::read_archive_info(reader, be, flags_le)?;
        let count = archive_info.file_count;
        let ghost f = archive_info.format;
        let ghost es = entry_size(f);
        let mut entries: Vec<Bnd4FileInfo> = Vec::new();
        let mut i: u32 = 0;
        while i < count
            invariant
                reader@ == s,
                s == old(reader)@,
                p == old(reader).pos as int,
                0 <= i <= count,
                count as int == u32_at(s, p, be),
                spec_archive_info_ok(s, p, flags_le),
                archive_info_matches(archive_info, s, p, be, flags_le),
                archive_info.format == f,
                f == spec_format_flags(s, p, flags_le),
                es == entry_size(f),
                entries@.len() == i as int,
                reader.pos as int == entry_pos(p, f, i as int),
                forall|j: int|
                    0 <= j < i as int ==> entry_matches(
                        #[trigger] entries@[j],
                        s,
                        entry_pos(p, f, j),
                        f,
                        be,
                        flags_le,
                    ),
                forall|j: int|
                    0 <= j < i as int ==> spec_entry_ok(s, #[trigger] entry_pos(p, f, j), f, be, flags_le),
            decreases count - i,
        {
            let ghost record_pos = entry_pos(p, f, i as int);
            let fi = match Self::read_entry_info(reader, archive_info.format, be, flags_le) {
                Ok(fi) => fi,
                Err(e) => {
                    proof {
                        assert(!spec_entry_ok(s, record_pos, f, be, flags_le));
                    }
                    return Err(e);
                },
            };
            entries.push(fi);
            i = i + 1;
            proof {
                assert(i as int * es == (i as int - 1) * es + es) by (nonlinear_arith);
                assert(entry_pos(p, f, i as int) == entry_pos(p, f, i as int - 1) + es);
            }
        }
        Ok((archive_info, entries))
    }

    /// Opens the archive held in `data`: validates the prologue, reads
    /// the two independent endianness switches, then parses the header
    /// and the full entry table up front.
    pub fn new(data: Vec<u8>) -> (r: Result<Bnd4Archive, Error>)
        ensures
            ({
                let s = data@;
                let be = spec_is_big_endian(s);
                let fle = spec_is_flags_le(s);
                &&& (r is Ok <==> spec_bnd4_ok(s))
                &&& (r matches Ok(a) ==> {
                    &&& a.reader@ == s
                    &&& a.is_big_endian == be
                    &&& a.wf()
                    &&& archive_info_matches(a.archive_info, s, 12, be, fle)
                    &&& (forall|i: int|
                        0 <= i < a.entries@.len() ==> entry_matches(
                            #[trigger] a.entries@[i],
                            s,
                            entry_pos(12, spec_format_flags(s, 12, fle), i),
                            spec_format_flags(s, 12, fle),
                            be,
                            fle,
                        ))
                })
                &&& (r matches Err(e) ==> (e is Format || e is UnexpectedEof))
            }),
    {
        let mut reader = Cursor::new(data);
        reader.expect_magic(0x42, 0x4E, 0x44, 0x34)?;
        let _ = reader.read_bool()?;
        let _ = reader.read_bool()?;
        reader.expect_u8(0)?;
        reader.expect_u8(0)?;
        reader.expect_u8(0)?;
        let is_big_endian = reader.read_bool()?;
        let is_flags_little_endian = reader.read_bool()?;
        let _ = reader.read_u8()?;
        match Self::new_from_header(&mut reader, is_big_endian, is_flags_little_endian) {
            Ok(t) => Ok(
                Bnd4Archive { archive_info: t.0, entries: t.1, is_big_endian, reader },
            ),
            Err(e) => Err(e),
        }
    }

    /// The number of entries the archive declares.
    pub fn len(&self) -> (r: usize)
        ensures
            r == self.archive_info.file_count as usize,
    {
        self.archive_info.file_count as usize
    }

    /// Opens the entry at `index`: resolves its name with a scoped seek
    /// that restores the read position, seeks to its data, bounds the
    /// payload to its stored size and wraps it in a container decode when
    /// the entry is individually compressed.
    ///
    /// The archive state that later opens depend on (the bytes, the
    /// header and the table) is left unchanged, so opening and draining
    /// one entry never disturbs another.
    pub fn file(&mut self, index: usize) -> (r: Result<Bnd4File, Error>)
        ensures
            final(self).archive_info == old(self).archive_info,
            final(self).entries@ == old(self).entries@,
            final(self).is_big_endian == old(self).is_big_endian,
            final(self).reader@ == old(self).reader@,
            ((r matches Err(e) && e == Error::IndexOutOfRange) <==> (index
                >= old(self).archive_info.file_count as usize || index >= old(self).entries@.len())),
            (index < old(self).archive_info.file_count as usize && (index as int) < old(
                self,
            ).entries@.len() ==> ({
                let s = old(self).reader@;
                let fi = old(self).entries@[index as int];
                let unicode = old(self).archive_info.unicode;
                let be = old(self).is_big_endian;
                match r {
                    Ok(f) => spec_file(s, fi, unicode, be) matches Ok(pair) && f.spec_name()
                        == pair.0 && f.stream() == pair.1 && f.entry == fi,
                    Err(e) => spec_file(s, fi, unicode, be) == Err::<
                        (Option<Seq<char>>, Seq<u8>),
                        Error,
                    >(e),
                }
            })),
            (old(self).spec_valid() && index < old(self).archive_info.file_count as usize ==> (
            r matches Ok(f) && f.stream().len() == declared_len(old(self).entries@[index as int]))),
    {
        if index >= self.len() || index >= self.entries.len() {
            return Err(Error::IndexOutOfRange);
        }
        let is_big_endian_str = self.is_big_endian;
        let is_unicode = self.archive_info.unicode;
        let entry = self.entries[index];

        // scoped seek: look the name up at its own offset, then restore
        // the position, so the lookup cannot disturb any later read
        let name = match entry.name_offset {
            Some(offset) => {
                let saved = self.reader.position();
                self.reader.seek(offset as usize);
                let run = if is_unicode {
                    self.reader.read_utf16_bytes()
                } else {
                    self.reader.read_cstr_bytes()
                };
                self.reader.seek(saved);
                match run {
                    Ok(bytes) => {
                        if is_unicode {
                            Some(decode_utf16(&bytes, is_big_endian_str))
                        } else {
                            Some(decode_shift_jis(&bytes))
                        }
                    },
                    Err(e) => {
                        return Err(e);
                    },
                }
            },
            None => None,
        };

        let dlen = self.reader.data.len();
        let start: usize = if entry.data_offset <= dlen as u64 {
            entry.data_offset as usize
        } else {
            dlen
        };
        let count: usize = if entry.size <= (dlen - start) as u64 {
            entry.size as usize
        } else {
            dlen - start
        };
        self.reader.seek(start);
        let payload = self.reader.read(count);
        proof {
            assert(payload@ =~= spec_payload(old(self).reader@, entry.data_offset, entry.size));
        }

        let file_reader = if entry.flags.is_compressed() {
            match DcxReader::new(payload) {
                Ok(d) => Bnd4FileReader::Compressed(d),
                Err(e) => {
                    return Err(e);
                },
            }
        } else {
            Bnd4FileReader::Uncompressed(Cursor::new(payload))
        };
        Ok(Bnd4File { entry, name, reader: file_reader })
    }
}

/// The byte source of one open entry: the bounded payload directly, or a
/// container decode of it when the entry is individually compressed.
#[derive(Debug)]
pub enum Bnd4FileReader {
    Uncompressed(Cursor),
    Compressed(DcxReader),
}

/// One open entry: its record, its resolved name, and a single-pass
/// forward-only stream of its (possibly decompressed) payload. Re-reading
/// consumed bytes requires opening the entry again.
#[derive(Debug)]
pub struct Bnd4File {
    pub entry: Bnd4FileInfo,
    pub name: Option<String>,
    pub reader: Bnd4FileReader,
}

impl Bnd4File {
    /// The bytes not yet consumed by `read`.
    pub open spec fn stream(self) -> Seq<u8> {
        match self.reader {
            Bnd4FileReader::Uncompressed(c) => rest(c@, c.pos as int),
            Bnd4FileReader::Compressed(d) => d.stream(),
        }
    }

    pub open spec fn spec_name(self) -> Option<Seq<char>> {
        match self.name {
            Some(n) => Some(n@),
            None => None,
        }
    }

    /// The resolved name, when the archive stores one for this entry.
    pub fn name(&self) -> (r: Option<&str>)
        ensures
            match self.name {
                Some(n) => r matches Some(v) && v@ == n@,
                None => r is None,
            },
    {
        match &self.name {
            Some(n) => Some(n.as_str()),
            None => None,
        }
    }

    /// Reads up to `n` bytes of the entry stream, stopping short at its
    /// end; never reads past the entry's bound into other entries' data.
    pub fn read(&mut self, n: usize) -> (r: Vec<u8>)
        ensures
            final(self).entry == old(self).entry,
            final(self).name == old(self).name,
            ({
                let m = old(self).stream();
                let k = if (n as int) <= m.len() {
                    n as int
                } else {
                    m.len() as int
                };
                r@ == m.take(k) && final(self).stream() == m.skip(k)
            }),
    {
        match &mut self.reader {
            Bnd4FileReader::Uncompressed(c) => c.read(n),
            Bnd4FileReader::Compressed(d) => d.read(n),
        }
    }

    /// Drains the rest of the entry stream.
    pub fn read_all(&mut self) -> (r: Vec<u8>)
        ensures
            final(self).entry == old(self).entry,
            final(self).name == old(self).name,
            r@ == old(self).stream(),
            final(self).stream().len() == 0,
    {
        let n = match &self.reader {
            Bnd4FileReader::Uncompressed(c) => c.data.len(),
            Bnd4FileReader::Compressed(d) => d.data.len(),
        };
        let ghost m = self.stream();
        let r = self.read(n);
        proof {
            assert(r@ =~= m);
            assert(m.skip(m.len() as int) =~= Seq::<u8>::empty());
        }
        r
    }
}

} // verus!
