//! The fields of a tar archive's 512-byte header record.
use vstd::prelude::*;
use vstd::slice::slice_subrange;
use vstd::string::*;
use vstd::utf8::*;
use crate::number::{lemma_parse_uint_bounded, parse_uint, spec_parse_uint, IntError};
use crate::text::{chars_of, utf8_str};

verus! {

/// Length in bytes of the part of a header record that is read.
pub const TAR_HEADER_USED: usize = 257;

#[derive(Clone, Copy, Debug, PartialEq, Eq, Structural)]
pub enum TarField {
    Name,
    Mode,
    Owner,
    Group,
    Size,
    LastMod,
    Checksum,
    LinkName,
}

/// Why a header record could not be read.
#[derive(Clone, Copy, Debug, PartialEq, Eq, Structural)]
pub enum TarError {
    /// The record is shorter than the fields that are read.
    TooShort,
    /// The field is not UTF-8 text.
    BadText(TarField),
    /// The field is not an octal number.
    BadNumber(TarField, IntError),
}

#[derive(Debug)]
pub struct TarFileHeader {
    pub name: String,
    pub mode: u64,
    pub owner: u64,
    pub group: u64,
    pub size: u128,
    pub lastmod: u128,
    pub checksum: u64,
    pub link_ind: u8,
    pub link_name: String,
}

impl TarFileHeader {
    /// A header with empty names and every number zero.
    pub fn new() -> (h: TarFileHeader)
        ensures
            h.name@ == Seq::<char>::empty(),
            h.link_name@ == Seq::<char>::empty(),
            h.mode == 0 && h.owner == 0 && h.group == 0 && h.size == 0 && h.lastmod == 0,
            h.checksum == 0 && h.link_ind == 0,
    {
        TarFileHeader {
            name: String::new(),
            mode: 0,
            owner: 0,
            group: 0,
            size: 0,
            lastmod: 0,
            checksum: 0,
            link_ind: 0,
            link_name: String::new(),
        }
    }
}

/// The bytes of `b` before its first zero byte, or all of them.
pub open spec fn until_nul(b: Seq<u8>) -> Seq<u8>
    decreases b.len(),
{
    if b.len() == 0 || b[0] == 0 {
        Seq::empty()
    } else {
        seq![b[0]] + until_nul(b.drop_first())
    }
}

/// The bytes of `b[from..to]` before the first zero byte among them.
fn nul_terminated(b: &[u8], from: usize, to: usize) -> (r: &[u8])
    requires
        from <= to <= b@.len(),
    ensures
        r@ == until_nul(b@.subrange(from as int, to as int)),
{
    let mut i = from;
    while i < to && b[i] != 0
        invariant
            from <= i <= to <= b@.len(),
            until_nul(b@.subrange(from as int, to as int)) == b@.subrange(from as int, i as int)
                + until_nul(b@.subrange(i as int, to as int)),
        decreases to - i,
    {
        assert(b@.subrange(i as int, to as int).drop_first() =~= b@.subrange(i + 1, to as int));
        assert(b@.subrange(from as int, i + 1) =~= b@.subrange(from as int, i as int) + seq![b@[i as int]]);
        i = i + 1;
    }
    assert(until_nul(b@.subrange(i as int, to as int)) =~= Seq::<u8>::empty());
    assert(b@.subrange(from as int, i as int) + Seq::<u8>::empty() =~= b@.subrange(from as int, i as int));
    slice_subrange(b, from, i)
}

/// The characters that `b[from..to]` encodes, if it is UTF-8.
pub open spec fn text_of(b: Seq<u8>) -> Option<Seq<char>> {
    if valid_utf8(b) {
        Some(decode_utf8(b))
    } else {
        None
    }
}

/// What the octal field `b[from..to]` holds.
pub open spec fn octal_field(b: Seq<u8>, from: int, to: int, field: TarField) -> Result<nat, TarError> {
    match text_of(b.subrange(from, to)) {
        None => Err(TarError::BadText(field)),
        Some(t) => match spec_parse_uint(t, 8, 0xffff_ffff_ffff_ffff) {
            Ok(v) => Ok(v),
            Err(e) => Err(TarError::BadNumber(field, e)),
        },
    }
}

/// What the zero-terminated text field `b[from..to]` holds.
pub open spec fn name_field(b: Seq<u8>, from: int, to: int, field: TarField) -> Result<Seq<char>, TarError> {
    match text_of(until_nul(b.subrange(from, to))) {
        None => Err(TarError::BadText(field)),
        Some(t) => Ok(t),
    }
}

fn octal_at(contents: &[u8], from: usize, to: usize, field: TarField) -> (r: Result<u64, TarError>)
    requires
        from <= to <= contents@.len(),
    ensures
        r matches Ok(x) ==> octal_field(contents@, from as int, to as int, field) == Ok::<nat, TarError>(x as nat),
        r matches Err(e) ==> octal_field(contents@, from as int, to as int, field) == Err::<nat, TarError>(e),
{
    let bytes = slice_subrange(contents, from, to);
    let text = match utf8_str(bytes) {
        Some(t) => t,
        None => {
            return Err(TarError::BadText(field));
        },
    };
    let v = chars_of(text);
    assert(v@.subrange(0, v@.len() as int) =~= text@);
    proof {
        lemma_parse_uint_bounded(text@, 8, 0xffff_ffff_ffff_ffff);
    }
    match parse_uint(&v, 0, v.len(), 8, 0xffff_ffff_ffff_ffff) {
        Ok(n) => Ok(n),
        Err(e) => Err(TarError::BadNumber(field, e)),
    }
}

fn name_at(contents: &[u8], from: usize, to: usize, field: TarField) -> (r: Result<String, TarError>)
    requires
        from <= to <= contents@.len(),
    ensures
        r matches Ok(s) ==> name_field(contents@, from as int, to as int, field) == Ok::<Seq<char>, TarError>(s@),
        r matches Err(e) ==> name_field(contents@, from as int, to as int, field) == Err::<Seq<char>, TarError>(e),
{
    let raw = nul_terminated(contents, from, to);
    match utf8_str(raw) {
        Some(t) => Ok(String::from_str(t)),
        None => Err(TarError::BadText(field)),
    }
}


/// The first field of the record `b`, in reading order, that cannot be
/// read; `None` when all of them read.
pub open spec fn tar_error(b: Seq<u8>) -> Option<TarError> {
    if b.len() < TAR_HEADER_USED {
        Some(TarError::TooShort)
    } else if name_field(b, 0, 100, TarField::Name) is Err {
        Some(name_field(b, 0, 100, TarField::Name)->Err_0)
    } else if octal_field(b, 100, 106, TarField::Mode) is Err {
        Some(octal_field(b, 100, 106, TarField::Mode)->Err_0)
    } else if octal_field(b, 108, 114, TarField::Owner) is Err {
        Some(octal_field(b, 108, 114, TarField::Owner)->Err_0)
    } else if octal_field(b, 116, 122, TarField::Group) is Err {
        Some(octal_field(b, 116, 122, TarField::Group)->Err_0)
    } else if octal_field(b, 124, 135, TarField::Size) is Err {
        Some(octal_field(b, 124, 135, TarField::Size)->Err_0)
    } else if octal_field(b, 136, 146, TarField::LastMod) is Err {
        Some(octal_field(b, 136, 146, TarField::LastMod)->Err_0)
    } else if octal_field(b, 148, 154, TarField::Checksum) is Err {
        Some(octal_field(b, 148, 154, TarField::Checksum)->Err_0)
    } else if name_field(b, 157, 257, TarField::LinkName) is Err {
        Some(name_field(b, 157, 257, TarField::LinkName)->Err_0)
    } else {
        None
    }
}

/// Reads the fields of a header record: the name (bytes 0 to 99, up to a
/// zero byte), mode, owner and group (octal, from bytes 100, 108 and 116, six
/// digits each), size (octal, bytes 124 to 134), modification time (octal,
/// bytes 136 to 145), checksum (octal, bytes 148 to 153), link indicator
/// (byte 156) and link name (bytes 157 to 256, up to a zero byte). Fails on
/// the first field, in that order, that does not read.
pub fn get_file_header(contents: &[u8]) -> (r: Result<TarFileHeader, TarError>)
    ensures
        r matches Err(e) ==> tar_error(contents@) == Some(e),
        r is Ok <==> tar_error(contents@) is None,
        r matches Ok(h) ==> {
            let b = contents@;
            &&& h.name@ == name_field(b, 0, 100, TarField::Name)->Ok_0
            &&& h.mode as nat == octal_field(b, 100, 106, TarField::Mode)->Ok_0
            &&& h.owner as nat == octal_field(b, 108, 114, TarField::Owner)->Ok_0
            &&& h.group as nat == octal_field(b, 116, 122, TarField::Group)->Ok_0
            &&& h.size as nat == octal_field(b, 124, 135, TarField::Size)->Ok_0
            &&& h.lastmod as nat == octal_field(b, 136, 146, TarField::LastMod)->Ok_0
            &&& h.checksum as nat == octal_field(b, 148, 154, TarField::Checksum)->Ok_0
            &&& h.link_ind == b[156]
            &&& h.link_name@ == name_field(b, 157, 257, TarField::LinkName)->Ok_0
        },
{
    if contents.len() < TAR_HEADER_USED {
        return Err(TarError::TooShort);
    }
    let name = match name_at(contents, 0, 100, TarField::Name) {
        Ok(x) => x,
        Err(e) => {
            return Err(e);
        },
    };
    let mode = match octal_at(contents, 100, 106, TarField::Mode) {
        Ok(x) => x,
        Err(e) => {
            return Err(e);
        },
    };
    let owner = match octal_at(contents, 108, 114, TarField::Owner) {
        Ok(x) => x,
        Err(e) => {
            return Err(e);
        },
    };
    let group = match octal_at(contents, 116, 122, TarField::Group) {
        Ok(x) => x,
        Err(e) => {
            return Err(e);
        },
    };
    let size = match octal_at(contents, 124, 135, TarField::Size) {
        Ok(x) => x,
        Err(e) => {
            return Err(e);
        },
    };
    let lastmod = match octal_at(contents, 136, 146, TarField::LastMod) {
        Ok(x) => x,
        Err(e) => {
            return Err(e);
        },
    };
    let checksum = match octal_at(contents, 148, 154, TarField::Checksum) {
        Ok(x) => x,
        Err(e) => {
            return Err(e);
        },
    };
    let link_name = match name_at(contents, 157, 257, TarField::LinkName) {
        Ok(x) => x,
        Err(e) => {
            return Err(e);
        },
    };
    Ok(
        TarFileHeader {
            name,
            mode,
            owner,
            group,
            size: size as u128,
            lastmod: lastmod as u128,
            checksum,
            link_ind: contents[156],
            link_name,
        },
    )
}

} // verus!
