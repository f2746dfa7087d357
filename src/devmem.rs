//! Access widths, alignment and mapping arithmetic for physical-memory access.
use vstd::prelude::*;
use vstd::string::*;
use crate::number::{int_error_text, lemma_parse_uint_bounded, parse_uint, spec_parse_uint, IntError};
use crate::text::chars_of;

verus! {

#[verifier::external_type_specification]
#[verifier::external_body]
pub struct ExIoError(std::io::Error);

/// What can go wrong when physical memory is opened, mapped or addressed.
#[derive(Debug)]
pub enum DevMemError {
    /// The memory device could not be opened.
    OpenError(std::io::Error),
    /// The mapping of the page failed.
    MmapError,
    /// The address is not a multiple of the access size.
    AlignmentError { address: u64, size: usize },
    /// No access width has this many bytes.
    InvalidSize(usize),
}

/// The width of one memory access.
#[derive(Clone, Copy, Debug, PartialEq, Eq, Structural)]
pub enum AccessWidth {
    Byte,
    Word,
    Long,
    LongLong,
}

impl AccessWidth {
    /// Number of bytes of an access of this width.
    pub open spec fn spec_size(&self) -> usize {
        match self {
            AccessWidth::Byte => 1,
            AccessWidth::Word => 2,
            AccessWidth::Long => 4,
            AccessWidth::LongLong => 8,
        }
    }

    pub fn size(&self) -> (n: usize)
        ensures
            n == self.spec_size(),
    {
        match self {
            AccessWidth::Byte => 1,
            AccessWidth::Word => 2,
            AccessWidth::Long => 4,
            AccessWidth::LongLong => 8,
        }
    }

    /// The width of `size` bytes; fails unless `size` is 1, 2, 4 or 8.
    pub fn from_size(size: usize) -> (r: Result<AccessWidth, DevMemError>)
        ensures
            r matches Ok(w) ==> w.spec_size() == size,
            r is Err <==> !(size == 1 || size == 2 || size == 4 || size == 8),
            r matches Err(e) ==> e matches DevMemError::InvalidSize(n) && n == size,
    {
        match size {
            1 => Ok(AccessWidth::Byte),
            2 => Ok(AccessWidth::Word),
            4 => Ok(AccessWidth::Long),
            8 => Ok(AccessWidth::LongLong),
            _ => Err(DevMemError::InvalidSize(size)),
        }
    }
}

/// Fails unless `address` is a multiple of the access size.
pub fn check_alignment(address: u64, width: AccessWidth) -> (r: Result<(), DevMemError>)
    ensures
        r is Ok <==> address % (width.spec_size() as u64) == 0,
        r matches Err(e) ==> e matches DevMemError::AlignmentError { address: a, size: n } && a
            == address && n == width.spec_size(),
{
    let size = width.size();
    if address % size as u64 != 0 {
        return Err(DevMemError::AlignmentError { address, size });
    }
    Ok(())
}

/// The part of physical memory to map for one access: from the start of the
/// page that holds the address to the access's last byte.
#[derive(Clone, Copy, Debug, PartialEq, Eq, Structural)]
pub struct MapWindow {
    /// Physical address of the first mapped byte, the start of a page.
    pub base: u64,
    /// Offset of the accessed address from `base`.
    pub offset: usize,
    /// Number of bytes to map.
    pub len: usize,
}

/// The window to map for an access of `width` at `address`, with pages of
/// `page_size` bytes.
pub fn map_window(address: u64, width: AccessWidth, page_size: usize) -> (w: MapWindow)
    requires
        0 < page_size <= usize::MAX - 8,
    ensures
        w.offset == address % (page_size as u64),
        w.base == address - w.offset,
        w.len == w.offset + width.spec_size(),
{
    let m = page_size as u64;
    let off = address % m;
    assert(off <= address && off < m) by (nonlinear_arith)
        requires
            m > 0,
            off == address % m,
    ;
    let offset = off as usize;
    MapWindow { base: address - offset as u64, offset, len: offset + width.size() }
}


/// The number that an address or value argument writes: hex after a `0x` or
/// `0X` prefix, decimal otherwise.
pub open spec fn spec_number(s: Seq<char>) -> Result<nat, IntError> {
    if has_hex_prefix(s) {
        spec_parse_uint(s.subrange(2, s.len() as int), 16, 0xffff_ffff_ffff_ffff)
    } else {
        spec_parse_uint(s, 10, 0xffff_ffff_ffff_ffff)
    }
}

/// Whether `s` has the hex prefix.
pub open spec fn has_hex_prefix(s: Seq<char>) -> bool {
    s.len() >= 2 && s[0] == '0' && (s[1] == 'x' || s[1] == 'X')
}

/// Reads an address or a value: hex after a `0x` or `0X` prefix, decimal
/// otherwise. The error says which of the two failed, and why.
pub fn parse_number(s: &str) -> (r: Result<u64, String>)
    ensures
        spec_number(s@) matches Ok(v) ==> (r matches Ok(x) && x == v),
        spec_number(s@) matches Err(e) ==> (r matches Err(m) && m@ == (if has_hex_prefix(s@) {
            "Invalid hex number: "@
        } else {
            "Invalid number: "@
        }) + int_error_text(e)),
{
    let v = chars_of(s);
    proof {
        lemma_parse_uint_bounded(s@, 10, 0xffff_ffff_ffff_ffff);
        lemma_parse_uint_bounded(s@.subrange(2, s@.len() as int), 16, 0xffff_ffff_ffff_ffff);
    }
    let hex = v.len() >= 2 && v[0] == '0' && (v[1] == 'x' || v[1] == 'X');
    let parsed = if hex {
        parse_uint(&v, 2, v.len(), 16, 0xffff_ffff_ffff_ffff)
    } else {
        assert(v@.subrange(0, v@.len() as int) =~= s@);
        parse_uint(&v, 0, v.len(), 10, 0xffff_ffff_ffff_ffff)
    };
    match parsed {
        Ok(x) => Ok(x),
        Err(e) => {
            let mut m = if hex {
                String::from_str("Invalid hex number: ")
            } else {
                String::from_str("Invalid number: ")
            };
            m.append(e.message());
            Err(m)
        },
    }
}

/// The width that a width argument names; no argument means `Long`.
pub open spec fn spec_width(s: Option<&str>) -> Option<AccessWidth> {
    match s {
        None => Some(AccessWidth::Long),
        Some(t) => if t@ == seq!['b'] || t@ == seq!['B'] {
            Some(AccessWidth::Byte)
        } else if t@ == seq!['h'] || t@ == seq!['H'] {
            Some(AccessWidth::Word)
        } else if t@ == seq!['w'] || t@ == seq!['W'] {
            Some(AccessWidth::Long)
        } else if t@ == seq!['q'] || t@ == seq!['Q'] {
            Some(AccessWidth::LongLong)
        } else {
            None
        },
    }
}

/// Reads a width argument: `b`, `h`, `w` or `q` in either case, `w` when
/// there is none.
pub fn parse_width(s: Option<&str>) -> (r: Result<AccessWidth, String>)
    ensures
        spec_width(s) matches Some(w) ==> r == Ok::<AccessWidth, String>(w),
        spec_width(s) is None ==> (r matches Err(m) && m@ == "Invalid width '"@ + s->0@
            + "'. Use b(yte), h(alfword), w(ord), or q(uad)"@),
{
    let t = match s {
        None => {
            return Ok(AccessWidth::Long);
        },
        Some(t) => t,
    };
    if t.unicode_len() == 1 {
        let c = t.get_char(0);
        let w = if c == 'b' || c == 'B' {
            Some(AccessWidth::Byte)
        } else if c == 'h' || c == 'H' {
            Some(AccessWidth::Word)
        } else if c == 'w' || c == 'W' {
            Some(AccessWidth::Long)
        } else if c == 'q' || c == 'Q' {
            Some(AccessWidth::LongLong)
        } else {
            None
        };
        proof {
            assert(t@ =~= seq![c]);
        }
        if let Some(w) = w {
            return Ok(w);
        }
    } else {
        proof {
            assert(seq!['b'].len() == 1);
            assert(seq!['B'].len() == 1);
            assert(seq!['h'].len() == 1);
            assert(seq!['H'].len() == 1);
            assert(seq!['w'].len() == 1);
            assert(seq!['W'].len() == 1);
            assert(seq!['q'].len() == 1);
            assert(seq!['Q'].len() == 1);
        }
    }
    let mut m = String::from_str("Invalid width '");
    m.append(t);
    m.append("'. Use b(yte), h(alfword), w(ord), or q(uad)");
    Err(m)
}

/// The name of a width as messages show it.
pub fn width_name(width: AccessWidth) -> (r: &'static str)
    ensures
        r@ == match width {
            AccessWidth::Byte => "byte"@,
            AccessWidth::Word => "word"@,
            AccessWidth::Long => "long"@,
            AccessWidth::LongLong => "longlong"@,
        },
{
    match width {
        AccessWidth::Byte => "byte",
        AccessWidth::Word => "word",
        AccessWidth::Long => "long",
        AccessWidth::LongLong => "longlong",
    }
}

} // verus!
