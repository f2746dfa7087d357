//! The one-byte flag cluster of the header.
//!
//! Layout, least significant bit first: S (bit 0), D (bit 1), a four-bit
//! version (bits 2 to 5), VC (bit 6) and R (bit 7).
use vstd::prelude::*;

verus! {

/// Value of the S flag held in byte `b`.
pub open spec fn spec_s(b: u8) -> bool {
    b & 0x01 == 0x01
}

/// Value of the D flag held in byte `b`.
pub open spec fn spec_d(b: u8) -> bool {
    b & 0x02 == 0x02
}

/// The four-bit version field held in byte `b`.
pub open spec fn spec_version(b: u8) -> u8 {
    (b >> 2) & 0x0f
}

/// Value of the VC flag held in byte `b`.
pub open spec fn spec_vc(b: u8) -> bool {
    b & 0x40 == 0x40
}

/// Value of the reserved R bit held in byte `b`.
pub open spec fn spec_r(b: u8) -> bool {
    b & 0x80 == 0x80
}

/// `mask` when `cond` holds, zero otherwise.
pub open spec fn bit_if(cond: bool, mask: u8) -> u8 {
    if cond {
        mask
    } else {
        0
    }
}

/// The byte that holds the five sub-fields; the version keeps its low four bits.
pub open spec fn spec_pack(s: bool, d: bool, version: u8, vc: bool, r: bool) -> u8 {
    bit_if(s, 0x01) | bit_if(d, 0x02) | ((version & 0x0f) << 2) | bit_if(vc, 0x40) | bit_if(r, 0x80)
}

/// Unpacking a packed byte gives back each field, the version cut to four bits.
pub proof fn lemma_unpack_pack(s: bool, d: bool, version: u8, vc: bool, r: bool)
    ensures
        spec_s(spec_pack(s, d, version, vc, r)) == s,
        spec_d(spec_pack(s, d, version, vc, r)) == d,
        spec_version(spec_pack(s, d, version, vc, r)) == version & 0x0f,
        spec_vc(spec_pack(s, d, version, vc, r)) == vc,
        spec_r(spec_pack(s, d, version, vc, r)) == r,
{
    assert(spec_s(spec_pack(s, d, version, vc, r)) == s && spec_d(spec_pack(s, d, version, vc, r))
        == d && spec_version(spec_pack(s, d, version, vc, r)) == version & 0x0f && spec_vc(
        spec_pack(s, d, version, vc, r),
    ) == vc && spec_r(spec_pack(s, d, version, vc, r)) == r) by (bit_vector);
}

/// Every byte is the packing of its own five sub-fields: no bit is left over.
pub proof fn lemma_pack_unpack(b: u8)
    ensures
        spec_pack(spec_s(b), spec_d(b), spec_version(b), spec_vc(b), spec_r(b)) == b,
{
    assert(spec_pack(spec_s(b), spec_d(b), spec_version(b), spec_vc(b), spec_r(b)) == b)
        by (bit_vector);
}

/// Each sub-field of a packed byte depends on its own input alone: changing
/// any of the other four inputs leaves it as it was.
pub proof fn lemma_pack_isolation(
    s: bool,
    d: bool,
    version: u8,
    vc: bool,
    r: bool,
    s2: bool,
    d2: bool,
    version2: u8,
    vc2: bool,
    r2: bool,
)
    ensures
        spec_s(spec_pack(s, d, version, vc, r)) == spec_s(spec_pack(s, d2, version2, vc2, r2)),
        spec_d(spec_pack(s, d, version, vc, r)) == spec_d(spec_pack(s2, d, version2, vc2, r2)),
        spec_version(spec_pack(s, d, version, vc, r)) == spec_version(
            spec_pack(s2, d2, version, vc2, r2),
        ),
        spec_vc(spec_pack(s, d, version, vc, r)) == spec_vc(spec_pack(s2, d2, version2, vc, r2)),
        spec_r(spec_pack(s, d, version, vc, r)) == spec_r(spec_pack(s2, d2, version2, vc2, r)),
{
    lemma_unpack_pack(s, d, version, vc, r);
    lemma_unpack_pack(s, d2, version2, vc2, r2);
    lemma_unpack_pack(s2, d, version2, vc2, r2);
    lemma_unpack_pack(s2, d2, version, vc2, r2);
    lemma_unpack_pack(s2, d2, version2, vc, r2);
    lemma_unpack_pack(s2, d2, version2, vc2, r);
}

/// Packs the five sub-fields into one byte. The version is cut to its low
/// four bits before it is shifted into place.
pub fn pack(s: bool, d: bool, version: u8, vc: bool, r: bool) -> (b: u8)
    ensures
        b == spec_pack(s, d, version, vc, r),
{
    let bs: u8 = if s { 0x01 } else { 0 };
    let bd: u8 = if d { 0x02 } else { 0 };
    let bvc: u8 = if vc { 0x40 } else { 0 };
    let br: u8 = if r { 0x80 } else { 0 };
    bs | bd | ((version & 0x0f) << 2) | bvc | br
}

/// Splits a byte into its five sub-fields `(s, d, version, vc, r)`.
pub fn unpack(b: u8) -> (fields: (bool, bool, u8, bool, bool))
    ensures
        fields == (spec_s(b), spec_d(b), spec_version(b), spec_vc(b), spec_r(b)),
{
    (b & 0x01 == 0x01, b & 0x02 == 0x02, (b >> 2) & 0x0f, b & 0x40 == 0x40, b & 0x80 == 0x80)
}


/// Each setter changes its own sub-field and leaves the other four as they were.
pub proof fn lemma_setters_isolated(b: u8, flag: bool, version: u8)
    ensures
        spec_s(with_s(b, flag)) == flag && spec_d(with_s(b, flag)) == spec_d(b) && spec_version(
            with_s(b, flag),
        ) == spec_version(b) && spec_vc(with_s(b, flag)) == spec_vc(b) && spec_r(with_s(b, flag))
            == spec_r(b),
        spec_d(with_d(b, flag)) == flag && spec_s(with_d(b, flag)) == spec_s(b) && spec_version(
            with_d(b, flag),
        ) == spec_version(b) && spec_vc(with_d(b, flag)) == spec_vc(b) && spec_r(with_d(b, flag))
            == spec_r(b),
        spec_version(with_version(b, version)) == version & 0x0f && spec_s(with_version(b, version))
            == spec_s(b) && spec_d(with_version(b, version)) == spec_d(b) && spec_vc(
            with_version(b, version),
        ) == spec_vc(b) && spec_r(with_version(b, version)) == spec_r(b),
        spec_vc(with_vc(b, flag)) == flag && spec_s(with_vc(b, flag)) == spec_s(b) && spec_d(
            with_vc(b, flag),
        ) == spec_d(b) && spec_version(with_vc(b, flag)) == spec_version(b) && spec_r(
            with_vc(b, flag),
        ) == spec_r(b),
        spec_r(with_r(b, flag)) == flag && spec_s(with_r(b, flag)) == spec_s(b) && spec_d(
            with_r(b, flag),
        ) == spec_d(b) && spec_version(with_r(b, flag)) == spec_version(b) && spec_vc(
            with_r(b, flag),
        ) == spec_vc(b),
{
    assert(spec_version(b) & 0x0f == spec_version(b)) by (bit_vector);
    lemma_unpack_pack(flag, spec_d(b), spec_version(b), spec_vc(b), spec_r(b));
    lemma_unpack_pack(spec_s(b), flag, spec_version(b), spec_vc(b), spec_r(b));
    lemma_unpack_pack(spec_s(b), spec_d(b), version, spec_vc(b), spec_r(b));
    lemma_unpack_pack(spec_s(b), spec_d(b), spec_version(b), flag, spec_r(b));
    lemma_unpack_pack(spec_s(b), spec_d(b), spec_version(b), spec_vc(b), flag);
}

/// A flags byte, read and written through its five named sub-fields.
#[derive(Clone, Copy, Debug, PartialEq, Eq, Structural)]
pub struct Flags(pub u8);

/// The byte with its S flag replaced and the other fields kept.
pub open spec fn with_s(b: u8, val: bool) -> u8 {
    spec_pack(val, spec_d(b), spec_version(b), spec_vc(b), spec_r(b))
}

/// The byte with its D flag replaced and the other fields kept.
pub open spec fn with_d(b: u8, val: bool) -> u8 {
    spec_pack(spec_s(b), val, spec_version(b), spec_vc(b), spec_r(b))
}

/// The byte with its version replaced by the low four bits of `val`.
pub open spec fn with_version(b: u8, val: u8) -> u8 {
    spec_pack(spec_s(b), spec_d(b), val, spec_vc(b), spec_r(b))
}

/// The byte with its VC flag replaced and the other fields kept.
pub open spec fn with_vc(b: u8, val: bool) -> u8 {
    spec_pack(spec_s(b), spec_d(b), spec_version(b), val, spec_r(b))
}

/// The byte with its R bit replaced and the other fields kept.
pub open spec fn with_r(b: u8, val: bool) -> u8 {
    spec_pack(spec_s(b), spec_d(b), spec_version(b), spec_vc(b), val)
}

/// The default flags byte: every flag clear, version 0, reserved bit set.
pub const DEFAULT_FLAGS: u8 = 0x80;

impl Flags {
    pub fn new(value: u8) -> (f: Flags)
        ensures
            f.0 == value,
    {
        Flags(value)
    }

    pub fn s(&self) -> (r: bool)
        ensures
            r == spec_s(self.0),
    {
        self.0 & 0x01 == 0x01
    }

    pub fn set_s(&mut self, val: bool) -> (r: &mut Flags)
        ensures
            r.0 == with_s(old(self).0, val),
            *final(self) == *final(r),
    {
        proof {
            let b = self.0;
            assert(with_s(b, val) == if val { b | 0x01 } else { b & 0xfe }) by (bit_vector);
        }
        if val {
            self.0 = self.0 | 0x01;
        } else {
            self.0 = self.0 & 0xfe;
        }
        self
    }

    pub fn d(&self) -> (r: bool)
        ensures
            r == spec_d(self.0),
    {
        self.0 & 0x02 == 0x02
    }

    pub fn set_d(&mut self, val: bool) -> (r: &mut Flags)
        ensures
            r.0 == with_d(old(self).0, val),
            *final(self) == *final(r),
    {
        proof {
            let b = self.0;
            assert(with_d(b, val) == if val { b | 0x02 } else { b & 0xfd }) by (bit_vector);
        }
        if val {
            self.0 = self.0 | 0x02;
        } else {
            self.0 = self.0 & 0xfd;
        }
        self
    }

    pub fn version(&self) -> (r: u8)
        ensures
            r == spec_version(self.0),
            r < 16,
    {
        let b = self.0;
        let v = (b >> 2) & 0x0f;
        assert(v < 16) by (bit_vector)
            requires
                v == (b >> 2) & 0x0f,
        ;
        v
    }

    /// Stores the low four bits of `val` as the version; the other fields are kept.
    pub fn set_version(&mut self, val: u8) -> (r: &mut Flags)
        ensures
            r.0 == with_version(old(self).0, val),
            *final(self) == *final(r),
    {
        proof {
            let b = self.0;
            assert(with_version(b, val) == (b & 0xc3) | ((val & 0x0f) << 2)) by (bit_vector);
        }
        self.0 = (self.0 & 0xc3) | ((val & 0x0f) << 2);
        self
    }

    pub fn vc(&self) -> (r: bool)
        ensures
            r == spec_vc(self.0),
    {
        self.0 & 0x40 == 0x40
    }

    pub fn set_vc(&mut self, val: bool) -> (r: &mut Flags)
        ensures
            r.0 == with_vc(old(self).0, val),
            *final(self) == *final(r),
    {
        proof {
            let b = self.0;
            assert(with_vc(b, val) == if val { b | 0x40 } else { b & 0xbf }) by (bit_vector);
        }
        if val {
            self.0 = self.0 | 0x40;
        } else {
            self.0 = self.0 & 0xbf;
        }
        self
    }

    pub fn r(&self) -> (r: bool)
        ensures
            r == spec_r(self.0),
    {
        self.0 & 0x80 == 0x80
    }

    pub fn set_r(&mut self, val: bool) -> (r: &mut Flags)
        ensures
            r.0 == with_r(old(self).0, val),
            *final(self) == *final(r),
    {
        proof {
            let b = self.0;
            assert(with_r(b, val) == if val { b | 0x80 } else { b & 0x7f }) by (bit_vector);
        }
        if val {
            self.0 = self.0 | 0x80;
        } else {
            self.0 = self.0 & 0x7f;
        }
        self
    }

    /// Builds the flags from the five sub-fields.
    pub fn from_fields(s: bool, d: bool, version: u8, vc: bool, r: bool) -> (f: Flags)
        ensures
            f.0 == spec_pack(s, d, version, vc, r),
    {
        Flags(pack(s, d, version, vc, r))
    }

    /// The five sub-fields `(s, d, version, vc, r)`.
    pub fn fields(&self) -> (fields: (bool, bool, u8, bool, bool))
        ensures
            fields == (spec_s(self.0), spec_d(self.0), spec_version(self.0), spec_vc(self.0), spec_r(
                self.0,
            )),
    {
        unpack(self.0)
    }

    /// A copy of the flags as they stand, ending a chain of setters.
    pub fn build(&mut self) -> (f: Flags)
        ensures
            f == *old(self),
            *final(self) == *old(self),
    {
        *self
    }
}

impl Default for Flags {
    fn default() -> (f: Flags)
        ensures
            f.0 == DEFAULT_FLAGS,
    {
        Flags(DEFAULT_FLAGS)
    }
}

} // verus!
