//! Construction of a header from its defaults and per-field overrides.
use vstd::prelude::*;
use crate::flags::{Flags, DEFAULT_FLAGS};
use crate::header::{default_header, PspHeader};

verus! {

/// Collects overrides for some of the header's fields; every field left
/// alone takes its default value when the header is built.
#[derive(Clone, Copy, Debug)]
pub struct PspHeaderBuilder {
    next_hdr: Option<u8>,
    hdr_ext_len: Option<u8>,
    crypt_off: Option<u8>,
    flags: Option<Flags>,
    spi: Option<u32>,
    iv: Option<u64>,
}

pub open spec fn or_default<T>(o: Option<T>, d: T) -> T {
    match o {
        Some(v) => v,
        None => d,
    }
}

impl View for PspHeaderBuilder {
    type V = PspHeader;

    /// The header that `build` returns in the builder's present state.
    closed spec fn view(&self) -> PspHeader {
        let d = default_header();
        PspHeader {
            next_hdr: or_default(self.next_hdr, d.next_hdr),
            hdr_ext_len: or_default(self.hdr_ext_len, d.hdr_ext_len),
            crypt_off: or_default(self.crypt_off, d.crypt_off),
            flags: or_default(self.flags, d.flags),
            spi: or_default(self.spi, d.spi),
            iv: or_default(self.iv, d.iv),
        }
    }
}

impl PspHeaderBuilder {
    pub fn next_hdr(&mut self, value: u8) -> (r: &mut PspHeaderBuilder)
        ensures
            r@ == (PspHeader { next_hdr: value, ..old(self)@ }),
            *final(self) == *final(r),
    {
        self.next_hdr = Some(value);
        self
    }

    pub fn hdr_ext_len(&mut self, value: u8) -> (r: &mut PspHeaderBuilder)
        ensures
            r@ == (PspHeader { hdr_ext_len: value, ..old(self)@ }),
            *final(self) == *final(r),
    {
        self.hdr_ext_len = Some(value);
        self
    }

    pub fn crypt_off(&mut self, value: u8) -> (r: &mut PspHeaderBuilder)
        ensures
            r@ == (PspHeader { crypt_off: value, ..old(self)@ }),
            *final(self) == *final(r),
    {
        self.crypt_off = Some(value);
        self
    }

    /// Sets the whole flags byte.
    pub fn flags(&mut self, value: Flags) -> (r: &mut PspHeaderBuilder)
        ensures
            r@ == (PspHeader { flags: value, ..old(self)@ }),
            *final(self) == *final(r),
    {
        self.flags = Some(value);
        self
    }

    pub fn spi(&mut self, value: u32) -> (r: &mut PspHeaderBuilder)
        ensures
            r@ == (PspHeader { spi: value, ..old(self)@ }),
            *final(self) == *final(r),
    {
        self.spi = Some(value);
        self
    }

    pub fn iv(&mut self, value: u64) -> (r: &mut PspHeaderBuilder)
        ensures
            r@ == (PspHeader { iv: value, ..old(self)@ }),
            *final(self) == *final(r),
    {
        self.iv = Some(value);
        self
    }

    /// The header: each overridden field as given, every other at its default.
    pub fn build(&self) -> (h: PspHeader)
        ensures
            h == self@,
    {
        PspHeader {
            next_hdr: match self.next_hdr {
                Some(v) => v,
                None => 0,
            },
            hdr_ext_len: match self.hdr_ext_len {
                Some(v) => v,
                None => 0,
            },
            crypt_off: match self.crypt_off {
                Some(v) => v,
                None => 0,
            },
            flags: match self.flags {
                Some(v) => v,
                None => Flags(DEFAULT_FLAGS),
            },
            spi: match self.spi {
                Some(v) => v,
                None => 0,
            },
            iv: match self.iv {
                Some(v) => v,
                None => 0,
            },
        }
    }
}

impl Default for PspHeaderBuilder {
    /// A builder with no override: it builds the default header.
    fn default() -> (b: PspHeaderBuilder)
        ensures
            b@ == default_header(),
    {
        PspHeaderBuilder {
            next_hdr: None,
            hdr_ext_len: None,
            crypt_off: None,
            flags: None,
            spi: None,
            iv: None,
        }
    }
}

} // verus!
