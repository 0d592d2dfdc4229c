//! Metadata records of sources and entries.

use crate::consts::{
    ZIP_STAT_COMP_METHOD, ZIP_STAT_COMP_SIZE, ZIP_STAT_CRC,
    ZIP_STAT_ENCRYPTION_METHOD, ZIP_STAT_MTIME, ZIP_STAT_SIZE,
};
use vstd::prelude::*;

verus! {

/// A copy of a byte string.
pub fn copy_bytes(v: &Vec<u8>) -> (r: Vec<u8>)
    ensures
        r@ == v@,
{
    let r = v.clone();
    assert(r@ =~= v@);
    r
}

/// What a source or an entry knows about itself. A field without a value is
/// not known; `valid` is the mask of known fields that is handed on for an
/// entry.
#[derive(Clone, Copy, Debug, PartialEq, Eq, Structural)]
pub struct Stat {
    pub valid: u64,
    pub index: Option<u64>,
    pub size: Option<u64>,
    pub comp_size: Option<u64>,
    pub mtime: Option<u64>,
    pub crc: Option<u32>,
    pub comp_method: Option<u16>,
    pub encryption_method: Option<u16>,
}

/// The record in which nothing is known.
pub open spec fn unknown_stat() -> Stat {
    Stat {
        valid: 0,
        index: None,
        size: None,
        comp_size: None,
        mtime: None,
        crc: None,
        comp_method: None,
        encryption_method: None,
    }
}

impl Stat {
    /// A record in which nothing is known.
    pub fn unknown() -> (r: Stat)
        ensures
            r == unknown_stat(),
    {
        Stat {
            valid: 0,
            index: None,
            size: None,
            comp_size: None,
            mtime: None,
            crc: None,
            comp_method: None,
            encryption_method: None,
        }
    }
}

/// The stat record of the interface. `valid` says which of the other fields
/// carry a value.
#[derive(Debug)]
pub struct zip_stat {
    pub valid: u64,
    pub name: Option<Vec<u8>>,
    pub index: u64,
    pub size: u64,
    pub comp_size: u64,
    pub mtime: i64,
    pub crc: u32,
    pub comp_method: u16,
    pub encryption_method: u16,
    pub flags: u32,
}

/// What a stat record says.
pub ghost struct StatView {
    pub valid: u64,
    pub name: Option<Seq<u8>>,
    pub index: u64,
    pub size: u64,
    pub comp_size: u64,
    pub mtime: i64,
    pub crc: u32,
    pub comp_method: u16,
    pub encryption_method: u16,
    pub flags: u32,
}

/// The view of an optional byte string.
pub open spec fn bytes_view(b: Option<Vec<u8>>) -> Option<Seq<u8>> {
    match b {
        Some(v) => Some(v@),
        None => None,
    }
}

impl View for zip_stat {
    type V = StatView;

    open spec fn view(&self) -> StatView {
        StatView {
            valid: self.valid,
            name: bytes_view(self.name),
            index: self.index,
            size: self.size,
            comp_size: self.comp_size,
            mtime: self.mtime,
            crc: self.crc,
            comp_method: self.comp_method,
            encryption_method: self.encryption_method,
            flags: self.flags,
        }
    }
}

/// The record in which no field is valid and every field is zero.
pub open spec fn empty_stat() -> StatView {
    StatView {
        valid: 0,
        name: None,
        index: 0,
        size: 0,
        comp_size: 0,
        mtime: 0,
        crc: 0,
        comp_method: 0,
        encryption_method: 0,
        flags: 0,
    }
}

impl zip_stat {
    /// A record in which no field is valid.
    pub fn empty() -> (r: zip_stat)
        ensures
            r@ == empty_stat(),
    {
        zip_stat {
            valid: 0,
            name: None,
            index: 0,
            size: 0,
            comp_size: 0,
            mtime: 0,
            crc: 0,
            comp_method: 0,
            encryption_method: 0,
            flags: 0,
        }
    }
}

/// Clears a stat record, if there is one.
pub fn zip_stat_init(sb: Option<&mut zip_stat>)
    ensures
        sb matches Some(s) ==> final(s)@ == empty_stat(),
{
    if let Some(s) = sb {
        *s = zip_stat::empty();
    }
}

/// `bit` where a value is known, else 0.
pub open spec fn known<T>(value: Option<T>, bit: u64) -> u64 {
    if value is Some { bit } else { 0 }
}

/// A value, or `default` where it is not known.
pub open spec fn value_or<T>(value: Option<T>, default: T) -> T {
    match value {
        Some(v) => v,
        None => default,
    }
}

/// The mask of the fields that a source reports.
pub open spec fn source_valid_mask(s: Stat) -> u64 {
    known(s.size, ZIP_STAT_SIZE) | known(s.comp_size, ZIP_STAT_COMP_SIZE) | known(
        s.mtime,
        ZIP_STAT_MTIME,
    ) | known(s.crc, ZIP_STAT_CRC) | known(s.comp_method, ZIP_STAT_COMP_METHOD) | known(
        s.encryption_method,
        ZIP_STAT_ENCRYPTION_METHOD,
    )
}

/// The stat record of a source: no name and no index, and of the other fields
/// those that are known.
pub open spec fn source_stat(s: Stat) -> StatView {
    StatView {
        valid: source_valid_mask(s),
        name: None,
        index: 0,
        size: value_or(s.size, 0),
        comp_size: value_or(s.comp_size, 0),
        mtime: value_or(s.mtime, 0) as i64,
        crc: value_or(s.crc, 0),
        comp_method: value_or(s.comp_method, 0),
        encryption_method: value_or(s.encryption_method, 0),
        flags: 0,
    }
}

/// Fills a stat record with what a source knows.
pub fn fill_zip_stat(sb: &mut zip_stat, s: &Stat)
    ensures
        final(sb)@ == source_stat(*s),
{
    let size_bit: u64 = if s.size.is_some() { ZIP_STAT_SIZE } else { 0 };
    let comp_size_bit: u64 = if s.comp_size.is_some() { ZIP_STAT_COMP_SIZE } else { 0 };
    let mtime_bit: u64 = if s.mtime.is_some() { ZIP_STAT_MTIME } else { 0 };
    let crc_bit: u64 = if s.crc.is_some() { ZIP_STAT_CRC } else { 0 };
    let method_bit: u64 = if s.comp_method.is_some() { ZIP_STAT_COMP_METHOD } else { 0 };
    let encryption_bit: u64 = if s.encryption_method.is_some() {
        ZIP_STAT_ENCRYPTION_METHOD
    } else {
        0
    };
    sb.valid = size_bit | comp_size_bit | mtime_bit | crc_bit | method_bit | encryption_bit;
    sb.name = None;
    sb.index = 0;
    sb.size = s.size.unwrap_or(0);
    sb.comp_size = s.comp_size.unwrap_or(0);
    let mtime: u64 = s.mtime.unwrap_or(0);
    sb.mtime = mtime as i64;
    sb.crc = s.crc.unwrap_or(0);
    sb.comp_method = s.comp_method.unwrap_or(0);
    sb.encryption_method = s.encryption_method.unwrap_or(0);
    sb.flags = 0;
}

/// The file-attributes record of the interface.
#[derive(Clone, Copy, Debug, PartialEq, Eq, Structural)]
pub struct zip_file_attributes {
    pub valid: u64,
    pub version: u8,
    pub host_system: u8,
    pub ascii: u8,
    pub version_needed: u8,
    pub external_file_attributes: u32,
    pub general_purpose_bit_flags: u16,
    pub general_purpose_bit_mask: u16,
}

/// Clears a file-attributes record, if there is one: version 1, no valid field,
/// every other field zero.
pub fn zip_file_attributes_init(attrs: Option<&mut zip_file_attributes>)
    ensures
        attrs matches Some(a) ==> *final(a) == (zip_file_attributes {
            valid: 0,
            version: 1,
            host_system: 0,
            ascii: 0,
            version_needed: 0,
            external_file_attributes: 0,
            general_purpose_bit_flags: 0,
            general_purpose_bit_mask: 0,
        }),
{
    if let Some(a) = attrs {
        *a = zip_file_attributes {
            valid: 0,
            version: 1,
            host_system: 0,
            ascii: 0,
            version_needed: 0,
            external_file_attributes: 0,
            general_purpose_bit_flags: 0,
            general_purpose_bit_mask: 0,
        };
    }
}

} // verus!
