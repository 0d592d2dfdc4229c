//! Queries on an open archive.
//!
//! A handle is an optional reference; a missing one is the null handle. A name
//! is a C string without its closing NUL.

use crate::archive::{name_place, Zip, ZipView};
use crate::consts::{ZIP_ER_INVAL, ZIP_ER_NOENT, ZIP_ER_OPNOTSUPP};
use crate::edit::{check_name, is_name};
use crate::errors::{error_of, zip_error};
use vstd::prelude::*;

verus! {

/// Number of entries on disk, or -1. The flags have no effect.
pub fn zip_get_num_entries(zh: Option<&Zip>, _flags: u32) -> (r: i64)
    ensures
        r == (match zh {
            Some(z) => z@.len() as i64,
            None => (-1) as i64,
        }),
{
    match zh {
        Some(z) => z.archive.entries.len() as i64,
        None => -1,
    }
}

/// Number of entries on disk, or -1; more than an `i32` can count are an error.
pub fn zip_get_num_files(zh: Option<&mut Zip>) -> (r: i32)
    ensures
        zh is None ==> r == -1,
        zh matches Some(z) ==> {
            &&& z@.wf() ==> final(z)@.wf()
            &&& if z@.len() > i32::MAX {
                r == -1 && final(z)@ == z@.failed(ZIP_ER_OPNOTSUPP)
            } else {
                r == z@.len() && final(z)@ == z@
            }
        },
{
    match zh {
        None => -1,
        Some(z) => {
            let n: usize = z.archive.entries.len();
            if n as u64 > i32::MAX as u64 {
                return z.fail(ZIP_ER_OPNOTSUPP);
            }
            n as i32
        },
    }
}

/// The name of an entry on disk that the getter shows.
pub open spec fn shown_name(z: ZipView, index: u64) -> Option<Seq<u8>> {
    if index < z.names.len() {
        z.names[index as int]
    } else {
        None
    }
}

/// The name of an entry on disk as a C string, where there is one. The flags
/// have no effect.
pub fn zip_get_name<'a>(zh: Option<&'a Zip>, index: u64, _flags: u32) -> (r: Option<&'a Vec<u8>>)
    ensures
        zh is None ==> r is None,
        zh matches Some(z) ==> match shown_name(z@, index) {
            Some(n) => r is Some && r->0@ == n,
            None => r is None,
        },
{
    match zh {
        None => None,
        Some(z) => {
            if index < z.names.len() as u64 {
                match &z.names[index as usize] {
                    Some(n) => Some(n),
                    None => None,
                }
            } else {
                None
            }
        },
    }
}

/// Looking up a name: the archive behind it, and the index of the first entry
/// on disk that has it.
pub open spec fn locate_outcome(z: ZipView, name: Option<&[u8]>) -> (ZipView, int) {
    if !is_name(name) {
        (z.failed(ZIP_ER_INVAL), -1)
    } else {
        match name_place(z.archive, name->0@) {
            Some(k) => (z, k),
            None => (z.failed(ZIP_ER_NOENT), -1),
        }
    }
}

/// The index of the first entry on disk with a name.
pub open spec fn found(z: ZipView, name: Option<&[u8]>) -> Option<u64> {
    if !is_name(name) {
        None
    } else {
        match name_place(z.archive, name->0@) {
            Some(k) => Some(k as u64),
            None => None,
        }
    }
}

impl Zip {
    /// The place of the first entry on disk with a name; the error is recorded
    /// if there is none.
    pub fn locate(&mut self, name: Option<&[u8]>) -> (r: Option<usize>)
        ensures
            old(self)@.wf() ==> final(self)@.wf(),
            (final(self)@, match r {
                Some(k) => k as int,
                None => -1,
            }) == locate_outcome(old(self)@, name),
            r matches Some(k) ==> k < old(self)@.len() && found(old(self)@, name) == Some(k as u64),
            r is None ==> found(old(self)@, name) is None,
    {
        if !check_name(name) {
            self.fail(ZIP_ER_INVAL);
            return None;
        }
        match self.archive.name_locate(name.unwrap()) {
            Some(k) => Some(k),
            None => {
                self.fail(ZIP_ER_NOENT);
                None
            },
        }
    }
}

/// The index of the first entry on disk named `name`, or -1. The flags have no
/// effect.
pub fn zip_name_locate(zh: Option<&mut Zip>, name: Option<&[u8]>, _flags: u32) -> (r: i64)
    requires
        zh matches Some(z) ==> z@.countable(),
    ensures
        zh is None ==> r == -1,
        zh matches Some(z) ==> {
            &&& z@.wf() ==> final(z)@.wf()
            &&& (final(z)@, r as int) == locate_outcome(z@, name)
        },
{
    match zh {
        None => -1,
        Some(z) => match z.locate(name) {
            Some(k) => k as i64,
            None => -1,
        },
    }
}

/// The message of the last error, where one was recorded.
pub fn zip_strerror(zh: Option<&Zip>) -> (r: Option<&'static str>)
    ensures
        zh is None ==> r is None,
        zh matches Some(z) ==> match z@.error.str {
            Some(m) => r is Some && r->0@ == m,
            None => r is None,
        },
{
    match zh {
        Some(z) => z.error.str,
        None => None,
    }
}

/// The error object of an archive.
pub fn zip_get_error(zh: Option<&Zip>) -> (r: Option<zip_error>)
    ensures
        zh is None ==> r is None,
        zh matches Some(z) ==> r is Some && r->0@ == z@.error,
{
    match zh {
        Some(z) => Some(z.error),
        None => None,
    }
}

/// Clears the last error.
pub fn zip_error_clear(zh: Option<&mut Zip>)
    ensures
        zh matches Some(z) ==> {
            &&& z@.wf() ==> final(z)@.wf()
            &&& final(z)@ == (ZipView { error: error_of(0, 0), ..z@ })
        },
{
    if let Some(z) = zh {
        z.set_err(0, 0);
    }
}

/// Stores the codes of the last error.
pub fn zip_error_get(zh: Option<&Zip>, zep: Option<&mut i32>, sep: Option<&mut i32>)
    ensures
        zep matches Some(e) ==> *final(e) == (match zh {
            Some(z) => z@.error.zip_err,
            None => *e,
        }),
        sep matches Some(e) ==> *final(e) == (match zh {
            Some(z) => z@.error.sys_err,
            None => *e,
        }),
{
    if let Some(z) = zh {
        if let Some(e) = zep {
            *e = z.error.zip_err;
        }
        if let Some(e) = sep {
            *e = z.error.sys_err;
        }
    }
}

/// The version of the interface.
pub fn zip_libzip_version() -> (r: &'static str)
    ensures
        r@ == "1.11.4"@,
{
    "1.11.4"
}

} // verus!
