//! Numeric constants of the `zip_*` interface.

use vstd::prelude::*;

verus! {

/// `zip_open` flag: create the archive if it does not exist.
pub const ZIP_CREATE: i32 = 1;
/// `zip_open` flag: fail if the archive already exists.
pub const ZIP_EXCL: i32 = 2;
/// `zip_open` flag: perform additional consistency checks.
pub const ZIP_CHECKCONS: i32 = 4;
/// `zip_open` flag: discard what the archive holds.
pub const ZIP_TRUNCATE: i32 = 8;
/// `zip_open` flag: refuse every edit.
pub const ZIP_RDONLY: i32 = 16;

/// Upper bound in bytes on the whole-file read made when an archive is opened.
pub const MAX_OPEN_FILE_SIZE: u64 = 2 * 1024 * 1024 * 1024;

/// Entry flag: work on the stored (compressed) bytes.
pub const ZIP_FL_COMPRESSED: u32 = 4;
/// Entry flag: look at the archive as it is on disk.
pub const ZIP_FL_UNCHANGED: u32 = 8;
/// Entry flag: work on the encrypted bytes.
pub const ZIP_FL_ENCRYPTED: u32 = 32;
/// `zip_file_add` flag: overwrite an existing entry with the same name.
pub const ZIP_FL_OVERWRITE: u32 = 8192;

/// Error type: no system error belongs to the code.
pub const ZIP_ET_NONE: i32 = 0;
/// Error type: the system error is an `errno` value.
pub const ZIP_ET_SYS: i32 = 1;
/// Error type: the system error is a zlib status.
pub const ZIP_ET_ZLIB: i32 = 2;
/// Error type: the system error is a detail code of this library.
pub const ZIP_ET_LIBZIP: i32 = 3;

/// Archive flag: the archive is read-only.
pub const ZIP_AFL_RDONLY: i32 = 2;
/// Archive flag: the archive is in torrentzip form.
pub const ZIP_AFL_IS_TORRENTZIP: i32 = 4;
/// Archive flag: write the archive in torrentzip form.
pub const ZIP_AFL_WANT_TORRENTZIP: i32 = 8;
/// Archive flag: keep the file of an archive without entries.
pub const ZIP_AFL_CREATE_OR_KEEP_FILE_FOR_EMPTY_ARCHIVE: i32 = 16;

/// Seek relative to the start.
pub const SEEK_SET: i32 = 0;
/// Seek relative to the current position.
pub const SEEK_CUR: i32 = 1;
/// Seek relative to the end.
pub const SEEK_END: i32 = 2;

/// Host system code of Unix.
pub const ZIP_OPSYS_UNIX: u8 = 3;

/// Extra-field index that stands for every field.
pub const ZIP_EXTRA_FIELD_ALL: u16 = 0xFFFF;
/// Extra-field index that asks for a new field.
pub const ZIP_EXTRA_FIELD_NEW: u16 = 0xFFFF;
/// Extra-field identifier of the ZIP64 record, which the writer manages.
pub const ZIP_EF_ZIP64: u16 = 0x0001;
/// Extra-field identifier of the WinZip AES record, which the writer manages.
pub const ZIP_EF_WINZIP_AES: u16 = 0x9901;

/// Compression method: let the library choose.
pub const ZIP_CM_DEFAULT: i32 = -1;
/// Compression method: stored.
pub const ZIP_CM_STORE: i32 = 0;
/// Compression method: deflate.
pub const ZIP_CM_DEFLATE: i32 = 8;
/// Compression method: bzip2.
pub const ZIP_CM_BZIP2: i32 = 12;
/// Compression method: LZMA.
pub const ZIP_CM_LZMA: i32 = 14;

/// Encryption method: none.
pub const ZIP_EM_NONE: u16 = 0;
/// Encryption method: traditional PKWARE encryption.
pub const ZIP_EM_TRAD_PKWARE: u16 = 1;
/// Encryption method: WinZip AES-128.
pub const ZIP_EM_AES_128: u16 = 0x0101;
/// Encryption method: WinZip AES-192.
pub const ZIP_EM_AES_192: u16 = 0x0102;
/// Encryption method: WinZip AES-256.
pub const ZIP_EM_AES_256: u16 = 0x0103;

/// Source command: prepare for reading.
pub const ZIP_SOURCE_OPEN: i32 = 0;
/// Source command: read bytes.
pub const ZIP_SOURCE_READ: i32 = 1;
/// Source command: reading is done.
pub const ZIP_SOURCE_CLOSE: i32 = 2;
/// Source command: report metadata.
pub const ZIP_SOURCE_STAT: i32 = 3;
/// Source command: report the last error.
pub const ZIP_SOURCE_ERROR: i32 = 4;
/// Source command: release the source.
pub const ZIP_SOURCE_FREE: i32 = 5;
/// Source command: set the read position.
pub const ZIP_SOURCE_SEEK: i32 = 6;
/// Source command: report the read position.
pub const ZIP_SOURCE_TELL: i32 = 7;
/// Source command: open a write session.
pub const ZIP_SOURCE_BEGIN_WRITE: i32 = 8;
/// Source command: make the written bytes the content.
pub const ZIP_SOURCE_COMMIT_WRITE: i32 = 9;
/// Source command: discard the written bytes.
pub const ZIP_SOURCE_ROLLBACK_WRITE: i32 = 10;
/// Source command: write bytes.
pub const ZIP_SOURCE_WRITE: i32 = 11;
/// Source command: set the write position.
pub const ZIP_SOURCE_SEEK_WRITE: i32 = 12;
/// Source command: report the write position.
pub const ZIP_SOURCE_TELL_WRITE: i32 = 13;
/// Source command: report the supported commands.
pub const ZIP_SOURCE_SUPPORTS: i32 = 14;
/// Source command: remove what the source stands for.
pub const ZIP_SOURCE_REMOVE: i32 = 15;
/// Source command that is reserved.
pub const ZIP_SOURCE_RESERVED_1: i32 = 16;
/// Source command: open a write session on a copy of the first bytes.
pub const ZIP_SOURCE_BEGIN_WRITE_CLONING: i32 = 17;
/// Source command: whether an empty source is accepted.
pub const ZIP_SOURCE_ACCEPT_EMPTY: i32 = 18;
/// Source command: report file attributes.
pub const ZIP_SOURCE_GET_FILE_ATTRIBUTES: i32 = 19;
/// Source command: whether the source can be opened again.
pub const ZIP_SOURCE_SUPPORTS_REOPEN: i32 = 20;
/// Source command: report the DOS time.
pub const ZIP_SOURCE_GET_DOS_TIME: i32 = 21;
/// Source command: whether the read position is at the end.
pub const ZIP_SOURCE_AT_EOF: i32 = 22;

/// Command mask of a readable source: OPEN, READ, CLOSE, STAT, ERROR and FREE.
pub const SRC_READABLE: i64 = 0x3f;
/// Command mask of a seekable source: readable, with SEEK, TELL and SUPPORTS.
pub const SRC_SEEKABLE: i64 = 0x40ff;
/// Command mask of write mode: BEGIN_WRITE, BEGIN_WRITE_CLONING, COMMIT_WRITE,
/// ROLLBACK_WRITE, WRITE, SEEK_WRITE and TELL_WRITE.
pub const SRC_WRITE_MODE: i64 = 0x23f00;
/// Command mask of a writable source: write mode with REMOVE.
pub const SRC_WRITABLE: i64 = 0x2bf00;
/// Command mask of AT_EOF alone.
pub const SRC_AT_EOF: i64 = 0x40_0000;
/// Command mask of SEEK alone.
pub const SRC_SEEK: i64 = 0x40;
/// Command mask of REMOVE alone.
pub const SRC_REMOVE: i64 = 0x8000;

/// Valid bit of a stat record: the name.
pub const ZIP_STAT_NAME: u64 = 0x0001;
/// Valid bit of a stat record: the index.
pub const ZIP_STAT_INDEX: u64 = 0x0002;
/// Valid bit of a stat record: the uncompressed size.
pub const ZIP_STAT_SIZE: u64 = 0x0004;
/// Valid bit of a stat record: the compressed size.
pub const ZIP_STAT_COMP_SIZE: u64 = 0x0008;
/// Valid bit of a stat record: the modification time.
pub const ZIP_STAT_MTIME: u64 = 0x0010;
/// Valid bit of a stat record: the CRC-32.
pub const ZIP_STAT_CRC: u64 = 0x0020;
/// Valid bit of a stat record: the compression method.
pub const ZIP_STAT_COMP_METHOD: u64 = 0x0040;
/// Valid bit of a stat record: the encryption method.
pub const ZIP_STAT_ENCRYPTION_METHOD: u64 = 0x0080;
/// Valid bit of a stat record: the flags.
pub const ZIP_STAT_FLAGS: u64 = 0x0100;

/// Length that asks for a range up to the end without a check.
pub const ZIP_LENGTH_UNCHECKED: i64 = -2;

/// No error.
pub const ZIP_ER_OK: i32 = 0;
/// Seek error.
pub const ZIP_ER_SEEK: i32 = 4;
/// Read error.
pub const ZIP_ER_READ: i32 = 5;
/// Write error.
pub const ZIP_ER_WRITE: i32 = 6;
/// No such file.
pub const ZIP_ER_NOENT: i32 = 9;
/// File already exists.
pub const ZIP_ER_EXISTS: i32 = 10;
/// Can't open file.
pub const ZIP_ER_OPEN: i32 = 11;
/// Malloc failure.
pub const ZIP_ER_MEMORY: i32 = 14;
/// Entry has been changed.
pub const ZIP_ER_CHANGED: i32 = 15;
/// Compression method not supported.
pub const ZIP_ER_COMPNOTSUPP: i32 = 16;
/// Invalid argument.
pub const ZIP_ER_INVAL: i32 = 18;
/// Internal error.
pub const ZIP_ER_INTERNAL: i32 = 20;
/// Encryption method not supported.
pub const ZIP_ER_ENCRNOTSUPP: i32 = 24;
/// Read-only archive.
pub const ZIP_ER_RDONLY: i32 = 25;
/// No password provided.
pub const ZIP_ER_NOPASSWD: i32 = 26;
/// Operation not supported.
pub const ZIP_ER_OPNOTSUPP: i32 = 28;

/// Size in bytes of the argument record of a seek command.
pub const SEEK_ARGS_SIZE: u64 = 16;
/// Size in bytes of a stat record.
pub const STAT_SIZE: u64 = 64;
/// Size in bytes of a file-attributes record.
pub const FILE_ATTRIBUTES_SIZE: u64 = 24;
/// Size in bytes of a pair of error codes.
pub const ERROR_PAIR_SIZE: u64 = 8;

} // verus!
