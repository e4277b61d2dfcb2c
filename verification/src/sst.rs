//! Sorted string table files: what reads them, what writes them, and how
//! they are described.

use vstd::prelude::*;
use vstd::string::StringExecFns;
use std::path::PathBuf;
use std::sync::Arc;

verus! {

#[verifier::external_type_specification]
#[verifier::external_body]
pub struct ExPathBuf(std::path::PathBuf);

/// Why an operation on a table file failed.
#[derive(Clone, Debug, PartialEq, Eq)]
pub enum SstError {
    /// The storage engine refused the operation.
    Engine(String),
    /// Reading or writing the file failed.
    Io(String),
    /// The file does not hold what its checksum promises.
    Corruption(String),
}

pub type Result<T> = std::result::Result<T, SstError>;

/// What an import request says of a table file.
#[derive(Clone, Debug, PartialEq, Eq)]
pub struct SstMeta {
    pub uuid: Vec<u8>,
    pub range_start: Vec<u8>,
    pub range_end: Vec<u8>,
    pub end_key_exclusive: bool,
    pub crc32: u32,
    pub length: u64,
    pub cf_name: String,
    pub region_id: u64,
}

/// A table file's description together with its totals.
#[derive(Clone, Debug)]
pub struct SstMetaInfo {
    pub total_bytes: u64,
    pub total_kvs: u64,
    pub meta: SstMeta,
}

/// An engine that reads and writes table files.
pub trait SstExt: Sized {
    type SstReader: SstReader;

    type SstWriter: SstWriter;

    /// The builder of `Self::SstWriter`: a type that is a
    /// `SstWriterBuilder` of this engine.
    type SstWriterBuilder;
}

/// SstReader is used to read an SST file.
pub trait SstReader: Sized + Send {
    /// The manager of the keys with which files at rest are encrypted.
    type KeyManager;

    fn open(path: &str, mgr: Option<Arc<Self::KeyManager>>) -> Result<Self>;

    fn verify_checksum(&self) -> Result<()>;

    fn kv_count_and_size(&self) -> (u64, u64);
}

/// SstWriter is used to create sst files that can be added to database later.
pub trait SstWriter: Send {
    type ExternalSstFileInfo: ExternalSstFileInfo;

    type ExternalSstFileReader: ExternalSstFileReader;

    /// Add key, value to currently opened file.
    /// The key is to lie after any previously added key according to the
    /// comparator of the file.
    fn put(&mut self, key: &[u8], val: &[u8]) -> Result<()>;

    /// Add a deletion key to currently opened file.
    /// The key is to lie after any previously added key according to the
    /// comparator of the file.
    fn delete(&mut self, key: &[u8]) -> Result<()>;

    /// Return the current file size.
    fn file_size(&mut self) -> u64;

    /// Finalize writing to sst file and close file.
    fn finish(self) -> Result<Self::ExternalSstFileInfo>;

    /// Finalize writing to sst file and read the contents into the buffer.
    fn finish_read(self) -> Result<(Self::ExternalSstFileInfo, Self::ExternalSstFileReader)>;
}

/// A reader over the bytes of a finished table file.
pub trait ExternalSstFileReader: Send {
    /// Reads up to `limit` of the bytes that follow; no bytes mean the end.
    fn read(&mut self, limit: usize) -> Result<Vec<u8>>;

    /// Goes back to the first byte.
    fn reset(&mut self) -> Result<()>;
}

/// Compression type used for write sst file.
#[derive(Copy, Clone, Debug, PartialEq, Eq, Structural)]
pub enum SstCompressionType {
    Lz4,
    Snappy,
    Zstd,
}

/// The lower case letter of an upper case ASCII letter; any other
/// character is left as it is.
pub open spec fn ascii_lower(c: char) -> char {
    if 'A' <= c && c <= 'Z' {
        ((c as u32 + 32) as u8) as char
    } else {
        c
    }
}

/// A string with its ASCII letters in lower case.
pub open spec fn ascii_lowered(s: Seq<char>) -> Seq<char> {
    s.map_values(|c: char| ascii_lower(c))
}

/// `str::to_ascii_lowercase` returns a copy of the string in which the
/// ASCII letters 'A' to 'Z' are mapped to 'a' to 'z' and every other
/// character stays as it is.
pub assume_specification[ str::to_ascii_lowercase ](s: &str) -> (r: String)
    ensures
        r@ == ascii_lowered(s@),
;

impl SstCompressionType {
    /// The compression method that `name` stands for, whatever the case of
    /// its letters.
    pub open spec fn named(name: Seq<char>) -> Option<SstCompressionType> {
        if ascii_lowered(name) == "lz4"@ {
            Some(SstCompressionType::Lz4)
        } else if ascii_lowered(name) == "snappy"@ {
            Some(SstCompressionType::Snappy)
        } else if ascii_lowered(name) == "zstd"@ {
            Some(SstCompressionType::Zstd)
        } else {
            None
        }
    }

    /// Reads the name of a compression method. A name that stands for none
    /// is refused with a message that repeats it in lower case.
    pub fn parse(s: &str) -> (res: std::result::Result<SstCompressionType, String>)
        ensures
            match Self::named(s@) {
                Some(t) => res == Ok::<SstCompressionType, String>(t),
                None => res matches Err(msg) && msg@ == ascii_lowered(s@)
                    + " isn't a valid compression method"@,
            },
    {
        let lowered = s.to_ascii_lowercase();
        if lowered == String::from_str("lz4") {
            Ok(SstCompressionType::Lz4)
        } else if lowered == String::from_str("snappy") {
            Ok(SstCompressionType::Snappy)
        } else if lowered == String::from_str("zstd") {
            Ok(SstCompressionType::Zstd)
        } else {
            Err(lowered.concat(" isn't a valid compression method"))
        }
    }
}

impl std::str::FromStr for SstCompressionType {
    type Err = String;

    fn from_str(s: &str) -> (res: std::result::Result<Self, Self::Err>)
        ensures
            match SstCompressionType::named(s@) {
                Some(t) => res == Ok::<SstCompressionType, String>(t),
                None => res matches Err(msg) && msg@ == ascii_lowered(s@)
                    + " isn't a valid compression method"@,
            },
    {
        SstCompressionType::parse(s)
    }
}

/// A builder builds a SstWriter.
pub trait SstWriterBuilder<E>: Sized where E: SstExt {
    /// Create a new SstWriterBuilder.
    fn new() -> Self;

    /// Set DB for the builder. The builder may need some config from the DB.
    #[must_use]
    fn set_db(self, db: &E) -> Self;

    /// Set CF for the builder. The builder may need some config from the CF.
    #[must_use]
    fn set_cf(self, cf: &str) -> Self;

    /// Set it to true, the builder builds a in-memory SST builder.
    #[must_use]
    fn set_in_memory(self, in_memory: bool) -> Self;

    /// Set other config specified by writer.
    #[must_use]
    fn set_compression_type(self, compression: Option<SstCompressionType>) -> Self;

    #[must_use]
    fn set_compression_level(self, level: i32) -> Self;

    /// Builder a SstWriter.
    fn build(self, path: &str) -> Result<E::SstWriter>;
}

/// What is known of a finished table file.
pub trait ExternalSstFileInfo: Sized {
    fn new() -> Self;

    fn file_path(&self) -> PathBuf;

    fn smallest_key(&self) -> &[u8];

    fn largest_key(&self) -> &[u8];

    fn sequence_number(&self) -> u64;

    fn file_size(&self) -> u64;

    fn num_entries(&self) -> u64;
}

} // verus!
