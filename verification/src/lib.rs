//! Decoder for the binary class file format: the magic number, the version
//! and the constant pool, whose entries are linked to each other.

use crate::bytes::{has_bytes, read_u2, read_u4, u2_at, u4_at};
use crate::linker::link_constant_pool;
use crate::parser::constant_pool::{
    entries_from, entries_from_fills_count, entries_stop, entries_stop_in_bounds, read_entries,
};
use crate::pool::{ConstantPool, EntryView};
use crate::resolution::link;
use crate::version::ClassFileVersion;
use vstd::prelude::*;
use vstd::slice::slice_subrange;

pub mod bytes;
pub mod class_file;
pub mod feed;
pub mod linker;
pub mod parser;
pub mod pool;
pub mod resolution;
pub mod text;
pub mod types;
pub mod version;

verus! {

/// The magic number that identifies the class file format.
pub const MAGIC: u32 = 0xCAFEBABE;

/// Why a class file was rejected. Every error ends the whole decode.
#[derive(Debug, Clone, Copy, PartialEq, Eq, Structural)]
pub enum Error {
    /// A constant pool entry refers to an index that is no entry of the
    /// kind it needs: zero, past the end of the pool, the unusable slot
    /// behind an eight-byte literal, or an entry of another kind.
    InvalidIndex {
        /// The index that was referred to.
        index: u16,
        /// The index of the entry that refers to it; zero if the reference
        /// came from outside the pool.
        referrer: u16,
    },
    /// The first four bytes are not the magic number.
    InvalidMagic,
    /// A constant pool entry starts with a byte that is no known tag.
    UnknownTag(u8),
    /// A method handle carries a byte that is no known reference kind.
    UnknownReferenceKind(u8),
    /// The bytes end before a field that the format requires.
    UnexpectedEof,
    /// Resolving an entry led back to an entry that was still being resolved.
    CyclicReference,
    /// The class file declares a version later than the latest supported one.
    UnsupportedVersion(ClassFileVersion),
}

/// A class file, as far as this decoder reads it.
#[derive(Debug)]
pub struct ClassFile {
    /// The version of the format that the file declares.
    pub version: ClassFileVersion,
    /// The linked constant pool.
    pub constant_pool: ConstantPool,
}

/// What a `ClassFile` holds.
pub struct ClassFileView {
    pub version: ClassFileVersion,
    pub constant_pool: Seq<Option<EntryView>>,
}

impl View for ClassFile {
    type V = ClassFileView;

    open spec fn view(&self) -> ClassFileView {
        ClassFileView { version: self.version, constant_pool: self.constant_pool@ }
    }
}

impl Clone for ClassFile {
    /// A copy whose pool shares its entries with the pool of `self`.
    fn clone(&self) -> (r: Self)
        ensures
            r@ == self@,
    {
        ClassFile { version: self.version, constant_pool: self.constant_pool.clone() }
    }
}

/// The version that the header declares: the minor number stands before
/// the major one.
pub open spec fn declared_version(b: Seq<u8>) -> ClassFileVersion {
    ClassFileVersion { major: u2_at(b, 6) as u16, minor: u2_at(b, 4) as u16 }
}

/// The number of slots of the constant pool table: one less than the count
/// that the header declares, since index zero stands for no entry. A count
/// of zero declares no slot either.
pub open spec fn declared_slots(b: Seq<u8>) -> nat {
    if u2_at(b, 8) == 0 {
        0
    } else {
        (u2_at(b, 8) - 1) as nat
    }
}

/// The class file that the bytes `b` encode.
///
/// The steps are taken in this order, and the first that fails decides the
/// error: the magic number; the version, which the latest supported version
/// must support; the count of the constant pool; the entries of the table;
/// the linking of the pool. What follows the constant pool is not read.
pub open spec fn class_file_of(b: Seq<u8>) -> Result<ClassFileView, Error> {
    if !has_bytes(b, 0, 4) {
        Err(Error::UnexpectedEof)
    } else if u4_at(b, 0) != MAGIC {
        Err(Error::InvalidMagic)
    } else if !has_bytes(b, 4, 4) {
        Err(Error::UnexpectedEof)
    } else if !ClassFileVersion::latest().supports(declared_version(b)) {
        Err(Error::UnsupportedVersion(declared_version(b)))
    } else if !has_bytes(b, 8, 2) {
        Err(Error::UnexpectedEof)
    } else {
        match entries_from(b, 10, declared_slots(b)) {
            Err(e) => Err(e),
            Ok((table, _)) => match link(table) {
                Err(e) => Err(e),
                Ok(pool) => Ok(ClassFileView { version: declared_version(b), constant_pool: pool }),
            },
        }
    }
}

/// Whatever follows them, bytes that do not start with the magic number are
/// rejected as such, and none but the first four are read.
pub proof fn other_magic_is_rejected(b: Seq<u8>)
    requires
        b.len() >= 4,
        !(b[0] == 0xCA && b[1] == 0xFE && b[2] == 0xBA && b[3] == 0xBE),
    ensures
        class_file_of(b) == Err::<ClassFileView, Error>(Error::InvalidMagic),
        bytes_read(b) == 4,
{
}

/// A class file that decodes has the version that its header declares,
/// which is a supported one, and a pool of as many slots as its header
/// declares.
pub proof fn class_file_is_as_declared(b: Seq<u8>)
    requires
        class_file_of(b) is Ok,
    ensures
        class_file_of(b)->Ok_0.version == declared_version(b),
        ClassFileVersion::latest().supports(declared_version(b)),
        class_file_of(b)->Ok_0.constant_pool.len() == declared_slots(b),
{
    entries_from_fills_count(b, 10, declared_slots(b));
}

/// Decodes class files from a source of bytes.
pub struct ClassParser<R> {
    inner: R,
}

impl<R> ClassParser<R> {
    /// The source that this parser reads from.
    pub closed spec fn source(self) -> R {
        self.inner
    }

    /// A parser that reads from `inner`.
    pub fn new(inner: R) -> (parser: Self)
        ensures
            parser.source() == inner,
    {
        Self { inner }
    }

    /// The source that this parser reads from.
    pub fn into_inner(self) -> (inner: R)
        ensures
            inner == self.source(),
    {
        self.inner
    }
}

/// The number of bytes that decoding takes from the source `b`: the bytes
/// up to the last one that was read. Where the bytes end before a field
/// that the format requires, all of them are taken.
pub open spec fn bytes_read(b: Seq<u8>) -> int {
    if !has_bytes(b, 0, 4) {
        b.len() as int
    } else if u4_at(b, 0) != MAGIC {
        4
    } else if !has_bytes(b, 4, 4) {
        b.len() as int
    } else if !ClassFileVersion::latest().supports(declared_version(b)) {
        8
    } else if !has_bytes(b, 8, 2) {
        b.len() as int
    } else {
        entries_stop(b, 10, declared_slots(b))
    }
}

/// Decoding takes no more bytes than there are. Of a class file that
/// decodes it takes the header and the constant pool table.
pub proof fn bytes_read_in_bounds(b: Seq<u8>)
    ensures
        0 <= bytes_read(b) <= b.len(),
        class_file_of(b) is Ok ==> bytes_read(b) == entries_from(
            b,
            10,
            declared_slots(b),
        )->Ok_0.1,
{
    entries_stop_in_bounds(b, 10, declared_slots(b));
}

impl<'a> ClassParser<&'a [u8]> {
    /// Takes `taken` bytes from the front of the source.
    fn take(&mut self, taken: usize)
        requires
            taken <= old(self).source()@.len(),
        ensures
            final(self).source()@ == old(self).source()@.skip(taken as int),
    {
        let bytes: &[u8] = self.inner;
        self.inner = slice_subrange(bytes, taken, bytes.len());
    }

    /// Decodes the class file that the bytes of the source encode: checks
    /// the magic number and the version, reads the constant pool table and
    /// links it.
    ///
    /// A version later than `ClassFileVersion::latest()` is rejected with
    /// `UnsupportedVersion`. No part of a class file is returned where any
    /// step fails.
    ///
    /// The source is left with the bytes behind the last one that was read.
    /// After a class file that decodes, these are the bytes that follow the
    /// constant pool, for those who decode what stands there. After a wrong
    /// magic number they are the bytes behind its four bytes, after an
    /// unsupported version those behind the version, after an unknown tag
    /// or reference kind those behind that byte, and after a pool that does
    /// not link those behind its table. Where the bytes end too early, none
    /// is left.
    pub fn parse(&mut self) -> (r: Result<ClassFile, Error>)
        ensures
            match class_file_of(old(self).source()@) {
                Ok(class_file) => r is Ok && r->Ok_0@ == class_file,
                Err(e) => r is Err && r->Err_0 == e,
            },
            final(self).source()@ == old(self).source()@.skip(bytes_read(old(self).source()@)),
    {
        let bytes: &[u8] = self.inner;
        let len: usize = bytes.len();
        let magic = match read_u4(bytes, 0) {
            Ok(v) => v,
            Err(e) => {
                self.take(len);
                return Err(e);
            },
        };
        if magic != MAGIC {
            self.take(4);
            return Err(Error::InvalidMagic);
        }
        let minor = match read_u2(bytes, 4) {
            Ok(v) => v,
            Err(e) => {
                self.take(len);
                return Err(e);
            },
        };
        let major = match read_u2(bytes, 6) {
            Ok(v) => v,
            Err(e) => {
                self.take(len);
                return Err(e);
            },
        };
        let version = ClassFileVersion::new(major, minor);
        if !ClassFileVersion::latest().supports(version) {
            self.take(8);
            return Err(Error::UnsupportedVersion(version));
        }
        let count = match read_u2(bytes, 8) {
            Ok(v) => v,
            Err(e) => {
                self.take(len);
                return Err(e);
            },
        };
        let slots: u16 = if count == 0 {
            0
        } else {
            count - 1
        };
        let (table, end) = read_entries(bytes, 10, slots);
        proof {
            entries_stop_in_bounds(bytes@, 10, slots as nat);
        }
        self.take(end);
        let entries = match table {
            Ok(entries) => entries,
            Err(e) => { return Err(e); },
        };
        let constant_pool = match link_constant_pool(entries) {
            Ok(pool) => pool,
            Err(e) => { return Err(e); },
        };
        Ok(ClassFile { version, constant_pool })
    }
}

} // verus!
