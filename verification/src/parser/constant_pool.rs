//! Reading the constant pool table: one tag byte for each entry, then a
//! payload whose layout the tag decides.

use crate::bytes::{
    has_bytes, read_u1, read_u2, read_u4, read_wide, signed32, signed64, to_i32, to_i64, u2_at,
    u4_at, wide_at,
};
use crate::pool::{
    raw_pool, MethodHandleKind, RawEntry, UnlinkedConstantPoolEntry, UnlinkedRefEntry,
};
use crate::text::{decode, decode_text};
use crate::Error;
use vstd::prelude::*;
use vstd::slice::slice_subrange;
use vstd::std_specs::convert::FromSpecImpl;

verus! {

/// The tag of a constant pool entry.
#[derive(Debug, Clone, Copy, PartialEq, Eq, Structural)]
pub enum Tag {
    Class,
    FieldRef,
    MethodRef,
    InterfaceMethodRef,
    String,
    Integer,
    Float,
    Long,
    Double,
    NameAndType,
    Utf8,
    MethodHandle,
    MethodType,
    Dynamic,
    InvokeDynamic,
    Module,
    Package,
    /// What a byte that is the code of no tag maps to.
    Invalid,
}

impl Tag {
    /// The byte that stands for this tag in a class file.
    pub open spec fn code(self) -> Option<u8> {
        match self {
            Tag::Utf8 => Some(1u8),
            Tag::Integer => Some(3u8),
            Tag::Float => Some(4u8),
            Tag::Long => Some(5u8),
            Tag::Double => Some(6u8),
            Tag::Class => Some(7u8),
            Tag::String => Some(8u8),
            Tag::FieldRef => Some(9u8),
            Tag::MethodRef => Some(10u8),
            Tag::InterfaceMethodRef => Some(11u8),
            Tag::NameAndType => Some(12u8),
            Tag::MethodHandle => Some(15u8),
            Tag::MethodType => Some(16u8),
            Tag::Dynamic => Some(17u8),
            Tag::InvokeDynamic => Some(18u8),
            Tag::Module => Some(19u8),
            Tag::Package => Some(20u8),
            Tag::Invalid => None,
        }
    }

    /// The tag with the code `byte`, and `Invalid` where there is none.
    pub open spec fn of(byte: u8) -> Tag {
        if byte == 7 {
            Tag::Class
        } else if byte == 9 {
            Tag::FieldRef
        } else if byte == 10 {
            Tag::MethodRef
        } else if byte == 11 {
            Tag::InterfaceMethodRef
        } else if byte == 8 {
            Tag::String
        } else if byte == 3 {
            Tag::Integer
        } else if byte == 4 {
            Tag::Float
        } else if byte == 5 {
            Tag::Long
        } else if byte == 6 {
            Tag::Double
        } else if byte == 12 {
            Tag::NameAndType
        } else if byte == 1 {
            Tag::Utf8
        } else if byte == 15 {
            Tag::MethodHandle
        } else if byte == 16 {
            Tag::MethodType
        } else if byte == 17 {
            Tag::Dynamic
        } else if byte == 18 {
            Tag::InvokeDynamic
        } else if byte == 19 {
            Tag::Module
        } else if byte == 20 {
            Tag::Package
        } else {
            Tag::Invalid
        }
    }

    /// `of` inverts `code`: a byte maps to the one tag that it is the code
    /// of, and to `Invalid` where it is the code of none.
    pub proof fn of_inverts_code(byte: u8, tag: Tag)
        ensures
            tag.code() == Some(byte) <==> (Self::of(byte) == tag && tag != Tag::Invalid),
    {
    }
}

impl From<u8> for Tag {
    fn from(tag: u8) -> (t: Self) {
        match tag {
            7 => Tag::Class,
            9 => Tag::FieldRef,
            10 => Tag::MethodRef,
            11 => Tag::InterfaceMethodRef,
            8 => Tag::String,
            3 => Tag::Integer,
            4 => Tag::Float,
            5 => Tag::Long,
            6 => Tag::Double,
            12 => Tag::NameAndType,
            1 => Tag::Utf8,
            15 => Tag::MethodHandle,
            16 => Tag::MethodType,
            17 => Tag::Dynamic,
            18 => Tag::InvokeDynamic,
            19 => Tag::Module,
            20 => Tag::Package,
            _ => Tag::Invalid,
        }
    }
}

impl FromSpecImpl<u8> for Tag {
    open spec fn obeys_from_spec() -> bool {
        true
    }

    open spec fn from_spec(tag: u8) -> Tag {
        Tag::of(tag)
    }
}

/// The reference kind of a method handle, as its byte in the class file
/// says.
#[derive(Debug, Clone, Copy, PartialEq, Eq, Structural)]
pub enum ReferenceKind {
    GetField,
    GetStatic,
    PutField,
    PutStatic,
    InvokeVirtual,
    InvokeStatic,
    InvokeSpecial,
    NewInvokeSpecial,
    InvokeInterface,
    /// What a byte that is the code of no reference kind maps to.
    Invalid,
}

impl ReferenceKind {
    /// The byte that stands for this kind in a class file.
    pub open spec fn code(self) -> Option<u8> {
        match self {
            ReferenceKind::GetField => Some(1u8),
            ReferenceKind::GetStatic => Some(2u8),
            ReferenceKind::PutField => Some(3u8),
            ReferenceKind::PutStatic => Some(4u8),
            ReferenceKind::InvokeVirtual => Some(5u8),
            ReferenceKind::InvokeStatic => Some(6u8),
            ReferenceKind::InvokeSpecial => Some(7u8),
            ReferenceKind::NewInvokeSpecial => Some(8u8),
            ReferenceKind::InvokeInterface => Some(9u8),
            ReferenceKind::Invalid => None,
        }
    }

    /// The kind with the code `byte`, and `Invalid` where there is none.
    pub open spec fn of(byte: u8) -> ReferenceKind {
        if byte == 1 {
            ReferenceKind::GetField
        } else if byte == 2 {
            ReferenceKind::GetStatic
        } else if byte == 3 {
            ReferenceKind::PutField
        } else if byte == 4 {
            ReferenceKind::PutStatic
        } else if byte == 5 {
            ReferenceKind::InvokeVirtual
        } else if byte == 6 {
            ReferenceKind::InvokeStatic
        } else if byte == 7 {
            ReferenceKind::InvokeSpecial
        } else if byte == 8 {
            ReferenceKind::NewInvokeSpecial
        } else if byte == 9 {
            ReferenceKind::InvokeInterface
        } else {
            ReferenceKind::Invalid
        }
    }

    /// `of` inverts `code`: a byte maps to the one kind that it is the code
    /// of, and to `Invalid` where it is the code of none.
    pub proof fn of_inverts_code(byte: u8, kind: ReferenceKind)
        ensures
            kind.code() == Some(byte) <==> (Self::of(byte) == kind && kind
                != ReferenceKind::Invalid),
    {
    }

    /// The kind of method handle that this reference kind makes, if it is
    /// a valid one.
    pub open spec fn spec_handle_kind(self) -> Option<MethodHandleKind> {
        match self {
            ReferenceKind::GetField => Some(MethodHandleKind::GetField),
            ReferenceKind::GetStatic => Some(MethodHandleKind::GetStatic),
            ReferenceKind::PutField => Some(MethodHandleKind::PutField),
            ReferenceKind::PutStatic => Some(MethodHandleKind::PutStatic),
            ReferenceKind::InvokeVirtual => Some(MethodHandleKind::InvokeVirtual),
            ReferenceKind::InvokeStatic => Some(MethodHandleKind::InvokeStatic),
            ReferenceKind::InvokeSpecial => Some(MethodHandleKind::InvokeSpecial),
            ReferenceKind::NewInvokeSpecial => Some(MethodHandleKind::NewInvokeSpecial),
            ReferenceKind::InvokeInterface => Some(MethodHandleKind::InvokeInterface),
            ReferenceKind::Invalid => None,
        }
    }

    /// The kind of method handle that this reference kind makes, if it is
    /// a valid one.
    #[verifier::when_used_as_spec(spec_handle_kind)]
    pub fn handle_kind(self) -> (r: Option<MethodHandleKind>)
        ensures
            r == self.spec_handle_kind(),
    {
        match self {
            ReferenceKind::GetField => Some(MethodHandleKind::GetField),
            ReferenceKind::GetStatic => Some(MethodHandleKind::GetStatic),
            ReferenceKind::PutField => Some(MethodHandleKind::PutField),
            ReferenceKind::PutStatic => Some(MethodHandleKind::PutStatic),
            ReferenceKind::InvokeVirtual => Some(MethodHandleKind::InvokeVirtual),
            ReferenceKind::InvokeStatic => Some(MethodHandleKind::InvokeStatic),
            ReferenceKind::InvokeSpecial => Some(MethodHandleKind::InvokeSpecial),
            ReferenceKind::NewInvokeSpecial => Some(MethodHandleKind::NewInvokeSpecial),
            ReferenceKind::InvokeInterface => Some(MethodHandleKind::InvokeInterface),
            ReferenceKind::Invalid => None,
        }
    }
}

impl From<u8> for ReferenceKind {
    fn from(kind: u8) -> (k: Self) {
        match kind {
            1 => ReferenceKind::GetField,
            2 => ReferenceKind::GetStatic,
            3 => ReferenceKind::PutField,
            4 => ReferenceKind::PutStatic,
            5 => ReferenceKind::InvokeVirtual,
            6 => ReferenceKind::InvokeStatic,
            7 => ReferenceKind::InvokeSpecial,
            8 => ReferenceKind::NewInvokeSpecial,
            9 => ReferenceKind::InvokeInterface,
            _ => ReferenceKind::Invalid,
        }
    }
}

impl FromSpecImpl<u8> for ReferenceKind {
    open spec fn obeys_from_spec() -> bool {
        true
    }

    open spec fn from_spec(kind: u8) -> ReferenceKind {
        ReferenceKind::of(kind)
    }
}

/// Whether an entry of this kind takes the slot behind it too.
pub open spec fn is_wide(e: RawEntry) -> bool {
    e is Long || e is Double
}

/// The entry with tag `tag` whose payload starts at `at`, and the position
/// behind it.
pub open spec fn payload_at(tag: Tag, b: Seq<u8>, at: int) -> Result<(RawEntry, int), Error> {
    let first = u2_at(b, at) as u16;
    let second = u2_at(b, at + 2) as u16;
    let pair = UnlinkedRefEntry { class: first, name_and_ty: second };
    match tag {
        Tag::Invalid => Err(Error::UnknownTag(b[at - 1])),
        Tag::Class => if has_bytes(b, at, 2) {
            Ok((RawEntry::Class(first), at + 2))
        } else {
            Err(Error::UnexpectedEof)
        },
        Tag::String => if has_bytes(b, at, 2) {
            Ok((RawEntry::String(first), at + 2))
        } else {
            Err(Error::UnexpectedEof)
        },
        Tag::MethodType => if has_bytes(b, at, 2) {
            Ok((RawEntry::MethodType(first), at + 2))
        } else {
            Err(Error::UnexpectedEof)
        },
        Tag::Module => if has_bytes(b, at, 2) {
            Ok((RawEntry::Module(first), at + 2))
        } else {
            Err(Error::UnexpectedEof)
        },
        Tag::Package => if has_bytes(b, at, 2) {
            Ok((RawEntry::Package(first), at + 2))
        } else {
            Err(Error::UnexpectedEof)
        },
        Tag::FieldRef => if has_bytes(b, at, 4) {
            Ok((RawEntry::FieldRef(pair), at + 4))
        } else {
            Err(Error::UnexpectedEof)
        },
        Tag::MethodRef => if has_bytes(b, at, 4) {
            Ok((RawEntry::MethodRef(pair), at + 4))
        } else {
            Err(Error::UnexpectedEof)
        },
        Tag::InterfaceMethodRef => if has_bytes(b, at, 4) {
            Ok((RawEntry::InterfaceMethodRef(pair), at + 4))
        } else {
            Err(Error::UnexpectedEof)
        },
        Tag::NameAndType => if has_bytes(b, at, 4) {
            Ok((RawEntry::NameAndType { name: first, descriptor: second }, at + 4))
        } else {
            Err(Error::UnexpectedEof)
        },
        Tag::Dynamic => if has_bytes(b, at, 4) {
            Ok((RawEntry::Dynamic(first, second), at + 4))
        } else {
            Err(Error::UnexpectedEof)
        },
        Tag::InvokeDynamic => if has_bytes(b, at, 4) {
            Ok((RawEntry::InvokeDynamic(first, second), at + 4))
        } else {
            Err(Error::UnexpectedEof)
        },
        Tag::Integer => if has_bytes(b, at, 4) {
            Ok((RawEntry::Integer(signed32(u4_at(b, at)) as i32), at + 4))
        } else {
            Err(Error::UnexpectedEof)
        },
        Tag::Float => if has_bytes(b, at, 4) {
            Ok((RawEntry::Float(u4_at(b, at) as u32), at + 4))
        } else {
            Err(Error::UnexpectedEof)
        },
        Tag::Long => if has_bytes(b, at, 8) {
            Ok((RawEntry::Long(signed64(wide_at(b, at)) as i64), at + 8))
        } else {
            Err(Error::UnexpectedEof)
        },
        Tag::Double => if has_bytes(b, at, 8) {
            Ok((RawEntry::Double(wide_at(b, at) as u64), at + 8))
        } else {
            Err(Error::UnexpectedEof)
        },
        Tag::Utf8 => if !has_bytes(b, at, 2) {
            Err(Error::UnexpectedEof)
        } else if !has_bytes(b, at + 2, first as int) {
            Err(Error::UnexpectedEof)
        } else {
            Ok((RawEntry::Utf8(decode_text(b.subrange(at + 2, at + 2 + first))), at + 2 + first))
        },
        Tag::MethodHandle => if !has_bytes(b, at, 1) {
            Err(Error::UnexpectedEof)
        } else {
            match ReferenceKind::of(b[at]).handle_kind() {
                None => Err(Error::UnknownReferenceKind(b[at])),
                Some(ref_kind) => if has_bytes(b, at + 1, 2) {
                    Ok(
                        (
                            RawEntry::MethodHandle { ref_kind, ref_entry: u2_at(b, at + 1) as u16 },
                            at + 3,
                        ),
                    )
                } else {
                    Err(Error::UnexpectedEof)
                },
            }
        },
    }
}

/// The entry that starts at `pos` with its tag byte, and the position
/// behind it.
pub open spec fn entry_at(b: Seq<u8>, pos: int) -> Result<(RawEntry, int), Error> {
    if has_bytes(b, pos, 1) {
        payload_at(Tag::of(b[pos]), b, pos + 1)
    } else {
        Err(Error::UnexpectedEof)
    }
}

/// The position behind the last byte that reading the entry at `pos` takes
/// from the bytes: the end of the entry where it is read; the byte behind
/// the tag where the tag is unknown; the byte behind the kind of a method
/// handle where that is unknown; and the end of the bytes where they end
/// within the entry, since all of them were taken then.
pub open spec fn entry_stop(b: Seq<u8>, pos: int) -> int {
    match entry_at(b, pos) {
        Ok((_, next)) => next,
        Err(Error::UnknownTag(_)) => pos + 1,
        Err(Error::UnknownReferenceKind(_)) => pos + 2,
        Err(_) => if pos <= b.len() {
            b.len() as int
        } else {
            pos
        },
    }
}

/// `first` in front of the entries of `rest`, where `rest` is no error.
pub open spec fn prefixed(first: Seq<RawEntry>, rest: Result<(Seq<RawEntry>, int), Error>) -> Result<
    (Seq<RawEntry>, int),
    Error,
> {
    match rest {
        Ok((entries, end)) => Ok((first + entries, end)),
        Err(e) => Err(e),
    }
}

/// The table of `count` slots that starts at `pos`, and the position behind
/// it. A `Long` or a `Double` fills its slot and makes the next one
/// unusable, if the table has a next one; the first entry that cannot be
/// read decides the error.
pub open spec fn entries_from(b: Seq<u8>, pos: int, count: nat) -> Result<
    (Seq<RawEntry>, int),
    Error,
>
    decreases count,
{
    if count == 0 {
        Ok((Seq::empty(), pos))
    } else {
        match entry_at(b, pos) {
            Err(e) => Err(e),
            Ok((entry, next)) => if is_wide(entry) && count >= 2 {
                prefixed(seq![entry, RawEntry::Unusable], entries_from(b, next, (count - 2) as nat))
            } else {
                prefixed(seq![entry], entries_from(b, next, (count - 1) as nat))
            },
        }
    }
}

/// The position behind the last byte that reading a table of `count` slots
/// at `pos` takes from the bytes: the end of the table where it is read,
/// else where the entry that cannot be read stops.
pub open spec fn entries_stop(b: Seq<u8>, pos: int, count: nat) -> int
    decreases count,
{
    if count == 0 {
        pos
    } else {
        match entry_at(b, pos) {
            Err(_) => entry_stop(b, pos),
            Ok((entry, next)) => if is_wide(entry) && count >= 2 {
                entries_stop(b, next, (count - 2) as nat)
            } else {
                entries_stop(b, next, (count - 1) as nat)
            },
        }
    }
}

/// Reading a table stops at or behind the position where it starts, and
/// within the bytes if it starts there. A table that is read stops at its
/// end.
pub proof fn entries_stop_in_bounds(b: Seq<u8>, pos: int, count: nat)
    ensures
        pos <= entries_stop(b, pos, count),
        0 <= pos <= b.len() ==> entries_stop(b, pos, count) <= b.len(),
        entries_from(b, pos, count) matches Ok((_, end)) ==> entries_stop(b, pos, count) == end,
    decreases count,
{
    if count > 0 {
        match entry_at(b, pos) {
            Err(_) => {},
            Ok((entry, next)) => {
                if is_wide(entry) && count >= 2 {
                    entries_stop_in_bounds(b, next, (count - 2) as nat);
                } else {
                    entries_stop_in_bounds(b, next, (count - 1) as nat);
                }
            },
        }
    }
}

/// A table that was read has as many slots as were asked for. Where it
/// has any, it ends within the bytes.
pub proof fn entries_from_fills_count(b: Seq<u8>, pos: int, count: nat)
    ensures
        match entries_from(b, pos, count) {
            Ok((entries, end)) => entries.len() == count && pos <= end && (count > 0 ==> end
                <= b.len()),
            Err(_) => true,
        },
    decreases count,
{
    if count > 0 {
        match entry_at(b, pos) {
            Err(_) => {},
            Ok((entry, next)) => {
                if is_wide(entry) && count >= 2 {
                    entries_from_fills_count(b, next, (count - 2) as nat);
                } else {
                    entries_from_fills_count(b, next, (count - 1) as nat);
                }
            },
        }
    }
}

/// Whether the unusable slots of a table are exactly the slots behind its
/// eight-byte literals.
pub open spec fn marks_wide_slots(table: Seq<RawEntry>) -> bool {
    forall|i: int|
        0 <= i < table.len() ==> ((#[trigger] table[i]) is Unusable <==> i > 0 && is_wide(
            table[i - 1],
        ))
}

/// An entry that is read from bytes is never the unusable slot.
pub proof fn entry_at_is_an_entry(b: Seq<u8>, pos: int)
    ensures
        entry_at(b, pos) matches Ok((entry, next)) ==> !(entry is Unusable) && pos < next
            <= b.len(),
{
}

/// In a table that was read, the unusable slots are exactly the slots
/// behind the eight-byte literals.
pub proof fn entries_from_marks_wide_slots(b: Seq<u8>, pos: int, count: nat)
    ensures
        entries_from(b, pos, count) matches Ok((table, _)) ==> marks_wide_slots(table),
    decreases count,
{
    if count > 0 {
        entry_at_is_an_entry(b, pos);
        match entry_at(b, pos) {
            Err(_) => {},
            Ok((entry, next)) => {
                let skip: nat = if is_wide(entry) && count >= 2 {
                    2
                } else {
                    1
                };
                entries_from_marks_wide_slots(b, next, (count - skip) as nat);
            },
        }
    }
}

/// What `r` must be for a reader that is specified by `spec`.
pub open spec fn read_as<T: View>(r: Result<(T, usize), Error>, spec: Result<(T::V, int), Error>) -> bool {
    match spec {
        Ok((v, end)) => r is Ok && r->Ok_0.0@ == v && r->Ok_0.1 == end,
        Err(e) => r is Err && r->Err_0 == e,
    }
}

/// Reads the index at `at` of an entry with a single index.
fn read_index(bytes: &[u8], at: usize) -> (r: Result<(u16, usize), Error>)
    ensures
        match r {
            Ok((index, end)) => has_bytes(bytes@, at as int, 2) && index == u2_at(
                bytes@,
                at as int,
            ) as u16 && end == at + 2,
            Err(e) => !has_bytes(bytes@, at as int, 2) && e == Error::UnexpectedEof,
        },
{
    match read_u2(bytes, at) {
        Ok(index) => Ok((index, at + 2)),
        Err(e) => Err(e),
    }
}

/// Reads the two indices at `at` of an entry with two indices.
fn read_index_pair(bytes: &[u8], at: usize) -> (r: Result<(u16, u16, usize), Error>)
    ensures
        match r {
            Ok((first, second, end)) => has_bytes(bytes@, at as int, 4) && first == u2_at(
                bytes@,
                at as int,
            ) as u16 && second == u2_at(bytes@, at + 2) as u16 && end == at + 4,
            Err(e) => !has_bytes(bytes@, at as int, 4) && e == Error::UnexpectedEof,
        },
{
    if !crate::bytes::available(bytes, at, 4) {
        return Err(Error::UnexpectedEof);
    }
    let first = match read_u2(bytes, at) {
        Ok(v) => v,
        Err(e) => { return Err(e); },
    };
    let second = match read_u2(bytes, at + 2) {
        Ok(v) => v,
        Err(e) => { return Err(e); },
    };
    Ok((first, second, at + 4))
}

/// Reads the payload of an entry with tag `tag`, which starts at `at`.
fn read_payload(tag: Tag, bytes: &[u8], at: usize) -> (r: Result<(UnlinkedConstantPoolEntry, usize), Error>)
    requires
        1 <= at <= bytes@.len(),
    ensures
        read_as(r, payload_at(tag, bytes@, at as int)),
        r is Ok ==> r->Ok_0.1 <= bytes@.len(),
{
    match tag {
        Tag::Invalid => Err(Error::UnknownTag(bytes[at - 1])),
        Tag::Class => match read_index(bytes, at) {
            Ok((index, end)) => Ok((UnlinkedConstantPoolEntry::Class(index), end)),
            Err(e) => Err(e),
        },
        Tag::String => match read_index(bytes, at) {
            Ok((index, end)) => Ok((UnlinkedConstantPoolEntry::String(index), end)),
            Err(e) => Err(e),
        },
        Tag::MethodType => match read_index(bytes, at) {
            Ok((index, end)) => Ok((UnlinkedConstantPoolEntry::MethodType(index), end)),
            Err(e) => Err(e),
        },
        Tag::Module => match read_index(bytes, at) {
            Ok((index, end)) => Ok((UnlinkedConstantPoolEntry::Module(index), end)),
            Err(e) => Err(e),
        },
        Tag::Package => match read_index(bytes, at) {
            Ok((index, end)) => Ok((UnlinkedConstantPoolEntry::Package(index), end)),
            Err(e) => Err(e),
        },
        Tag::FieldRef => match read_index_pair(bytes, at) {
            Ok((class, name_and_ty, end)) => Ok(
                (UnlinkedConstantPoolEntry::FieldRef(UnlinkedRefEntry { class, name_and_ty }), end),
            ),
            Err(e) => Err(e),
        },
        Tag::MethodRef => match read_index_pair(bytes, at) {
            Ok((class, name_and_ty, end)) => Ok(
                (
                    UnlinkedConstantPoolEntry::MethodRef(UnlinkedRefEntry { class, name_and_ty }),
                    end,
                ),
            ),
            Err(e) => Err(e),
        },
        Tag::InterfaceMethodRef => match read_index_pair(bytes, at) {
            Ok((class, name_and_ty, end)) => Ok(
                (
                    UnlinkedConstantPoolEntry::InterfaceMethodRef(
                        UnlinkedRefEntry { class, name_and_ty },
                    ),
                    end,
                ),
            ),
            Err(e) => Err(e),
        },
        Tag::NameAndType => match read_index_pair(bytes, at) {
            Ok((name, descriptor, end)) => Ok(
                (UnlinkedConstantPoolEntry::NameAndType { name, descriptor }, end),
            ),
            Err(e) => Err(e),
        },
        Tag::Dynamic => match read_index_pair(bytes, at) {
            Ok((bootstrap, name_and_ty, end)) => Ok(
                (UnlinkedConstantPoolEntry::Dynamic(bootstrap, name_and_ty), end),
            ),
            Err(e) => Err(e),
        },
        Tag::InvokeDynamic => match read_index_pair(bytes, at) {
            Ok((bootstrap, name_and_ty, end)) => Ok(
                (UnlinkedConstantPoolEntry::InvokeDynamic(bootstrap, name_and_ty), end),
            ),
            Err(e) => Err(e),
        },
        Tag::Integer => match read_u4(bytes, at) {
            Ok(bits) => Ok((UnlinkedConstantPoolEntry::Integer(to_i32(bits)), at + 4)),
            Err(e) => Err(e),
        },
        Tag::Float => match read_u4(bytes, at) {
            Ok(bits) => Ok((UnlinkedConstantPoolEntry::Float(bits), at + 4)),
            Err(e) => Err(e),
        },
        Tag::Long => match read_wide(bytes, at) {
            Ok(bits) => Ok((UnlinkedConstantPoolEntry::Long(to_i64(bits)), at + 8)),
            Err(e) => Err(e),
        },
        Tag::Double => match read_wide(bytes, at) {
            Ok(bits) => Ok((UnlinkedConstantPoolEntry::Double(bits), at + 8)),
            Err(e) => Err(e),
        },
        Tag::Utf8 => {
            let (length, start) = match read_index(bytes, at) {
                Ok(x) => x,
                Err(e) => { return Err(e); },
            };
            if !crate::bytes::available(bytes, start, length as usize) {
                return Err(Error::UnexpectedEof);
            }
            let end: usize = start + length as usize;
            let text = decode(slice_subrange(bytes, start, end));
            Ok((UnlinkedConstantPoolEntry::Utf8(text), end))
        },
        Tag::MethodHandle => {
            let code: u8 = match read_u1(bytes, at) {
                Ok(code) => code,
                Err(e) => { return Err(e); },
            };
            let ref_kind = match ReferenceKind::from(code).handle_kind() {
                Some(kind) => kind,
                None => { return Err(Error::UnknownReferenceKind(code)); },
            };
            match read_u2(bytes, at + 1) {
                Ok(ref_entry) => Ok(
                    (UnlinkedConstantPoolEntry::MethodHandle { ref_kind, ref_entry }, at + 3),
                ),
                Err(e) => Err(e),
            }
        },
    }
}

/// Reads the constant pool entry that starts at `pos`: its tag byte, then
/// the payload that the tag calls for. Returns the entry and the position
/// behind it.
///
/// Fails with `UnexpectedEof` where the bytes end within the entry, with
/// `UnknownTag` where the tag byte is the code of no tag, and with
/// `UnknownReferenceKind` where a method handle has a kind byte that is the
/// code of no reference kind; the kind of a method handle is looked at
/// before its index is read. The indices that the entry holds are not
/// looked at.
pub fn read_entry(bytes: &[u8], pos: usize) -> (r: Result<
    (UnlinkedConstantPoolEntry, usize),
    Error,
>)
    ensures
        read_as(r, entry_at(bytes@, pos as int)),
        r is Ok ==> r->Ok_0.1 <= bytes@.len(),
{
    match read_u1(bytes, pos) {
        Ok(code) => read_payload(Tag::from(code), bytes, pos + 1),
        Err(e) => Err(e),
    }
}

/// Where reading the entry at `pos` stopped, given that it failed with `e`.
fn stopped(bytes: &[u8], pos: usize, e: Error) -> (stop: usize)
    requires
        entry_at(bytes@, pos as int) == Err::<(RawEntry, int), Error>(e),
    ensures
        stop == entry_stop(bytes@, pos as int),
{
    let len: usize = bytes.len();
    match e {
        Error::UnknownTag(_) => pos + 1,
        Error::UnknownReferenceKind(_) => pos + 2,
        _ => if pos <= len {
            len
        } else {
            pos
        },
    }
}

/// Reads a constant pool table of `count` slots that starts at `start`.
/// Returns the entries in the order of the file, one for each slot, or the
/// error of the first entry that cannot be read, as `read_entry` says; and
/// with either the position behind the last byte that was taken.
///
/// The slot behind a `Long` or a `Double` is not read from the bytes: it
/// is filled with `Unusable`.
pub fn read_entries(bytes: &[u8], start: usize, count: u16) -> (r: (
    Result<Vec<UnlinkedConstantPoolEntry>, Error>,
    usize,
))
    ensures
        match entries_from(bytes@, start as int, count as nat) {
            Ok((entries, _)) => r.0 is Ok && raw_pool(r.0->Ok_0@) == entries,
            Err(e) => r.0 is Err && r.0->Err_0 == e,
        },
        r.0 is Ok ==> r.0->Ok_0@.len() == count,
        r.1 == entries_stop(bytes@, start as int, count as nat),
{
    let mut entries: Vec<UnlinkedConstantPoolEntry> = Vec::with_capacity(count as usize);
    let mut pos: usize = start;
    let mut filled: u16 = 0;
    while filled < count
        invariant
            filled <= count,
            entries@.len() == filled,
            entries_from(bytes@, start as int, count as nat) == prefixed(
                raw_pool(entries@),
                entries_from(bytes@, pos as int, (count - filled) as nat),
            ),
            entries_stop(bytes@, start as int, count as nat) == entries_stop(
                bytes@,
                pos as int,
                (count - filled) as nat,
            ),
        decreases count - filled,
    {
        let ghost before = raw_pool(entries@);
        let ghost left = (count - filled) as nat;
        let (entry, next) = match read_entry(bytes, pos) {
            Ok(read) => read,
            Err(e) => {
                return (Err(e), stopped(bytes, pos, e));
            },
        };
        let wide = match entry {
            UnlinkedConstantPoolEntry::Long(_) => true,
            UnlinkedConstantPoolEntry::Double(_) => true,
            _ => false,
        };
        let ghost raw = entry@;
        entries.push(entry);
        filled = filled + 1;
        assert(raw_pool(entries@) =~= before + seq![raw]);
        if wide && filled < count {
            entries.push(UnlinkedConstantPoolEntry::Unusable);
            filled = filled + 1;
            assert(raw_pool(entries@) =~= before + seq![raw, RawEntry::Unusable]);
            proof {
                match entries_from(bytes@, next as int, (left - 2) as nat) {
                    Ok((rest, _)) => {
                        assert(before + (seq![raw, RawEntry::Unusable] + rest) =~= (before
                            + seq![raw, RawEntry::Unusable]) + rest);
                    },
                    Err(_) => {},
                }
            }
        } else {
            proof {
                match entries_from(bytes@, next as int, (left - 1) as nat) {
                    Ok((rest, _)) => {
                        assert(before + (seq![raw] + rest) =~= (before + seq![raw]) + rest);
                    },
                    Err(_) => {},
                }
            }
        }
        pos = next;
    }
    (Ok(entries), pos)
}

} // verus!
