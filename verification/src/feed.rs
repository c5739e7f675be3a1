//! Decoding from a source that hands out its bytes piece by piece.
//!
//! The decoder reads a class file field by field, and how much it reads
//! depends on what it has read. A `Feed` gathers the bytes of such a source:
//! it says how many bytes the decoder wants next, given those it has, so
//! that no byte is asked of the source that decoding would not take.

use crate::bytes::{available, has_bytes, read_u1, read_u2, read_u4, u2_at, u4_at};
use crate::parser::constant_pool::{
    entries_from, entries_stop, entry_at, entry_stop, is_wide, read_entry, ReferenceKind, Tag,
};
use crate::pool::{RawEntry, UnlinkedConstantPoolEntry};
use crate::resolution::link_fails_as_link_error;
use crate::version::ClassFileVersion;
use crate::{bytes_read, class_file_of, declared_slots, declared_version, ClassFileView, Error, MAGIC};
use vstd::prelude::*;

verus! {

/// How many of the `n` bytes at `at` the bytes `b` lack.
pub open spec fn lacks(b: Seq<u8>, at: int, n: int) -> int {
    if has_bytes(b, at, n) {
        0
    } else {
        at + n - b.len()
    }
}

/// How many bytes the field lacks at which the entry at `pos` is cut; zero
/// where the bytes decide what the entry is.
pub open spec fn entry_lacks(b: Seq<u8>, pos: int) -> int {
    let at = pos + 1;
    if !has_bytes(b, pos, 1) {
        lacks(b, pos, 1)
    } else {
        match Tag::of(b[pos]) {
            Tag::Invalid => 0,
            Tag::Class | Tag::String | Tag::MethodType | Tag::Module | Tag::Package => lacks(
                b,
                at,
                2,
            ),
            Tag::Long | Tag::Double => lacks(b, at, 8),
            Tag::Utf8 => if has_bytes(b, at, 2) {
                lacks(b, at + 2, u2_at(b, at))
            } else {
                lacks(b, at, 2)
            },
            Tag::MethodHandle => if !has_bytes(b, at, 1) {
                lacks(b, at, 1)
            } else if ReferenceKind::of(b[at]).handle_kind() is None {
                0
            } else {
                lacks(b, at + 1, 2)
            },
            _ => lacks(b, at, 4),
        }
    }
}

/// How many slots an entry fills of the `count` that are left.
pub open spec fn slots_of(entry: RawEntry, count: nat) -> nat {
    if is_wide(entry) && count >= 2 {
        2
    } else {
        1
    }
}

/// How many bytes the decoder wants next for a table of `count` slots at
/// `pos`; zero where the bytes decide the outcome of reading it.
pub open spec fn table_wanted(b: Seq<u8>, pos: int, count: nat) -> int
    decreases count,
{
    if count == 0 {
        0
    } else {
        match entry_at(b, pos) {
            Ok((entry, next)) => table_wanted(b, next, (count - slots_of(entry, count)) as nat),
            Err(_) => entry_lacks(b, pos),
        }
    }
}

/// How many bytes the decoder wants next, where `b` is what it has; zero
/// where `b` decides the outcome.
pub open spec fn wanted(b: Seq<u8>) -> int {
    if !has_bytes(b, 0, 4) {
        lacks(b, 0, 4)
    } else if u4_at(b, 0) != MAGIC {
        0
    } else if !has_bytes(b, 4, 2) {
        lacks(b, 4, 2)
    } else if !has_bytes(b, 6, 2) {
        lacks(b, 6, 2)
    } else if !ClassFileVersion::latest().supports(declared_version(b)) {
        0
    } else if !has_bytes(b, 8, 2) {
        lacks(b, 8, 2)
    } else {
        table_wanted(b, 10, declared_slots(b))
    }
}

/// Whether `longer` starts with the bytes of `b`.
pub open spec fn extends(longer: Seq<u8>, b: Seq<u8>) -> bool {
    b.len() <= longer.len() && longer.subrange(0, b.len() as int) == b
}

/// An entry lacks bytes exactly where reading it meets the end of the
/// bytes.
pub proof fn entry_lacks_where_cut(b: Seq<u8>, pos: int)
    requires
        0 <= pos <= b.len(),
    ensures
        entry_lacks(b, pos) >= 0,
        entry_lacks(b, pos) > 0 <==> entry_at(b, pos) == Err::<(RawEntry, int), Error>(
            Error::UnexpectedEof,
        ),
{
}

/// An entry that the bytes decide is the same with more bytes behind them.
pub proof fn entry_at_stays(b: Seq<u8>, longer: Seq<u8>, pos: int)
    requires
        extends(longer, b),
        0 <= pos <= b.len(),
        entry_at(b, pos) != Err::<(RawEntry, int), Error>(Error::UnexpectedEof),
    ensures
        entry_at(longer, pos) == entry_at(b, pos),
{
    if has_bytes(b, pos, 1) && Tag::of(b[pos]) == Tag::Utf8 && has_bytes(b, pos + 1, 2) {
        let n = u2_at(b, pos + 1);
        if has_bytes(b, pos + 3, n) {
            assert(longer.subrange(pos + 3, pos + 3 + n) =~= b.subrange(pos + 3, pos + 3 + n));
        }
    }
}

/// With the bytes that a cut entry lacked, reading it ends with the bytes
/// or is cut again: nothing is left over.
pub proof fn entry_takes_what_it_lacked(b: Seq<u8>, longer: Seq<u8>, pos: int)
    requires
        extends(longer, b),
        0 <= pos <= b.len(),
        entry_lacks(b, pos) > 0,
        longer.len() == b.len() + entry_lacks(b, pos),
    ensures
        entry_stop(longer, pos) == longer.len(),
{
}

/// With the bytes that a cut table lacked, reading it ends with the bytes or
/// is cut again: nothing is left over.
pub proof fn table_takes_what_it_lacked(b: Seq<u8>, longer: Seq<u8>, pos: int, count: nat)
    requires
        extends(longer, b),
        0 <= pos <= b.len(),
        table_wanted(b, pos, count) > 0,
        longer.len() == b.len() + table_wanted(b, pos, count),
    ensures
        entries_stop(longer, pos, count) == longer.len(),
    decreases count,
{
    match entry_at(b, pos) {
        Ok((entry, next)) => {
            table_takes_what_it_lacked(b, longer, next, (count - slots_of(entry, count)) as nat);
        },
        Err(_) => {
            reveal_with_fuel(entries_stop, 2);
        },
    }
}

/// Whether the bytes end before a field that reading the header and the
/// table requires.
pub open spec fn cut(b: Seq<u8>) -> bool {
    if !has_bytes(b, 0, 4) {
        true
    } else if u4_at(b, 0) != MAGIC {
        false
    } else if !has_bytes(b, 4, 4) {
        true
    } else if !ClassFileVersion::latest().supports(declared_version(b)) {
        false
    } else if !has_bytes(b, 8, 2) {
        true
    } else {
        entries_from(b, 10, declared_slots(b)) == Err::<(Seq<RawEntry>, int), Error>(
            Error::UnexpectedEof,
        )
    }
}

/// A table wants bytes exactly where reading it meets the end of the bytes.
pub proof fn table_wanted_where_cut(b: Seq<u8>, pos: int, count: nat)
    requires
        0 <= pos <= b.len(),
    ensures
        table_wanted(b, pos, count) >= 0,
        table_wanted(b, pos, count) > 0 <==> entries_from(b, pos, count) == Err::<
            (Seq<RawEntry>, int),
            Error,
        >(Error::UnexpectedEof),
    decreases count,
{
    if count > 0 {
        match entry_at(b, pos) {
            Ok((entry, next)) => {
                table_wanted_where_cut(b, next, (count - slots_of(entry, count)) as nat);
            },
            Err(_) => {},
        }
    }
}

/// The decoder wants bytes exactly where the bytes end before a field that
/// it requires, which is where the class file is rejected for that. All the
/// bytes are taken then.
pub proof fn wanted_where_cut(b: Seq<u8>)
    ensures
        wanted(b) >= 0,
        wanted(b) > 0 <==> cut(b),
        cut(b) <==> class_file_of(b) == Err::<ClassFileView, Error>(Error::UnexpectedEof),
        cut(b) ==> bytes_read(b) == b.len(),
{
    if has_bytes(b, 0, 10) {
        match entries_from(b, 10, declared_slots(b)) {
            Ok((table, _)) => {
                link_fails_as_link_error(table);
            },
            Err(_) => {},
        }
        table_wanted_where_cut(b, 10, declared_slots(b));
        if table_wanted(b, 10, declared_slots(b)) > 0 {
            stop_where_cut(b, 10, declared_slots(b));
        }
    }
}

/// Reading a table that meets the end of the bytes takes them all.
proof fn stop_where_cut(b: Seq<u8>, pos: int, count: nat)
    requires
        0 <= pos <= b.len(),
        entries_from(b, pos, count) == Err::<(Seq<RawEntry>, int), Error>(Error::UnexpectedEof),
    ensures
        entries_stop(b, pos, count) == b.len(),
    decreases count,
{
    if count > 0 {
        match entry_at(b, pos) {
            Ok((entry, next)) => {
                stop_where_cut(b, next, (count - slots_of(entry, count)) as nat);
            },
            Err(_) => {},
        }
    }
}

/// No byte is asked for that decoding does not take: where the decoder
/// wants bytes and is given as many, it takes all the bytes it then has.
pub proof fn supplied_is_taken(b: Seq<u8>, more: Seq<u8>)
    requires
        wanted(b) > 0,
        more.len() == wanted(b),
    ensures
        bytes_read(b + more) == (b + more).len(),
{
    let longer = b + more;
    assert(longer.subrange(0, b.len() as int) =~= b);
    if has_bytes(b, 0, 10) {
        table_takes_what_it_lacked(b, longer, 10, declared_slots(b));
    }
}

/// Whether reading a table of `count` slots at `from` comes, entry by entry,
/// to the position `pos` with `left` slots to go.
pub open spec fn reaches(b: Seq<u8>, from: int, count: nat, pos: int, left: nat) -> bool
    decreases count,
{
    (from == pos && count == left) || (count > 0 && entry_at(b, from) is Ok && reaches(
        b,
        entry_at(b, from)->Ok_0.1,
        (count - slots_of(entry_at(b, from)->Ok_0.0, count)) as nat,
        pos,
        left,
    ))
}

/// What the table wants at the position that reading has come to is what
/// it wants as a whole.
proof fn lemma_reaches_wanted(b: Seq<u8>, from: int, count: nat, pos: int, left: nat)
    requires
        reaches(b, from, count, pos, left),
    ensures
        table_wanted(b, from, count) == table_wanted(b, pos, left),
    decreases count,
{
    if !(from == pos && count == left) {
        let (entry, next) = entry_at(b, from)->Ok_0;
        lemma_reaches_wanted(b, next, (count - slots_of(entry, count)) as nat, pos, left);
    }
}

/// Reading comes one entry further where the next entry is read.
proof fn lemma_reaches_next(b: Seq<u8>, from: int, count: nat, pos: int, left: nat)
    requires
        reaches(b, from, count, pos, left),
        left > 0,
        entry_at(b, pos) is Ok,
    ensures
        reaches(
            b,
            from,
            count,
            entry_at(b, pos)->Ok_0.1,
            (left - slots_of(entry_at(b, pos)->Ok_0.0, left)) as nat,
        ),
    decreases count,
{
    let (entry, next) = entry_at(b, pos)->Ok_0;
    let rest = (left - slots_of(entry, left)) as nat;
    if from == pos && count == left {
        assert(reaches(b, next, rest, next, rest));
    } else {
        let (first, behind) = entry_at(b, from)->Ok_0;
        lemma_reaches_next(b, behind, (count - slots_of(first, count)) as nat, pos, left);
    }
}

/// Reading comes as far with more bytes behind those it has read.
proof fn lemma_reaches_stays(
    b: Seq<u8>,
    longer: Seq<u8>,
    from: int,
    count: nat,
    pos: int,
    left: nat,
)
    requires
        extends(longer, b),
        0 <= from <= b.len(),
        reaches(b, from, count, pos, left),
    ensures
        reaches(longer, from, count, pos, left),
    decreases count,
{
    if !(from == pos && count == left) {
        let (entry, next) = entry_at(b, from)->Ok_0;
        lemma_reaches_stays(
            b,
            longer,
            next,
            (count - slots_of(entry, count)) as nat,
            pos,
            left,
        );
    }
}

/// How many of the `n` bytes at `at` are not there.
fn lacking(bytes: &[u8], at: usize, n: usize) -> (r: usize)
    requires
        at <= bytes@.len(),
    ensures
        r == lacks(bytes@, at as int, n as int),
{
    let have: usize = bytes.len() - at;
    if n <= have {
        0
    } else {
        n - have
    }
}

/// How many bytes the field lacks at which the entry at `pos` is cut.
fn entry_lacking(bytes: &[u8], pos: usize) -> (r: usize)
    requires
        pos <= bytes@.len(),
    ensures
        r == entry_lacks(bytes@, pos as int),
{
    if !available(bytes, pos, 1) {
        return lacking(bytes, pos, 1);
    }
    let at: usize = pos + 1;
    match Tag::from(bytes[pos]) {
        Tag::Invalid => 0,
        Tag::Class | Tag::String | Tag::MethodType | Tag::Module | Tag::Package => lacking(
            bytes,
            at,
            2,
        ),
        Tag::Long | Tag::Double => lacking(bytes, at, 8),
        Tag::Utf8 => match read_u2(bytes, at) {
            Ok(length) => lacking(bytes, at + 2, length as usize),
            Err(_) => lacking(bytes, at, 2),
        },
        Tag::MethodHandle => match read_u1(bytes, at) {
            Ok(code) => match ReferenceKind::from(code).handle_kind() {
                Some(_) => lacking(bytes, at + 1, 2),
                None => 0,
            },
            Err(_) => lacking(bytes, at, 1),
        },
        _ => lacking(bytes, at, 4),
    }
}

/// The bytes that a source has handed out so far, and how far the decoder
/// would have come with them.
pub struct Feed {
    bytes: Vec<u8>,
    /// Whether the header is read and accepted.
    started: bool,
    /// The position of the next entry of the table.
    pos: usize,
    /// The slots of the table that are still to be read.
    left: u16,
}

impl Feed {
    /// The bytes that were supplied, in their order.
    pub closed spec fn supplied(&self) -> Seq<u8> {
        self.bytes@
    }

    /// What holds of a feed at every step: it has come where reading the
    /// supplied bytes comes.
    pub closed spec fn wf(&self) -> bool {
        let b = self.bytes@;
        self.started ==> {
            &&& has_bytes(b, 0, 10)
            &&& u4_at(b, 0) == MAGIC
            &&& ClassFileVersion::latest().supports(declared_version(b))
            &&& 10 <= self.pos <= b.len()
            &&& reaches(b, 10, declared_slots(b), self.pos as int, self.left as nat)
        }
    }

    /// A feed to which nothing was supplied yet.
    pub fn new() -> (feed: Self)
        ensures
            feed.wf(),
            feed.supplied() == Seq::<u8>::empty(),
    {
        Feed { bytes: Vec::new(), started: false, pos: 0, left: 0 }
    }

    /// How many bytes the decoder wants next, given those that were
    /// supplied: the bytes that the field lacks at which reading is cut.
    /// Zero says that the supplied bytes decide the outcome.
    pub fn wanted(&mut self) -> (n: usize)
        requires
            old(self).wf(),
        ensures
            final(self).wf(),
            final(self).supplied() == old(self).supplied(),
            n == wanted(old(self).supplied()),
    {
        let bytes: &[u8] = self.bytes.as_slice();
        let mut pos: usize = self.pos;
        let mut left: u16 = self.left;
        if !self.started {
            let magic = match read_u4(bytes, 0) {
                Ok(v) => v,
                Err(_) => {
                    return lacking(bytes, 0, 4);
                },
            };
            if magic != MAGIC {
                return 0;
            }
            let minor = match read_u2(bytes, 4) {
                Ok(v) => v,
                Err(_) => {
                    return lacking(bytes, 4, 2);
                },
            };
            let major = match read_u2(bytes, 6) {
                Ok(v) => v,
                Err(_) => {
                    return lacking(bytes, 6, 2);
                },
            };
            if !ClassFileVersion::latest().supports(ClassFileVersion::new(major, minor)) {
                return 0;
            }
            let count = match read_u2(bytes, 8) {
                Ok(v) => v,
                Err(_) => {
                    return lacking(bytes, 8, 2);
                },
            };
            pos = 10;
            left = if count == 0 {
                0
            } else {
                count - 1
            };
        }
        proof {
            lemma_reaches_wanted(bytes@, 10, declared_slots(bytes@), pos as int, left as nat);
        }
        let mut answer: usize = 0;
        while left > 0
            invariant_except_break
                answer == 0,
            invariant
                bytes@ == self.bytes@,
                10 <= pos <= bytes@.len(),
                has_bytes(bytes@, 0, 10),
                reaches(bytes@, 10, declared_slots(bytes@), pos as int, left as nat),
                table_wanted(bytes@, 10, declared_slots(bytes@)) == table_wanted(
                    bytes@,
                    pos as int,
                    left as nat,
                ),
            ensures
                answer == table_wanted(bytes@, 10, declared_slots(bytes@)),
                10 <= pos <= bytes@.len(),
                reaches(bytes@, 10, declared_slots(bytes@), pos as int, left as nat),
            decreases left,
        {
            match read_entry(bytes, pos) {
                Ok((entry, next)) => {
                    let wide = match entry {
                        UnlinkedConstantPoolEntry::Long(_) => true,
                        UnlinkedConstantPoolEntry::Double(_) => true,
                        _ => false,
                    };
                    proof {
                        lemma_reaches_next(
                            bytes@,
                            10,
                            declared_slots(bytes@),
                            pos as int,
                            left as nat,
                        );
                    }
                    left = if wide && left >= 2 {
                        left - 2
                    } else {
                        left - 1
                    };
                    pos = next;
                },
                Err(_) => {
                    answer = entry_lacking(bytes, pos);
                    break ;
                },
            }
        }
        self.started = true;
        self.pos = pos;
        self.left = left;
        answer
    }

    /// Supplies the bytes that the source handed out next.
    pub fn supply(&mut self, more: &[u8])
        requires
            old(self).wf(),
        ensures
            final(self).wf(),
            final(self).supplied() == old(self).supplied() + more@,
    {
        let ghost before = self.bytes@;
        self.bytes.extend_from_slice(more);
        proof {
            let longer = self.bytes@;
            assert(longer.subrange(0, before.len() as int) =~= before);
            if self.started {
                lemma_reaches_stays(
                    before,
                    longer,
                    10,
                    declared_slots(before),
                    self.pos as int,
                    self.left as nat,
                );
            }
        }
    }

    /// The bytes that were supplied.
    pub fn into_bytes(self) -> (bytes: Vec<u8>)
        ensures
            bytes@ == self.supplied(),
    {
        self.bytes
    }
}

} // verus!
