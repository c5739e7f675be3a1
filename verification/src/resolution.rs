//! What linking a constant pool means.
//!
//! An entry is resolved on demand. Resolving an entry resolves the entries it
//! refers to, in the order in which it names them, checks that each is of the
//! kind it needs, and puts them together. An index that is being resolved is
//! not free; a reference to an index that is not free is a cycle.

use crate::parser::constant_pool::Tag;
use crate::pool::{
    DynamicView, EntryView, MethodHandleView, NameAndTypeView, RawEntry, RefView,
};
use crate::Error;
use vstd::prelude::*;
use vstd::set_lib::{lemma_int_range, set_int_range};

verus! {

/// The kind of entry that a reference needs at its target.
#[derive(Debug, Clone, Copy, PartialEq, Eq, Structural)]
pub enum Want {
    /// A `Utf8` entry.
    Text,
    /// A `Class` entry.
    Class,
    /// A `NameAndType` entry.
    NameAndType,
    /// A `FieldRef`, a `MethodRef` or an `InterfaceMethodRef` entry.
    Member,
    /// An entry of any kind.
    Any,
}

/// The references that an entry holds, in the order in which they are
/// resolved, each with the kind of entry it needs.
#[derive(Debug, Clone, Copy, PartialEq, Eq, Structural)]
pub enum Links {
    Nothing,
    One(u16, Want),
    Two(u16, Want, u16, Want),
}

/// Whether a reference that needs `want` accepts an entry with tag `tag`.
pub open spec fn accepts(want: Want, tag: Tag) -> bool {
    match want {
        Want::Text => tag == Tag::Utf8,
        Want::Class => tag == Tag::Class,
        Want::NameAndType => tag == Tag::NameAndType,
        Want::Member => tag == Tag::FieldRef || tag == Tag::MethodRef || tag
            == Tag::InterfaceMethodRef,
        Want::Any => true,
    }
}

/// How many references deep an entry with this tag reaches: a reference
/// accepts only entries that reach less deep than the entry that holds it.
pub open spec fn depth_of(tag: Tag) -> nat {
    match tag {
        Tag::Class | Tag::String | Tag::MethodType | Tag::Module | Tag::Package
        | Tag::NameAndType => 1,
        Tag::FieldRef | Tag::MethodRef | Tag::InterfaceMethodRef | Tag::Dynamic
        | Tag::InvokeDynamic => 2,
        Tag::MethodHandle => 3,
        _ => 0,
    }
}

/// The tag of an unlinked entry; `Invalid` for the unusable slot.
pub open spec fn raw_tag(e: RawEntry) -> Tag {
    match e {
        RawEntry::Class(_) => Tag::Class,
        RawEntry::FieldRef(_) => Tag::FieldRef,
        RawEntry::MethodRef(_) => Tag::MethodRef,
        RawEntry::InterfaceMethodRef(_) => Tag::InterfaceMethodRef,
        RawEntry::String(_) => Tag::String,
        RawEntry::Integer(_) => Tag::Integer,
        RawEntry::Float(_) => Tag::Float,
        RawEntry::Long(_) => Tag::Long,
        RawEntry::Double(_) => Tag::Double,
        RawEntry::NameAndType { .. } => Tag::NameAndType,
        RawEntry::Utf8(_) => Tag::Utf8,
        RawEntry::MethodHandle { .. } => Tag::MethodHandle,
        RawEntry::MethodType(_) => Tag::MethodType,
        RawEntry::Dynamic(_, _) => Tag::Dynamic,
        RawEntry::InvokeDynamic(_, _) => Tag::InvokeDynamic,
        RawEntry::Module(_) => Tag::Module,
        RawEntry::Package(_) => Tag::Package,
        RawEntry::Unusable => Tag::Invalid,
    }
}

/// The tag of a linked entry.
pub open spec fn view_tag(v: EntryView) -> Tag {
    match v {
        EntryView::Class(_) => Tag::Class,
        EntryView::FieldRef(_) => Tag::FieldRef,
        EntryView::MethodRef(_) => Tag::MethodRef,
        EntryView::InterfaceMethodRef(_) => Tag::InterfaceMethodRef,
        EntryView::String(_) => Tag::String,
        EntryView::Integer(_) => Tag::Integer,
        EntryView::Float(_) => Tag::Float,
        EntryView::Long(_) => Tag::Long,
        EntryView::Double(_) => Tag::Double,
        EntryView::NameAndType(_) => Tag::NameAndType,
        EntryView::Utf8(_) => Tag::Utf8,
        EntryView::MethodHandle(_) => Tag::MethodHandle,
        EntryView::MethodType(_) => Tag::MethodType,
        EntryView::Dynamic(_) => Tag::Dynamic,
        EntryView::InvokeDynamic(_) => Tag::InvokeDynamic,
        EntryView::Module(_) => Tag::Module,
        EntryView::Package(_) => Tag::Package,
    }
}

/// The references of an unlinked entry.
pub open spec fn links(e: RawEntry) -> Links {
    match e {
        RawEntry::Class(name) => Links::One(name, Want::Text),
        RawEntry::String(text) => Links::One(text, Want::Text),
        RawEntry::MethodType(descriptor) => Links::One(descriptor, Want::Text),
        RawEntry::Module(name) => Links::One(name, Want::Text),
        RawEntry::Package(name) => Links::One(name, Want::Text),
        RawEntry::NameAndType { name, descriptor } => Links::Two(
            name,
            Want::Text,
            descriptor,
            Want::Text,
        ),
        RawEntry::FieldRef(r) => Links::Two(r.class, Want::Class, r.name_and_ty, Want::NameAndType),
        RawEntry::MethodRef(r) => Links::Two(
            r.class,
            Want::Class,
            r.name_and_ty,
            Want::NameAndType,
        ),
        RawEntry::InterfaceMethodRef(r) => Links::Two(
            r.class,
            Want::Class,
            r.name_and_ty,
            Want::NameAndType,
        ),
        RawEntry::MethodHandle { ref_kind, ref_entry } => Links::One(ref_entry, Want::Member),
        RawEntry::Dynamic(_, name_and_ty) => Links::One(name_and_ty, Want::NameAndType),
        RawEntry::InvokeDynamic(_, name_and_ty) => Links::One(name_and_ty, Want::NameAndType),
        RawEntry::Integer(_) => Links::Nothing,
        RawEntry::Float(_) => Links::Nothing,
        RawEntry::Long(_) => Links::Nothing,
        RawEntry::Double(_) => Links::Nothing,
        RawEntry::Utf8(_) => Links::Nothing,
        RawEntry::Unusable => Links::Nothing,
    }
}

/// The text of a `Utf8` or a `Class` entry.
pub open spec fn text_of(v: EntryView) -> Seq<char> {
    match v {
        EntryView::Utf8(text) => text,
        EntryView::Class(name) => name,
        _ => Seq::empty(),
    }
}

/// What a `NameAndType` entry holds.
pub open spec fn name_and_type_of(v: EntryView) -> NameAndTypeView {
    match v {
        EntryView::NameAndType(n) => n,
        _ => NameAndTypeView { name: Seq::empty(), descriptor: Seq::empty() },
    }
}

/// What a `FieldRef`, a `MethodRef` or an `InterfaceMethodRef` entry holds.
pub open spec fn member_of(v: EntryView) -> RefView {
    match v {
        EntryView::FieldRef(r) => r,
        EntryView::MethodRef(r) => r,
        EntryView::InterfaceMethodRef(r) => r,
        _ => RefView { class: Seq::empty(), name_and_ty: name_and_type_of(v) },
    }
}

/// The linked form of an entry that refers to no other entry.
pub open spec fn literal(e: RawEntry) -> EntryView {
    match e {
        RawEntry::Integer(v) => EntryView::Integer(v),
        RawEntry::Float(bits) => EntryView::Float(bits),
        RawEntry::Long(v) => EntryView::Long(v),
        RawEntry::Double(bits) => EntryView::Double(bits),
        RawEntry::Utf8(text) => EntryView::Utf8(text),
        _ => EntryView::Utf8(Seq::empty()),
    }
}

/// The linked form of an entry with one reference, whose target is `a`.
pub open spec fn with_one(e: RawEntry, a: EntryView) -> EntryView {
    match e {
        RawEntry::Class(_) => EntryView::Class(text_of(a)),
        RawEntry::String(_) => EntryView::String(text_of(a)),
        RawEntry::MethodType(_) => EntryView::MethodType(text_of(a)),
        RawEntry::Module(_) => EntryView::Module(text_of(a)),
        RawEntry::Package(_) => EntryView::Package(text_of(a)),
        RawEntry::MethodHandle { ref_kind, ref_entry } => EntryView::MethodHandle(
            MethodHandleView { ref_kind, ref_entry: member_of(a) },
        ),
        RawEntry::Dynamic(bootstrap, _) => EntryView::Dynamic(
            DynamicView { bootstrap_attr_idx: bootstrap as int, name_and_ty: name_and_type_of(a) },
        ),
        RawEntry::InvokeDynamic(bootstrap, _) => EntryView::InvokeDynamic(
            DynamicView { bootstrap_attr_idx: bootstrap as int, name_and_ty: name_and_type_of(a) },
        ),
        _ => a,
    }
}

/// The linked form of an entry with two references, whose targets are `a`
/// and `b`.
pub open spec fn with_two(e: RawEntry, a: EntryView, b: EntryView) -> EntryView {
    let member = RefView { class: text_of(a), name_and_ty: name_and_type_of(b) };
    match e {
        RawEntry::NameAndType { .. } => EntryView::NameAndType(
            NameAndTypeView { name: text_of(a), descriptor: text_of(b) },
        ),
        RawEntry::FieldRef(_) => EntryView::FieldRef(member),
        RawEntry::MethodRef(_) => EntryView::MethodRef(member),
        RawEntry::InterfaceMethodRef(_) => EntryView::InterfaceMethodRef(member),
        _ => a,
    }
}

/// Whether `index` is an index of the pool at which an entry stands: not
/// zero, not past the end, and not a slot that the table marks as unusable,
/// as it does the slot behind an eight-byte literal.
pub open spec fn usable(pool: Seq<RawEntry>, index: u16) -> bool {
    1 <= index <= pool.len() && !(pool[index - 1] is Unusable)
}

/// The error for a reference from `referrer` to `index` that finds no entry
/// of the kind it needs.
pub open spec fn invalid(index: u16, referrer: u16) -> Error {
    Error::InvalidIndex { index, referrer }
}

/// What the reference from `referrer` to `index` makes of the outcome `r` of
/// resolving `index`: an entry of another kind than `want` is an invalid
/// index.
pub open spec fn expect(r: Result<EntryView, Error>, want: Want, index: u16, referrer: u16) -> Result<
    EntryView,
    Error,
> {
    match r {
        Ok(v) => if accepts(want, view_tag(v)) {
            Ok(v)
        } else {
            Err(invalid(index, referrer))
        },
        Err(e) => Err(e),
    }
}

/// The indices of a pool: one up to its length.
pub open spec fn every_index(pool: Seq<RawEntry>) -> Set<int> {
    Set::new(|i: int| 1 <= i <= pool.len())
}

/// The outcome of resolving `index` for a reference from the entry at
/// `referrer` (zero where the reference comes from outside the pool), while
/// the indices outside `free` are being resolved.
///
/// An index at which no entry stands is invalid. An index that is not free
/// is a cycle. Else the entry's own references are resolved in order, with
/// `index` no longer free; the first of them that fails, or that finds an
/// entry of another kind than it needs, decides the error.
pub open spec fn resolve(pool: Seq<RawEntry>, index: u16, referrer: u16, free: Set<int>) -> Result<
    EntryView,
    Error,
>
    decreases free.len(),
    when free.finite()
{
    if !usable(pool, index) {
        Err(invalid(index, referrer))
    } else if !free.contains(index as int) {
        Err(Error::CyclicReference)
    } else {
        let rest = free.remove(index as int);
        let e = pool[index - 1];
        match links(e) {
            Links::Nothing => Ok(literal(e)),
            Links::One(first, want) => match expect(
                resolve(pool, first, index, rest),
                want,
                first,
                index,
            ) {
                Ok(a) => Ok(with_one(e, a)),
                Err(err) => Err(err),
            },
            Links::Two(first, want_first, second, want_second) => match expect(
                resolve(pool, first, index, rest),
                want_first,
                first,
                index,
            ) {
                Ok(a) => match expect(
                    resolve(pool, second, index, rest),
                    want_second,
                    second,
                    index,
                ) {
                    Ok(b) => Ok(with_two(e, a, b)),
                    Err(err) => Err(err),
                },
                Err(err) => Err(err),
            },
        }
    }
}

/// The outcome of resolving `index` from outside the pool, with nothing
/// being resolved.
pub open spec fn resolve_index(pool: Seq<RawEntry>, index: u16) -> Result<EntryView, Error> {
    resolve(pool, index, 0, every_index(pool))
}

/// The error of the first entry behind position `from` that does not
/// resolve, if any. The unusable slots are passed over.
pub open spec fn first_error(pool: Seq<RawEntry>, from: int) -> Option<Error>
    decreases pool.len() - from,
{
    if from < 0 || from >= pool.len() {
        None
    } else if !(pool[from] is Unusable) && resolve_index(pool, (from + 1) as u16) is Err {
        Some(resolve_index(pool, (from + 1) as u16)->Err_0)
    } else {
        first_error(pool, from + 1)
    }
}

/// What stands in slot `i`, counted from zero, of the linked pool.
pub open spec fn linked_slot(pool: Seq<RawEntry>, i: int) -> Option<EntryView> {
    match resolve_index(pool, (i + 1) as u16) {
        Ok(v) => Some(v),
        Err(_) => None,
    }
}

/// The linked pool: every entry resolved, in the order of the indices. The
/// first entry that does not resolve decides the error.
pub open spec fn link(pool: Seq<RawEntry>) -> Result<Seq<Option<EntryView>>, Error> {
    match first_error(pool, 0) {
        Some(e) => Err(e),
        None => Ok(Seq::new(pool.len(), |i: int| linked_slot(pool, i))),
    }
}

/// The first reference of an entry, if it has one.
pub open spec fn first_link(e: RawEntry) -> Option<u16> {
    match links(e) {
        Links::Nothing => None,
        Links::One(first, _) => Some(first),
        Links::Two(first, _, _, _) => Some(first),
    }
}

/// The indices of a pool are as many as its slots.
pub proof fn indices_are_finite(pool: Seq<RawEntry>)
    ensures
        every_index(pool).finite(),
        every_index(pool).len() == pool.len(),
{
    lemma_int_range(1, pool.len() as int + 1);
    assert(every_index(pool) =~= set_int_range(1, pool.len() as int + 1));
}

/// A reference to index zero, to an index past the end of the pool, or to
/// the unusable slot behind an eight-byte literal fails as an invalid index,
/// whatever else the pool holds.
pub proof fn unusable_index_is_invalid(
    pool: Seq<RawEntry>,
    index: u16,
    referrer: u16,
    free: Set<int>,
)
    requires
        free.finite(),
        index == 0 || index > pool.len() || pool[index - 1] is Unusable,
    ensures
        resolve(pool, index, referrer, free) == Err::<EntryView, Error>(
            Error::InvalidIndex { index, referrer },
        ),
{
}

/// Index zero, an index past the end of the pool and an unusable slot do
/// not resolve: a reference to one of them from outside the pool is an
/// invalid index.
pub proof fn unusable_index_does_not_resolve(pool: Seq<RawEntry>, index: u16)
    requires
        index == 0 || index > pool.len() || pool[index - 1] is Unusable,
    ensures
        resolve_index(pool, index) == Err::<EntryView, Error>(
            Error::InvalidIndex { index, referrer: 0 },
        ),
{
    indices_are_finite(pool);
}

/// An entry whose first reference names index zero, an index past the end
/// of the pool or an unusable slot fails with an invalid index that tells
/// the index that was named and the index of the entry that named it.
pub proof fn reference_to_unusable_is_invalid(
    pool: Seq<RawEntry>,
    index: u16,
    referrer: u16,
    free: Set<int>,
)
    requires
        free.finite(),
        usable(pool, index),
        free.contains(index as int),
        first_link(pool[index - 1]) is Some,
        !usable(pool, first_link(pool[index - 1])->0),
    ensures
        resolve(pool, index, referrer, free) == Err::<EntryView, Error>(
            Error::InvalidIndex { index: first_link(pool[index - 1])->0, referrer: index },
        ),
{
    reveal_with_fuel(resolve, 2);
}

/// Whether `e` is an error of linking: an invalid index or a cycle.
pub open spec fn is_link_error(e: Error) -> bool {
    e is InvalidIndex || e is CyclicReference
}

/// Resolving fails with no other error than an invalid index or a cycle.
pub proof fn resolve_fails_as_link_error(
    pool: Seq<RawEntry>,
    index: u16,
    referrer: u16,
    free: Set<int>,
)
    requires
        free.finite(),
    ensures
        resolve(pool, index, referrer, free) matches Err(e) ==> is_link_error(e),
    decreases free.len(),
{
    if usable(pool, index) && free.contains(index as int) {
        let rest = free.remove(index as int);
        match links(pool[index - 1]) {
            Links::Nothing => {},
            Links::One(first, _) => {
                resolve_fails_as_link_error(pool, first, index, rest);
            },
            Links::Two(first, _, second, _) => {
                resolve_fails_as_link_error(pool, first, index, rest);
                resolve_fails_as_link_error(pool, second, index, rest);
            },
        }
    }
}

/// Linking fails with no other error than an invalid index or a cycle.
pub proof fn link_fails_as_link_error(pool: Seq<RawEntry>)
    ensures
        link(pool) matches Err(e) ==> is_link_error(e),
{
    first_error_is_link_error(pool, 0);
}

/// The first error of a pool is an invalid index or a cycle.
proof fn first_error_is_link_error(pool: Seq<RawEntry>, from: int)
    ensures
        first_error(pool, from) matches Some(e) ==> is_link_error(e),
    decreases pool.len() - from,
{
    if 0 <= from < pool.len() {
        indices_are_finite(pool);
        resolve_fails_as_link_error(pool, (from + 1) as u16, 0, every_index(pool));
        first_error_is_link_error(pool, from + 1);
    }
}

/// Only an index at which an entry stands resolves, and the linked entry
/// is of the kind of the entry that stands there.
pub proof fn resolved_is_usable(pool: Seq<RawEntry>, index: u16, referrer: u16, free: Set<int>)
    requires
        free.finite(),
        resolve(pool, index, referrer, free) is Ok,
    ensures
        usable(pool, index),
        free.contains(index as int),
        view_tag(resolve(pool, index, referrer, free)->Ok_0) == raw_tag(pool[index - 1]),
{
}

/// An entry that resolves while some indices are in progress resolves to
/// the same linked entry while fewer are, and for every referrer.
pub proof fn resolved_with_more_free(
    pool: Seq<RawEntry>,
    index: u16,
    referrer: u16,
    free: Set<int>,
    other: u16,
    more: Set<int>,
)
    requires
        more.finite(),
        free.subset_of(more),
        resolve(pool, index, referrer, free) is Ok,
    ensures
        resolve(pool, index, other, more) == resolve(pool, index, referrer, free),
    decreases free.len(),
{
    let rest = free.remove(index as int);
    let more_rest = more.remove(index as int);
    match links(pool[index - 1]) {
        Links::Nothing => {},
        Links::One(first, _) => {
            resolved_with_more_free(pool, first, index, rest, index, more_rest);
        },
        Links::Two(first, _, second, _) => {
            resolved_with_more_free(pool, first, index, rest, index, more_rest);
            resolved_with_more_free(pool, second, index, rest, index, more_rest);
        },
    }
}

/// A linked entry holds the linked entries at the indices that its unlinked
/// entry names: each of them resolves on its own, is of the kind that the
/// reference needs, and is what the linked entry was put together from.
pub proof fn linked_entry_holds_linked_entries(pool: Seq<RawEntry>, index: u16)
    requires
        resolve_index(pool, index) is Ok,
    ensures
        usable(pool, index),
        match links(pool[index - 1]) {
            Links::Nothing => resolve_index(pool, index) == Ok::<EntryView, Error>(
                literal(pool[index - 1]),
            ),
            Links::One(first, want) => {
                &&& resolve_index(pool, first) matches Ok(a)
                &&& accepts(want, view_tag(a))
                &&& resolve_index(pool, index) == Ok::<EntryView, Error>(
                    with_one(pool[index - 1], a),
                )
            },
            Links::Two(first, want_first, second, want_second) => {
                &&& resolve_index(pool, first) matches Ok(a)
                &&& resolve_index(pool, second) matches Ok(b)
                &&& accepts(want_first, view_tag(a))
                &&& accepts(want_second, view_tag(b))
                &&& resolve_index(pool, index) == Ok::<EntryView, Error>(
                    with_two(pool[index - 1], a, b),
                )
            },
        },
{
    indices_are_finite(pool);
    let all = every_index(pool);
    let rest = all.remove(index as int);
    match links(pool[index - 1]) {
        Links::Nothing => {},
        Links::One(first, _) => {
            resolved_with_more_free(pool, first, index, rest, 0, all);
        },
        Links::Two(first, _, second, _) => {
            resolved_with_more_free(pool, first, index, rest, 0, all);
            resolved_with_more_free(pool, second, index, rest, 0, all);
        },
    }
}

/// A reference that leads back to an entry in progress is a cycle.
///
/// `chain` is a path of first references: each of its entries refers first
/// to the next one, and the last refers first to `back`, which is on the
/// path itself or otherwise not free. Resolving the start of the path then
/// fails with `CyclicReference`.
pub proof fn cycle_is_detected(
    pool: Seq<RawEntry>,
    chain: Seq<u16>,
    back: u16,
    referrer: u16,
    free: Set<int>,
)
    requires
        free.finite(),
        chain.len() >= 1,
        forall|k: int| 0 <= k < chain.len() ==> usable(pool, #[trigger] chain[k]),
        forall|k: int|
            0 <= k < chain.len() - 1 ==> first_link(pool[#[trigger] chain[k] - 1]) == Some(
                chain[k + 1],
            ),
        first_link(pool[chain.last() - 1]) == Some(back),
        usable(pool, back),
        chain.contains(back) || !free.contains(back as int),
    ensures
        resolve(pool, chain[0], referrer, free) == Err::<EntryView, Error>(Error::CyclicReference),
    decreases chain.len(),
{
    reveal_with_fuel(resolve, 2);
    let start = chain[0];
    if free.contains(start as int) {
        let rest = free.remove(start as int);
        if chain.len() > 1 {
            let tail = chain.drop_first();
            if chain.contains(back) && back != start {
                let k = choose|k: int| 0 <= k < chain.len() && chain[k] == back;
                assert(tail[k - 1] == back);
            }
            cycle_is_detected(pool, tail, back, start, rest);
        }
    }
}

/// A path of first references that leads back into itself is a cycle: the
/// entries on it do not resolve.
///
/// Each entry of `chain` refers first to the next one, and the last refers
/// first to `back`, which is on the path. A path of one entry is an entry
/// that refers first to itself.
pub proof fn closed_chain_is_a_cycle(pool: Seq<RawEntry>, chain: Seq<u16>, back: u16)
    requires
        chain.len() >= 1,
        forall|k: int| 0 <= k < chain.len() ==> usable(pool, #[trigger] chain[k]),
        forall|k: int|
            0 <= k < chain.len() - 1 ==> first_link(pool[#[trigger] chain[k] - 1]) == Some(
                chain[k + 1],
            ),
        first_link(pool[chain.last() - 1]) == Some(back),
        chain.contains(back),
    ensures
        resolve_index(pool, chain[0]) == Err::<EntryView, Error>(Error::CyclicReference),
{
    indices_are_finite(pool);
    cycle_is_detected(pool, chain, back, 0, every_index(pool));
}

/// Whether the entry at `index` names an index at which no entry stands.
pub open spec fn names_unusable(pool: Seq<RawEntry>, index: u16) -> bool {
    usable(pool, index) && match links(pool[index - 1]) {
        Links::Nothing => false,
        Links::One(first, _) => !usable(pool, first),
        Links::Two(first, _, second, _) => !usable(pool, first) || !usable(pool, second),
    }
}

/// The first entry that does not resolve, looked for behind position
/// `from`, is found where there is one.
pub proof fn first_error_finds(pool: Seq<RawEntry>, from: int, index: u16)
    requires
        0 <= from < index <= pool.len(),
        !(pool[index - 1] is Unusable),
        resolve_index(pool, index) is Err,
    ensures
        first_error(pool, from) is Some,
    decreases pool.len() - from,
{
    if from + 1 < index {
        if !(pool[from] is Unusable) && resolve_index(pool, (from + 1) as u16) is Err {
        } else {
            first_error_finds(pool, from + 1, index);
        }
    }
}

/// A pool in which an entry names index zero, an index past the end, or
/// an unusable slot does not link.
pub proof fn unusable_reference_fails_link(pool: Seq<RawEntry>, index: u16)
    requires
        pool.len() <= u16::MAX,
        names_unusable(pool, index),
    ensures
        resolve_index(pool, index) is Err,
        link(pool) is Err,
{
    reveal_with_fuel(resolve, 2);
    indices_are_finite(pool);
    first_error_finds(pool, 0, index);
}

/// Where no entry fails, none is found to fail.
pub proof fn first_error_none(pool: Seq<RawEntry>, from: int)
    requires
        0 <= from,
        pool.len() <= u16::MAX,
        first_error(pool, from) is None,
    ensures
        forall|i: int|
            from <= i < pool.len() && !(pool[i] is Unusable) ==> (#[trigger] linked_slot(pool, i))
                is Some,
    decreases pool.len() - from,
{
    if from < pool.len() {
        first_error_none(pool, from + 1);
    }
}

/// A linked pool has one slot for each slot of the table. Its unusable
/// slots are those of the table, and every other slot holds an entry of
/// the kind of the unlinked entry.
pub proof fn linked_pool_mirrors_table(pool: Seq<RawEntry>)
    requires
        pool.len() <= u16::MAX,
        link(pool) is Ok,
    ensures
        link(pool)->Ok_0.len() == pool.len(),
        forall|i: int|
            0 <= i < pool.len() ==> (match (#[trigger] link(pool)->Ok_0[i]) {
                None => pool[i] is Unusable,
                Some(v) => !(pool[i] is Unusable) && view_tag(v) == raw_tag(pool[i]),
            }),
{
    indices_are_finite(pool);
    first_error_none(pool, 0);
}

/// Whether the entry at `index` and, down to `depth` references deep, the
/// entries that it refers to stand in the pool and are of the kinds that the
/// references to them need.
pub open spec fn well_linked(pool: Seq<RawEntry>, index: u16, depth: nat) -> bool
    decreases depth,
{
    usable(pool, index) && match links(pool[index - 1]) {
        Links::Nothing => true,
        Links::One(first, want) => {
            &&& depth > 0
            &&& well_linked(pool, first, (depth - 1) as nat)
            &&& accepts(want, raw_tag(pool[first - 1]))
        },
        Links::Two(first, want_first, second, want_second) => {
            &&& depth > 0
            &&& well_linked(pool, first, (depth - 1) as nat)
            &&& well_linked(pool, second, (depth - 1) as nat)
            &&& accepts(want_first, raw_tag(pool[first - 1]))
            &&& accepts(want_second, raw_tag(pool[second - 1]))
        },
    }
}

/// A well-linked entry resolves as long as the indices of the entries that
/// reach no deeper than itself are free.
proof fn well_linked_resolves(
    pool: Seq<RawEntry>,
    index: u16,
    referrer: u16,
    free: Set<int>,
    depth: nat,
)
    requires
        free.finite(),
        well_linked(pool, index, depth),
        forall|k: int|
            1 <= k <= pool.len() && depth_of(raw_tag(#[trigger] pool[k - 1])) <= depth_of(
                raw_tag(pool[index - 1]),
            ) ==> free.contains(k),
    ensures
        resolve(pool, index, referrer, free) is Ok,
    decreases depth,
{
    let rest = free.remove(index as int);
    match links(pool[index - 1]) {
        Links::Nothing => {},
        Links::One(first, _) => {
            well_linked_resolves(pool, first, index, rest, (depth - 1) as nat);
            resolved_is_usable(pool, first, index, rest);
        },
        Links::Two(first, _, second, _) => {
            well_linked_resolves(pool, first, index, rest, (depth - 1) as nat);
            well_linked_resolves(pool, second, index, rest, (depth - 1) as nat);
            resolved_is_usable(pool, first, index, rest);
            resolved_is_usable(pool, second, index, rest);
        },
    }
}

/// An entry that resolves is well linked, to the depth that its tag reaches.
proof fn resolved_is_well_linked(pool: Seq<RawEntry>, index: u16, depth: nat)
    requires
        resolve_index(pool, index) is Ok,
        depth_of(raw_tag(pool[index - 1])) <= depth,
    ensures
        well_linked(pool, index, depth),
    decreases depth,
{
    indices_are_finite(pool);
    linked_entry_holds_linked_entries(pool, index);
    match links(pool[index - 1]) {
        Links::Nothing => {},
        Links::One(first, _) => {
            resolved_is_usable(pool, first, 0, every_index(pool));
            resolved_is_well_linked(pool, first, (depth - 1) as nat);
        },
        Links::Two(first, _, second, _) => {
            resolved_is_usable(pool, first, 0, every_index(pool));
            resolved_is_usable(pool, second, 0, every_index(pool));
            resolved_is_well_linked(pool, first, (depth - 1) as nat);
            resolved_is_well_linked(pool, second, (depth - 1) as nat);
        },
    }
}

/// An index resolves exactly if its entry is well linked: the entry and
/// all that it refers to, three references deep, stand in the pool and are
/// of the kinds that the references to them need. No entry reaches deeper.
pub proof fn resolves_iff_well_linked(pool: Seq<RawEntry>, index: u16)
    ensures
        resolve_index(pool, index) is Ok <==> well_linked(pool, index, 3),
{
    indices_are_finite(pool);
    if well_linked(pool, index, 3) {
        well_linked_resolves(pool, index, 0, every_index(pool), 3);
    }
    if resolve_index(pool, index) is Ok {
        resolved_is_well_linked(pool, index, 3);
    }
}

/// A pool links exactly if every entry in it is well linked.
pub proof fn links_iff_well_linked(pool: Seq<RawEntry>)
    requires
        pool.len() <= u16::MAX,
    ensures
        link(pool) is Ok <==> forall|index: u16| #[trigger]
            usable(pool, index) ==> well_linked(pool, index, 3),
{
    if link(pool) is Ok {
        first_error_none(pool, 0);
        assert forall|index: u16| #[trigger] usable(pool, index) implies well_linked(
            pool,
            index,
            3,
        ) by {
            assert(linked_slot(pool, index - 1) is Some);
            resolves_iff_well_linked(pool, index);
        }
    } else {
        let e = first_error(pool, 0)->0;
        let index = first_failing(pool, 0);
        resolves_iff_well_linked(pool, index);
    }
}

/// The index of the first entry behind position `from` that does not
/// resolve.
proof fn first_failing(pool: Seq<RawEntry>, from: int) -> (index: u16)
    requires
        0 <= from,
        pool.len() <= u16::MAX,
        first_error(pool, from) is Some,
    ensures
        usable(pool, index),
        resolve_index(pool, index) is Err,
    decreases pool.len() - from,
{
    if !(pool[from] is Unusable) && resolve_index(pool, (from + 1) as u16) is Err {
        (from + 1) as u16
    } else {
        first_failing(pool, from + 1)
    }
}

} // verus!
