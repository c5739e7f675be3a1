//! The linker: turns the table of unlinked entries into the linked pool.
//!
//! Resolution is driven by demand and remembers what it has found. Each index
//! is unresolved, in progress or resolved. An entry that is asked for is
//! marked as in progress while the entries it refers to are resolved, and
//! is kept once it is put together, so that all who refer to one index share
//! one value.

use crate::pool::{
    raw_pool, share, slot_views, ConstantPool, ConstantPoolEntry, DynamicEntry, EntryView,
    MethodHandleEntry, MethodTypeEntry, NameAndTypeEntry, RawEntry, RefEntry,
    UnlinkedConstantPoolEntry, Utf8Entry, ValEntry,
};
use crate::resolution::{
    accepts, depth_of, every_index, expect, first_error, indices_are_finite, invalid, link,
    linked_slot, links, literal, member_of, name_and_type_of, raw_tag, resolve, resolve_index,
    text_of, usable, view_tag, with_one, with_two, Links, Want,
};
use crate::Error;
use std::rc::Rc;
use vstd::pervasive::unreached;
use vstd::prelude::*;
use vstd::set_lib::{lemma_int_range, lemma_len_subset, set_int_range};

verus! {

/// What is known of one index.
enum Slot {
    /// Nobody has asked for the entry yet.
    Unresolved,
    /// The entry has been asked for and waits for the entries it refers to.
    InProgress,
    /// The linked entry.
    Resolved(ConstantPoolEntry),
    /// A linked field, method or interface method reference, and the shared
    /// value that method handles refer to.
    Member(ConstantPoolEntry, Rc<RefEntry>),
}

/// How an attempt to resolve an entry ended.
enum Step {
    /// The entry is resolved and kept.
    Done,
    /// The entry does not resolve.
    Fail(Error),
    /// The entry does not resolve, and the error is that of resolving the
    /// first index for a reference from the second, or, if that resolves,
    /// that the first index is invalid for the second.
    Chase(u16, u16),
}

/// The linked entry that a slot holds.
spec fn cached(slot: Slot) -> Option<EntryView> {
    match slot {
        Slot::Resolved(entry) => Some(entry@),
        Slot::Member(entry, _) => Some(entry@),
        _ => None,
    }
}

/// A bound on the depth of the entries that a reference accepts.
spec fn want_depth(want: Want) -> nat {
    match want {
        Want::Text => 0,
        Want::Class => 1,
        Want::NameAndType => 1,
        Want::Member => 2,
        Want::Any => 4,
    }
}

/// The indices that are not in progress.
spec fn free_of(slots: Seq<Slot>) -> Set<int> {
    Set::new(|k: int| 1 <= k <= slots.len() && !(slots[k - 1] is InProgress))
}

/// Whether the entry at `target` is resolved and of the kind `want`.
spec fn target_ok(pool: Seq<RawEntry>, slots: Seq<Slot>, target: u16, want: Want) -> bool {
    &&& usable(pool, target)
    &&& cached(slots[target - 1]) is Some
    &&& accepts(want, view_tag(cached(slots[target - 1])->0))
}

/// What the entry in slot `i` is put together from, given that the entries
/// it refers to are resolved.
spec fn put_together(pool: Seq<RawEntry>, slots: Seq<Slot>, i: int) -> EntryView {
    let e = pool[i];
    match links(e) {
        Links::Nothing => literal(e),
        Links::One(t, _) => with_one(e, cached(slots[t - 1])->0),
        Links::Two(t1, _, t2, _) => with_two(e, cached(slots[t1 - 1])->0, cached(slots[t2 - 1])->0),
    }
}

/// Whether the entries that the entry in slot `i` refers to are resolved and
/// of the kinds it needs.
spec fn targets_ok(pool: Seq<RawEntry>, slots: Seq<Slot>, i: int) -> bool {
    match links(pool[i]) {
        Links::Nothing => true,
        Links::One(t, w) => target_ok(pool, slots, t, w),
        Links::Two(t1, w1, t2, w2) => target_ok(pool, slots, t1, w1) && target_ok(
            pool,
            slots,
            t2,
            w2,
        ),
    }
}

/// Whether slot `i`, if it holds a linked entry, holds the one that its
/// unlinked entry and the slots it refers to call for.
spec fn slot_sound(pool: Seq<RawEntry>, slots: Seq<Slot>, i: int) -> bool {
    match slots[i] {
        Slot::Resolved(entry) => {
            &&& !(pool[i] is Unusable)
            &&& targets_ok(pool, slots, i)
            &&& entry@ == put_together(pool, slots, i)
            &&& !accepts(Want::Member, view_tag(entry@))
        },
        Slot::Member(entry, shared) => {
            &&& !(pool[i] is Unusable)
            &&& targets_ok(pool, slots, i)
            &&& entry@ == put_together(pool, slots, i)
            &&& accepts(Want::Member, view_tag(entry@))
            &&& member_of(entry@) == shared@
        },
        _ => true,
    }
}

/// Whether every slot that holds a linked entry holds the right one.
spec fn sound(pool: Seq<RawEntry>, slots: Seq<Slot>) -> bool {
    &&& slots.len() == pool.len()
    &&& pool.len() <= u16::MAX
    &&& forall|i: int| 0 <= i < slots.len() ==> #[trigger] slot_sound(pool, slots, i)
}

/// What a step keeps of the slots: linked entries stay, and so do the marks
/// of the entries in progress.
spec fn grows(before: Seq<Slot>, after: Seq<Slot>) -> bool {
    &&& after.len() == before.len()
    &&& forall|i: int|
        0 <= i < before.len() ==> {
            &&& (cached(#[trigger] before[i]) is Some ==> after[i] == before[i])
            &&& (before[i] is InProgress ==> after[i] is InProgress)
        }
}

/// Whether the same entries are in progress before and after.
spec fn same_marks(before: Seq<Slot>, after: Seq<Slot>) -> bool {
    &&& after.len() == before.len()
    &&& forall|i: int|
        #![trigger before[i]]
        #![trigger after[i]]
        0 <= i < before.len() ==> (before[i] is InProgress <==> after[i] is InProgress)
}

/// Whether every linked entry of `before` is still there in `after`.
spec fn keeps(before: Seq<Slot>, after: Seq<Slot>) -> bool {
    &&& after.len() == before.len()
    &&& forall|i: int|
        0 <= i < before.len() ==> (cached(#[trigger] before[i]) is Some ==> after[i] == before[i])
}

/// What a reference from `from` to `at` makes of the outcome `r` of
/// resolving `at`, where `at` is known to be of another kind than the
/// reference needs.
spec fn doomed(r: Result<EntryView, Error>, at: u16, from: u16) -> Result<EntryView, Error> {
    match r {
        Ok(_) => Err(invalid(at, from)),
        Err(e) => Err(e),
    }
}

/// The free indices of any slots are finitely many.
proof fn lemma_free_finite(slots: Seq<Slot>)
    ensures
        free_of(slots).finite(),
        free_of(slots).len() <= slots.len(),
{
    let all = set_int_range(1, slots.len() as int + 1);
    lemma_int_range(1, slots.len() as int + 1);
    lemma_len_subset(free_of(slots), all);
}

/// With no entry in progress every index is free.
proof fn lemma_all_free(pool: Seq<RawEntry>, slots: Seq<Slot>)
    requires
        slots.len() == pool.len(),
        forall|i: int| 0 <= i < slots.len() ==> !(#[trigger] slots[i] is InProgress),
    ensures
        free_of(slots) == every_index(pool),
{
}

/// A slot that holds a linked entry holds one of the kind of its unlinked
/// entry, put together from the resolved entries that it refers to.
proof fn lemma_cached_tag(pool: Seq<RawEntry>, slots: Seq<Slot>, i: int)
    requires
        sound(pool, slots),
        0 <= i < slots.len(),
        cached(slots[i]) is Some,
    ensures
        view_tag(cached(slots[i])->0) == raw_tag(pool[i]),
        targets_ok(pool, slots, i),
        cached(slots[i])->0 == put_together(pool, slots, i),
        !(pool[i] is Unusable),
{
    assert(slot_sound(pool, slots, i));
}

/// A linked entry that is kept is what resolving its index gives, whatever
/// is in progress, as long as the linked entries that reach no deeper are
/// free.
proof fn lemma_cached_resolves(
    pool: Seq<RawEntry>,
    slots: Seq<Slot>,
    index: u16,
    referrer: u16,
    free: Set<int>,
)
    requires
        sound(pool, slots),
        1 <= index <= pool.len(),
        cached(slots[index - 1]) is Some,
        free.finite(),
        forall|k: int|
            1 <= k <= pool.len() && cached(#[trigger] slots[k - 1]) is Some && depth_of(
                raw_tag(pool[k - 1]),
            ) <= depth_of(raw_tag(pool[index - 1])) ==> free.contains(k),
    ensures
        resolve(pool, index, referrer, free) == Ok::<EntryView, Error>(cached(slots[index - 1])->0),
    decreases depth_of(raw_tag(pool[index - 1])),
{
    let e = pool[index - 1];
    let rest = free.remove(index as int);
    lemma_cached_tag(pool, slots, index - 1);
    match links(e) {
        Links::Nothing => {},
        Links::One(t, w) => {
            lemma_cached_tag(pool, slots, t - 1);
            lemma_cached_resolves(pool, slots, t, index, rest);
        },
        Links::Two(t1, w1, t2, w2) => {
            lemma_cached_tag(pool, slots, t1 - 1);
            lemma_cached_tag(pool, slots, t2 - 1);
            lemma_cached_resolves(pool, slots, t1, index, rest);
            lemma_cached_resolves(pool, slots, t2, index, rest);
        },
    }
}

/// Marking an unresolved entry as in progress keeps what the linker holds
/// right, and takes the entry's index out of the free ones.
proof fn lemma_marked(pool: Seq<RawEntry>, before: Seq<Slot>, after: Seq<Slot>, i: int)
    requires
        sound(pool, before),
        0 <= i < before.len(),
        before[i] is Unresolved,
        after == before.update(i, Slot::InProgress),
    ensures
        sound(pool, after),
        free_of(after) == free_of(before).remove(i + 1),
        grows(before, after),
{
    assert forall|j: int| 0 <= j < after.len() implies #[trigger] slot_sound(pool, after, j) by {
        assert(slot_sound(pool, before, j));
    }
}

/// Keeping the entry that slot `i` was put together from keeps what the
/// linker holds right.
proof fn lemma_kept(pool: Seq<RawEntry>, before: Seq<Slot>, after: Seq<Slot>, i: int)
    requires
        sound(pool, before),
        0 <= i < before.len(),
        cached(before[i]) is None,
        !(pool[i] is Unusable),
        targets_ok(pool, before, i),
        cached(after[i]) == Some(put_together(pool, before, i)),
        match after[i] {
            Slot::Resolved(entry) => !accepts(Want::Member, view_tag(entry@)),
            Slot::Member(entry, shared) => accepts(Want::Member, view_tag(entry@)) && member_of(
                entry@,
            ) == shared@,
            _ => false,
        },
        after == before.update(i, after[i]),
    ensures
        sound(pool, after),
{
    assert forall|j: int| 0 <= j < after.len() implies #[trigger] slot_sound(pool, after, j) by {
        assert(slot_sound(pool, before, j));
    }
}

/// The references of an unlinked entry.
fn links_of(entry: &UnlinkedConstantPoolEntry) -> (r: Links)
    ensures
        r == links(entry@),
{
    match entry {
        UnlinkedConstantPoolEntry::Class(name) => Links::One(*name, Want::Text),
        UnlinkedConstantPoolEntry::String(text) => Links::One(*text, Want::Text),
        UnlinkedConstantPoolEntry::MethodType(descriptor) => Links::One(*descriptor, Want::Text),
        UnlinkedConstantPoolEntry::Module(name) => Links::One(*name, Want::Text),
        UnlinkedConstantPoolEntry::Package(name) => Links::One(*name, Want::Text),
        UnlinkedConstantPoolEntry::NameAndType { name, descriptor } => Links::Two(
            *name,
            Want::Text,
            *descriptor,
            Want::Text,
        ),
        UnlinkedConstantPoolEntry::FieldRef(r) => Links::Two(
            r.class,
            Want::Class,
            r.name_and_ty,
            Want::NameAndType,
        ),
        UnlinkedConstantPoolEntry::MethodRef(r) => Links::Two(
            r.class,
            Want::Class,
            r.name_and_ty,
            Want::NameAndType,
        ),
        UnlinkedConstantPoolEntry::InterfaceMethodRef(r) => Links::Two(
            r.class,
            Want::Class,
            r.name_and_ty,
            Want::NameAndType,
        ),
        UnlinkedConstantPoolEntry::MethodHandle { ref_kind, ref_entry } => Links::One(
            *ref_entry,
            Want::Member,
        ),
        UnlinkedConstantPoolEntry::Dynamic(_, name_and_ty) => Links::One(
            *name_and_ty,
            Want::NameAndType,
        ),
        UnlinkedConstantPoolEntry::InvokeDynamic(_, name_and_ty) => Links::One(
            *name_and_ty,
            Want::NameAndType,
        ),
        UnlinkedConstantPoolEntry::Integer(_) => Links::Nothing,
        UnlinkedConstantPoolEntry::Float(_) => Links::Nothing,
        UnlinkedConstantPoolEntry::Long(_) => Links::Nothing,
        UnlinkedConstantPoolEntry::Double(_) => Links::Nothing,
        UnlinkedConstantPoolEntry::Utf8(_) => Links::Nothing,
        UnlinkedConstantPoolEntry::Unusable => Links::Nothing,
    }
}

/// Whether a reference that needs `want` accepts the unlinked entry.
fn raw_accepts(entry: &UnlinkedConstantPoolEntry, want: Want) -> (b: bool)
    ensures
        b == accepts(want, raw_tag(entry@)),
{
    match want {
        Want::Text => match entry {
            UnlinkedConstantPoolEntry::Utf8(_) => true,
            _ => false,
        },
        Want::Class => match entry {
            UnlinkedConstantPoolEntry::Class(_) => true,
            _ => false,
        },
        Want::NameAndType => match entry {
            UnlinkedConstantPoolEntry::NameAndType { .. } => true,
            _ => false,
        },
        Want::Member => match entry {
            UnlinkedConstantPoolEntry::FieldRef(_) => true,
            UnlinkedConstantPoolEntry::MethodRef(_) => true,
            UnlinkedConstantPoolEntry::InterfaceMethodRef(_) => true,
            _ => false,
        },
        Want::Any => true,
    }
}

/// Whether a reference that needs `want` accepts the linked entry.
fn entry_accepts(entry: &ConstantPoolEntry, want: Want) -> (b: bool)
    ensures
        b == accepts(want, view_tag(entry@)),
{
    match want {
        Want::Text => match entry {
            ConstantPoolEntry::Utf8(_) => true,
            _ => false,
        },
        Want::Class => match entry {
            ConstantPoolEntry::Class(_) => true,
            _ => false,
        },
        Want::NameAndType => match entry {
            ConstantPoolEntry::NameAndType(_) => true,
            _ => false,
        },
        Want::Member => match entry {
            ConstantPoolEntry::FieldRef(_) => true,
            ConstantPoolEntry::MethodRef(_) => true,
            ConstantPoolEntry::InterfaceMethodRef(_) => true,
            _ => false,
        },
        Want::Any => true,
    }
}

/// Resolves the entries of a constant pool on demand and keeps what it has
/// resolved.
pub struct Linker {
    entries: Vec<UnlinkedConstantPoolEntry>,
    slots: Vec<Slot>,
}

impl Linker {
    /// The table that is being linked.
    pub closed spec fn pool(&self) -> Seq<RawEntry> {
        raw_pool(self.entries@)
    }

    /// The indices that are not in progress.
    spec fn free(&self) -> Set<int> {
        free_of(self.slots@)
    }

    /// What holds of the linker at every step.
    spec fn inv(&self) -> bool {
        sound(self.pool(), self.slots@)
    }

    /// What holds of the linker between two requests: what it keeps is
    /// right, and no entry is in progress.
    pub closed spec fn wf(&self) -> bool {
        &&& self.inv()
        &&& forall|i: int| 0 <= i < self.slots@.len() ==> !(#[trigger] self.slots@[i] is InProgress)
    }

    /// Whether the linker keeps a linked entry for `index`.
    pub closed spec fn resolved(&self, index: u16) -> bool {
        1 <= index <= self.slots@.len() && cached(self.slots@[index - 1]) is Some
    }

    /// Whether `self` came from `before` by resolving entries: the table is
    /// the same, and what was resolved still is.
    spec fn extends(&self, before: &Linker) -> bool {
        &&& self.entries@ == before.entries@
        &&& grows(before.slots@, self.slots@)
    }

    /// What a linker keeps for an index is an entry that resolves.
    pub proof fn resolved_entries_resolve(&self, index: u16)
        requires
            self.wf(),
            self.resolved(index),
        ensures
            resolve_index(self.pool(), index) is Ok,
    {
        lemma_all_free(self.pool(), self.slots@);
        lemma_free_finite(self.slots@);
        lemma_cached_resolves(self.pool(), self.slots@, index, 0, self.free());
    }

    /// A linker for the table `entries`, whose first entry has index one.
    /// Nothing is resolved yet.
    pub fn new(entries: Vec<UnlinkedConstantPoolEntry>) -> (linker: Self)
        requires
            entries@.len() <= u16::MAX,
        ensures
            linker.wf(),
            linker.pool() == raw_pool(entries@),
            forall|k: u16| !linker.resolved(k),
    {
        let n: usize = entries.len();
        let mut slots: Vec<Slot> = Vec::with_capacity(n);
        let mut i: usize = 0;
        while i < n
            invariant
                i <= n,
                slots@.len() == i,
                forall|j: int| 0 <= j < i ==> #[trigger] slots@[j] is Unresolved,
            decreases n - i,
        {
            slots.push(Slot::Unresolved);
            i = i + 1;
        }
        Linker { entries, slots }
    }

    /// Whether an entry stands at `index`.
    fn is_usable(&self, index: u16) -> (b: bool)
        requires
            self.slots@.len() == self.entries@.len(),
        ensures
            b == usable(self.pool(), index),
    {
        if index == 0 || index as usize > self.entries.len() {
            return false;
        }
        match &self.entries[index as usize - 1] {
            UnlinkedConstantPoolEntry::Unusable => false,
            _ => true,
        }
    }

    /// The shared text of the resolved `Utf8` or `Class` entry at `index`.
    fn text(&self, index: u16) -> (r: Rc<Utf8Entry>)
        requires
            self.inv(),
            target_ok(self.pool(), self.slots@, index, Want::Text) || target_ok(
                self.pool(),
                self.slots@,
                index,
                Want::Class,
            ),
        ensures
            r@ == text_of(cached(self.slots@[index - 1])->0),
    {
        proof {
            assert(slot_sound(self.pool(), self.slots@, index - 1));
        }
        match &self.slots[index as usize - 1] {
            Slot::Resolved(ConstantPoolEntry::Utf8(text)) => share(text),
            Slot::Resolved(ConstantPoolEntry::Class(name)) => share(name),
            _ => unreached(),
        }
    }

    /// The shared value of the resolved `NameAndType` entry at `index`.
    fn name_and_type(&self, index: u16) -> (r: Rc<NameAndTypeEntry>)
        requires
            self.inv(),
            target_ok(self.pool(), self.slots@, index, Want::NameAndType),
        ensures
            r@ == name_and_type_of(cached(self.slots@[index - 1])->0),
    {
        proof {
            assert(slot_sound(self.pool(), self.slots@, index - 1));
        }
        match &self.slots[index as usize - 1] {
            Slot::Resolved(ConstantPoolEntry::NameAndType(n)) => share(n),
            _ => unreached(),
        }
    }

    /// The shared value of the resolved member reference at `index`.
    fn member(&self, index: u16) -> (r: Rc<RefEntry>)
        requires
            self.inv(),
            target_ok(self.pool(), self.slots@, index, Want::Member),
        ensures
            r@ == member_of(cached(self.slots@[index - 1])->0),
    {
        proof {
            assert(slot_sound(self.pool(), self.slots@, index - 1));
        }
        match &self.slots[index as usize - 1] {
            Slot::Member(_, shared) => share(shared),
            _ => unreached(),
        }
    }

    /// Puts the entry at `index` together from the resolved entries it
    /// refers to.
    fn assemble(&self, index: u16) -> (slot: Slot)
        requires
            self.inv(),
            usable(self.pool(), index),
            targets_ok(self.pool(), self.slots@, index - 1),
        ensures
            cached(slot) == Some(put_together(self.pool(), self.slots@, index - 1)),
            match slot {
                Slot::Resolved(entry) => !accepts(Want::Member, view_tag(entry@)),
                Slot::Member(entry, shared) => accepts(Want::Member, view_tag(entry@))
                    && member_of(entry@) == shared@,
                _ => false,
            },
    {
        match &self.entries[index as usize - 1] {
            UnlinkedConstantPoolEntry::Utf8(text) => Slot::Resolved(
                ConstantPoolEntry::Utf8(Rc::new(Utf8Entry { bytes: text.clone() })),
            ),
            UnlinkedConstantPoolEntry::Integer(v) => Slot::Resolved(
                ConstantPoolEntry::Integer(ValEntry { val: *v }),
            ),
            UnlinkedConstantPoolEntry::Float(bits) => Slot::Resolved(
                ConstantPoolEntry::Float(ValEntry { val: *bits }),
            ),
            UnlinkedConstantPoolEntry::Long(v) => Slot::Resolved(
                ConstantPoolEntry::Long(ValEntry { val: *v }),
            ),
            UnlinkedConstantPoolEntry::Double(bits) => Slot::Resolved(
                ConstantPoolEntry::Double(ValEntry { val: *bits }),
            ),
            UnlinkedConstantPoolEntry::Class(name) => Slot::Resolved(
                ConstantPoolEntry::Class(self.text(*name)),
            ),
            UnlinkedConstantPoolEntry::String(text) => Slot::Resolved(
                ConstantPoolEntry::String(self.text(*text)),
            ),
            UnlinkedConstantPoolEntry::MethodType(descriptor) => Slot::Resolved(
                ConstantPoolEntry::MethodType(MethodTypeEntry { descriptor: self.text(*descriptor) }),
            ),
            UnlinkedConstantPoolEntry::Module(name) => Slot::Resolved(
                ConstantPoolEntry::Module(self.text(*name)),
            ),
            UnlinkedConstantPoolEntry::Package(name) => Slot::Resolved(
                ConstantPoolEntry::Package(self.text(*name)),
            ),
            UnlinkedConstantPoolEntry::NameAndType { name, descriptor } => Slot::Resolved(
                ConstantPoolEntry::NameAndType(
                    Rc::new(
                        NameAndTypeEntry {
                            name: self.text(*name),
                            descriptor: self.text(*descriptor),
                        },
                    ),
                ),
            ),
            UnlinkedConstantPoolEntry::FieldRef(r) => {
                let own = self.make_member(r.class, r.name_and_ty);
                let shared = Rc::new(own.clone());
                Slot::Member(ConstantPoolEntry::FieldRef(own), shared)
            },
            UnlinkedConstantPoolEntry::MethodRef(r) => {
                let own = self.make_member(r.class, r.name_and_ty);
                let shared = Rc::new(own.clone());
                Slot::Member(ConstantPoolEntry::MethodRef(own), shared)
            },
            UnlinkedConstantPoolEntry::InterfaceMethodRef(r) => {
                let own = self.make_member(r.class, r.name_and_ty);
                let shared = Rc::new(own.clone());
                Slot::Member(ConstantPoolEntry::InterfaceMethodRef(own), shared)
            },
            UnlinkedConstantPoolEntry::MethodHandle { ref_kind, ref_entry } => Slot::Resolved(
                ConstantPoolEntry::MethodHandle(
                    MethodHandleEntry { ref_kind: *ref_kind, ref_entry: self.member(*ref_entry) },
                ),
            ),
            UnlinkedConstantPoolEntry::Dynamic(bootstrap, name_and_ty) => Slot::Resolved(
                ConstantPoolEntry::Dynamic(
                    DynamicEntry {
                        bootstrap_attr_idx: *bootstrap as usize,
                        name_and_ty: self.name_and_type(*name_and_ty),
                    },
                ),
            ),
            UnlinkedConstantPoolEntry::InvokeDynamic(bootstrap, name_and_ty) => Slot::Resolved(
                ConstantPoolEntry::InvokeDynamic(
                    DynamicEntry {
                        bootstrap_attr_idx: *bootstrap as usize,
                        name_and_ty: self.name_and_type(*name_and_ty),
                    },
                ),
            ),
            UnlinkedConstantPoolEntry::Unusable => unreached(),
        }
    }

    /// The member that refers to the resolved class at `class` and the
    /// resolved name and type at `name_and_ty`.
    fn make_member(&self, class: u16, name_and_ty: u16) -> (r: RefEntry)
        requires
            self.inv(),
            target_ok(self.pool(), self.slots@, class, Want::Class),
            target_ok(self.pool(), self.slots@, name_and_ty, Want::NameAndType),
        ensures
            r@.class == text_of(cached(self.slots@[class - 1])->0),
            r@.name_and_ty == name_and_type_of(cached(self.slots@[name_and_ty - 1])->0),
    {
        RefEntry { class: self.text(class), name_and_ty: self.name_and_type(name_and_ty) }
    }

    /// Resolves the entry at `index`, which nobody has asked for yet, for a
    /// reference from `referrer`.
    fn visit(&mut self, index: u16, referrer: u16) -> (step: Step)
        requires
            old(self).inv(),
            usable(old(self).pool(), index),
            old(self).slots@[index - 1] is Unresolved,
        ensures
            final(self).inv(),
            final(self).extends(old(self)),
            match step {
                Step::Done => {
                    &&& same_marks(old(self).slots@, final(self).slots@)
                    &&& cached(final(self).slots@[index - 1]) is Some
                    &&& resolve(old(self).pool(), index, referrer, old(self).free()) == Ok::<
                        EntryView,
                        Error,
                    >(cached(final(self).slots@[index - 1])->0)
                },
                Step::Fail(e) => resolve(old(self).pool(), index, referrer, old(self).free())
                    == Err::<EntryView, Error>(e),
                Step::Chase(at, from) => {
                    &&& resolve(old(self).pool(), index, referrer, old(self).free()) == doomed(
                        resolve(old(self).pool(), at, from, final(self).free()),
                        at,
                        from,
                    )
                    &&& usable(old(self).pool(), at)
                    &&& final(self).slots@[at - 1] is Unresolved
                    &&& final(self).slots@[index - 1] is InProgress
                },
            },
        decreases depth_of(raw_tag(old(self).pool()[index - 1])), 0nat,
    {
        let i: usize = index as usize - 1;
        let ghost pool = self.pool();
        let ghost before = self.slots@;
        proof {
            lemma_free_finite(before);
        }
        let needs = links_of(&self.entries[i]);
        match needs {
            Links::Nothing => {},
            Links::One(first, want) => {
                self.slots.set(i, Slot::InProgress);
                proof {
                    lemma_marked(pool, before, self.slots@, i as int);
                }
                match self.deref(first, index, want) {
                    Step::Done => {},
                    Step::Fail(e) => {
                        return Step::Fail(e);
                    },
                    Step::Chase(at, from) => {
                        return Step::Chase(at, from);
                    },
                }
            },
            Links::Two(first, want_first, second, want_second) => {
                self.slots.set(i, Slot::InProgress);
                proof {
                    lemma_marked(pool, before, self.slots@, i as int);
                }
                let ghost marked = self.slots@;
                match self.deref(first, index, want_first) {
                    Step::Done => {},
                    Step::Fail(e) => {
                        return Step::Fail(e);
                    },
                    Step::Chase(at, from) => {
                        return Step::Chase(at, from);
                    },
                }
                proof {
                    assert(free_of(self.slots@) =~= free_of(marked));
                }
                match self.deref(second, index, want_second) {
                    Step::Done => {},
                    Step::Fail(e) => {
                        return Step::Fail(e);
                    },
                    Step::Chase(at, from) => {
                        return Step::Chase(at, from);
                    },
                }
            },
        }
        let ghost ready = self.slots@;
        let slot = self.assemble(index);
        self.slots.set(i, slot);
        proof {
            lemma_kept(pool, ready, self.slots@, i as int);
        }
        Step::Done
    }

    /// Resolves `index` for a reference from `referrer` that needs an entry
    /// of the kind `want`.
    fn deref(&mut self, index: u16, referrer: u16, want: Want) -> (step: Step)
        requires
            old(self).inv(),
        ensures
            final(self).inv(),
            final(self).extends(old(self)),
            match step {
                Step::Done => {
                    &&& same_marks(old(self).slots@, final(self).slots@)
                    &&& target_ok(old(self).pool(), final(self).slots@, index, want)
                    &&& expect(
                        resolve(old(self).pool(), index, referrer, old(self).free()),
                        want,
                        index,
                        referrer,
                    ) == Ok::<EntryView, Error>(cached(final(self).slots@[index - 1])->0)
                },
                Step::Fail(e) => expect(
                    resolve(old(self).pool(), index, referrer, old(self).free()),
                    want,
                    index,
                    referrer,
                ) == Err::<EntryView, Error>(e),
                Step::Chase(at, from) => {
                    &&& expect(
                        resolve(old(self).pool(), index, referrer, old(self).free()),
                        want,
                        index,
                        referrer,
                    ) == doomed(resolve(old(self).pool(), at, from, final(self).free()), at, from)
                    &&& usable(old(self).pool(), at)
                    &&& final(self).slots@[at - 1] is Unresolved
                    &&& want is Any ==> {
                        &&& usable(old(self).pool(), index)
                        &&& old(self).slots@[index - 1] is Unresolved
                        &&& final(self).slots@[index - 1] is InProgress
                    }
                },
            },
        decreases want_depth(want), 1nat,
    {
        let ghost pool = self.pool();
        let ghost free = self.free();
        proof {
            lemma_free_finite(self.slots@);
        }
        if !self.is_usable(index) {
            return Step::Fail(Error::InvalidIndex { index, referrer });
        }
        let i: usize = index as usize - 1;
        let known: Option<bool> = match &self.slots[i] {
            Slot::Unresolved => None,
            Slot::InProgress => {
                return Step::Fail(Error::CyclicReference);
            },
            Slot::Resolved(entry) => Some(entry_accepts(entry, want)),
            Slot::Member(entry, _) => Some(entry_accepts(entry, want)),
        };
        match known {
            Some(fits) => {
                proof {
                    lemma_cached_resolves(pool, self.slots@, index, referrer, free);
                }
                if fits {
                    Step::Done
                } else {
                    Step::Fail(Error::InvalidIndex { index, referrer })
                }
            },
            None => {
                if raw_accepts(&self.entries[i], want) {
                    self.visit(index, referrer)
                } else {
                    Step::Chase(index, referrer)
                }
            },
        }
    }

    /// Resolves `index` for a reference from outside the pool. Where that
    /// fails, entries may be left marked as in progress.
    fn request(&mut self, index: u16) -> (r: Result<(), Error>)
        requires
            old(self).wf(),
        ensures
            final(self).inv(),
            final(self).entries@ == old(self).entries@,
            keeps(old(self).slots@, final(self).slots@),
            match r {
                Ok(_) => {
                    &&& final(self).wf()
                    &&& final(self).resolved(index)
                    &&& resolve_index(old(self).pool(), index) == Ok::<EntryView, Error>(
                        cached(final(self).slots@[index - 1])->0,
                    )
                },
                Err(e) => resolve_index(old(self).pool(), index) == Err::<EntryView, Error>(e),
            },
    {
        let ghost pool = self.pool();
        let ghost start = self.slots@;
        proof {
            lemma_all_free(pool, start);
        }
        let mut at: u16 = index;
        let mut from: u16 = 0;
        let mut chased: bool = false;
        loop
            invariant
                self.inv(),
                self.pool() == pool,
                self.entries@ == old(self).entries@,
                start == old(self).slots@,
                keeps(start, self.slots@),
                !chased ==> at == index && from == 0 && self.slots@ == start,
                chased ==> usable(pool, at) && self.slots@[at - 1] is Unresolved,
                forall|i: int| 0 <= i < start.len() ==> !(#[trigger] start[i] is InProgress),
                resolve_index(pool, index) == (if chased {
                    doomed(resolve(pool, at, from, self.free()), at, from)
                } else {
                    resolve(pool, at, from, self.free())
                }),
            decreases self.free().len(),
        {
            let ghost before = self.slots@;
            proof {
                lemma_free_finite(before);
            }
            match self.deref(at, from, Want::Any) {
                Step::Done => {
                    if chased {
                        return Err(Error::InvalidIndex { index: at, referrer: from });
                    } else {
                        return Ok(());
                    }
                },
                Step::Fail(e) => {
                    return Err(e);
                },
                Step::Chase(next, referrer) => {
                    proof {
                        lemma_len_subset(free_of(self.slots@), free_of(before).remove(at as int));
                    }
                    at = next;
                    from = referrer;
                    chased = true;
                },
            }
        }
    }

    /// Takes the marks off the entries that are in progress.
    fn unmark(&mut self)
        requires
            old(self).inv(),
        ensures
            final(self).wf(),
            final(self).entries@ == old(self).entries@,
            keeps(old(self).slots@, final(self).slots@),
    {
        let n: usize = self.slots.len();
        let mut i: usize = 0;
        while i < n
            invariant
                self.inv(),
                self.entries@ == old(self).entries@,
                self.slots@.len() == n,
                i <= n,
                keeps(old(self).slots@, self.slots@),
                forall|j: int| 0 <= j < i ==> !(#[trigger] self.slots@[j] is InProgress),
            decreases n - i,
        {
            let marked = match &self.slots[i] {
                Slot::InProgress => true,
                _ => false,
            };
            if marked {
                let ghost before = self.slots@;
                self.slots.set(i, Slot::Unresolved);
                proof {
                    let after = self.slots@;
                    assert forall|j: int| 0 <= j < after.len() implies #[trigger] slot_sound(
                        self.pool(),
                        after,
                        j,
                    ) by {
                        assert(slot_sound(self.pool(), before, j));
                    }
                }
            }
            i = i + 1;
        }
    }

    /// A copy of the linked entry that is kept for `index`.
    fn kept(&self, index: u16) -> (r: ConstantPoolEntry)
        requires
            self.resolved(index),
        ensures
            Some(r@) == cached(self.slots@[index - 1]),
    {
        match &self.slots[index as usize - 1] {
            Slot::Resolved(entry) => entry.clone(),
            Slot::Member(entry, _) => entry.clone(),
            _ => unreached(),
        }
    }

    /// Resolves the entry at `index` and everything it refers to, and
    /// returns the linked entry. What has been resolved is kept, so that a
    /// later request shares it.
    ///
    /// Fails with `InvalidIndex` where `index`, or an index that is reached
    /// from it, is zero, past the end of the pool, the unusable slot behind
    /// an eight-byte literal, or an entry of another kind than the reference
    /// to it needs; and with `CyclicReference` where an entry is reached
    /// again while it is being resolved. Of several faults, the one that is
    /// met first counts, where each entry resolves the entries it refers to
    /// in order and to the end before it looks at their kind.
    pub fn resolve(&mut self, index: u16) -> (r: Result<ConstantPoolEntry, Error>)
        requires
            old(self).wf(),
        ensures
            final(self).wf(),
            final(self).pool() == old(self).pool(),
            forall|k: u16| old(self).resolved(k) ==> final(self).resolved(k),
            match resolve_index(old(self).pool(), index) {
                Ok(v) => r is Ok && r->Ok_0@ == v && final(self).resolved(index),
                Err(e) => r is Err && r->Err_0 == e,
            },
    {
        match self.request(index) {
            Ok(_) => Ok(self.kept(index)),
            Err(e) => {
                self.unmark();
                Err(e)
            },
        }
    }

    /// Links the whole pool: resolves every index in order, and returns the
    /// linked entries, with nothing in the unusable slots. The first entry
    /// that does not resolve decides the error, as `resolve` says.
    pub fn link(&mut self) -> (r: Result<ConstantPool, Error>)
        requires
            old(self).wf(),
        ensures
            final(self).wf(),
            final(self).pool() == old(self).pool(),
            match link(old(self).pool()) {
                Ok(pool) => r is Ok && r->Ok_0@ == pool,
                Err(e) => r is Err && r->Err_0 == e,
            },
    {
        let ghost pool = self.pool();
        let n: usize = self.entries.len();
        let mut linked: Vec<Option<ConstantPoolEntry>> = Vec::with_capacity(n);
        let mut i: usize = 0;
        while i < n
            invariant
                self.wf(),
                self.pool() == pool,
                pool == old(self).pool(),
                n == pool.len(),
                n == self.entries@.len(),
                i <= n,
                linked@.len() == i,
                first_error(pool, 0) == first_error(pool, i as int),
                forall|j: int|
                    0 <= j < i ==> (#[trigger] slot_views(linked@)[j]) == linked_slot(pool, j),
            decreases n - i,
        {
            let ghost done = linked@;
            proof {
                indices_are_finite(pool);
            }
            let unusable = match &self.entries[i] {
                UnlinkedConstantPoolEntry::Unusable => true,
                _ => false,
            };
            if unusable {
                linked.push(None);
            } else {
                match self.resolve((i + 1) as u16) {
                    Ok(entry) => {
                        linked.push(Some(entry));
                    },
                    Err(e) => {
                        return Err(e);
                    },
                }
            }
            proof {
                assert forall|j: int| 0 <= j < i + 1 implies (#[trigger] slot_views(linked@)[j])
                    == linked_slot(pool, j) by {
                    if j < i {
                        assert(slot_views(done)[j] == linked_slot(pool, j));
                    }
                }
            }
            i = i + 1;
        }
        Ok(ConstantPool::new(linked))
    }
}

/// Links the constant pool table `entries`, whose first entry has index
/// one.
///
/// Returns the linked pool, in which every entry holds the entries it refers
/// to, or the error of the first entry that does not resolve.
pub fn link_constant_pool(entries: Vec<UnlinkedConstantPoolEntry>) -> (r: Result<
    ConstantPool,
    Error,
>)
    requires
        entries@.len() <= u16::MAX,
    ensures
        match link(raw_pool(entries@)) {
            Ok(pool) => r is Ok && r->Ok_0@ == pool,
            Err(e) => r is Err && r->Err_0 == e,
        },
{
    let mut linker = Linker::new(entries);
    linker.link()
}

/// Links the constant pool table `entries`, whatever its length.
///
/// A table of more slots than sixteen-bit indices can tell apart is no
/// constant pool, and nothing is returned for it. Every other table is
/// linked as `link_constant_pool` says.
pub fn try_link_constant_pool(entries: Vec<UnlinkedConstantPoolEntry>) -> (r: Option<
    Result<ConstantPool, Error>,
>)
    ensures
        r is Some <==> entries@.len() <= u16::MAX,
        r is Some ==> match link(raw_pool(entries@)) {
            Ok(pool) => r->0 is Ok && r->0->Ok_0@ == pool,
            Err(e) => r->0 is Err && r->0->Err_0 == e,
        },
{
    if entries.len() > 65535 {
        None
    } else {
        Some(link_constant_pool(entries))
    }
}

} // verus!
