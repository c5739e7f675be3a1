//! The entries of the constant pool, before and after linking.
//!
//! A class file stores the pool as a table whose entries refer to each other
//! by index. An unlinked entry is one row of that table as it was read. A
//! linked entry holds the entries it refers to, and entries that refer to the
//! same index hold the same shared value.

use crate::types::u2;
use std::rc::Rc;
use vstd::prelude::*;

verus! {

/// The kind of a method handle.
#[derive(Debug, Clone, Copy, PartialEq, Eq, Structural)]
pub enum MethodHandleKind {
    GetField,
    GetStatic,
    PutField,
    PutStatic,
    InvokeVirtual,
    InvokeStatic,
    InvokeSpecial,
    NewInvokeSpecial,
    InvokeInterface,
}

/// The two indices of a field, method or interface method reference.
#[derive(Debug, Clone, Copy, PartialEq, Eq, Structural)]
pub struct UnlinkedRefEntry {
    /// Index of the class entry.
    pub class: u2,
    /// Index of the name-and-type entry.
    pub name_and_ty: u2,
}

/// One entry of the constant pool as it stands in the file: literals are
/// held as they are, references to other entries as raw indices that nothing
/// has checked yet.
#[derive(Debug)]
pub enum UnlinkedConstantPoolEntry {
    Class(u2),
    FieldRef(UnlinkedRefEntry),
    MethodRef(UnlinkedRefEntry),
    InterfaceMethodRef(UnlinkedRefEntry),
    String(u2),
    Integer(i32),
    /// The bits of an IEEE-754 single.
    Float(u32),
    Long(i64),
    /// The bits of an IEEE-754 double.
    Double(u64),
    NameAndType { name: u2, descriptor: u2 },
    Utf8(String),
    MethodHandle { ref_kind: MethodHandleKind, ref_entry: u2 },
    MethodType(u2),
    /// Index into the bootstrap method table, and index of the
    /// name-and-type entry.
    Dynamic(u2, u2),
    /// Index into the bootstrap method table, and index of the
    /// name-and-type entry.
    InvokeDynamic(u2, u2),
    Module(u2),
    Package(u2),
    /// The slot behind a `Long` or `Double`: the format reserves it and
    /// never fills it.
    Unusable,
}

/// What an unlinked entry holds, with text as a sequence of characters.
pub enum RawEntry {
    Class(u2),
    FieldRef(UnlinkedRefEntry),
    MethodRef(UnlinkedRefEntry),
    InterfaceMethodRef(UnlinkedRefEntry),
    String(u2),
    Integer(i32),
    Float(u32),
    Long(i64),
    Double(u64),
    NameAndType { name: u2, descriptor: u2 },
    Utf8(Seq<char>),
    MethodHandle { ref_kind: MethodHandleKind, ref_entry: u2 },
    MethodType(u2),
    Dynamic(u2, u2),
    InvokeDynamic(u2, u2),
    Module(u2),
    Package(u2),
    Unusable,
}

impl View for UnlinkedConstantPoolEntry {
    type V = RawEntry;

    open spec fn view(&self) -> RawEntry {
        match *self {
            UnlinkedConstantPoolEntry::Class(name) => RawEntry::Class(name),
            UnlinkedConstantPoolEntry::FieldRef(r) => RawEntry::FieldRef(r),
            UnlinkedConstantPoolEntry::MethodRef(r) => RawEntry::MethodRef(r),
            UnlinkedConstantPoolEntry::InterfaceMethodRef(r) => RawEntry::InterfaceMethodRef(r),
            UnlinkedConstantPoolEntry::String(text) => RawEntry::String(text),
            UnlinkedConstantPoolEntry::Integer(v) => RawEntry::Integer(v),
            UnlinkedConstantPoolEntry::Float(bits) => RawEntry::Float(bits),
            UnlinkedConstantPoolEntry::Long(v) => RawEntry::Long(v),
            UnlinkedConstantPoolEntry::Double(bits) => RawEntry::Double(bits),
            UnlinkedConstantPoolEntry::NameAndType { name, descriptor } => RawEntry::NameAndType {
                name,
                descriptor,
            },
            UnlinkedConstantPoolEntry::Utf8(text) => RawEntry::Utf8(text@),
            UnlinkedConstantPoolEntry::MethodHandle { ref_kind, ref_entry } => {
                RawEntry::MethodHandle { ref_kind, ref_entry }
            },
            UnlinkedConstantPoolEntry::MethodType(descriptor) => RawEntry::MethodType(descriptor),
            UnlinkedConstantPoolEntry::Dynamic(bootstrap, name_and_ty) => RawEntry::Dynamic(
                bootstrap,
                name_and_ty,
            ),
            UnlinkedConstantPoolEntry::InvokeDynamic(bootstrap, name_and_ty) => {
                RawEntry::InvokeDynamic(bootstrap, name_and_ty)
            },
            UnlinkedConstantPoolEntry::Module(name) => RawEntry::Module(name),
            UnlinkedConstantPoolEntry::Package(name) => RawEntry::Package(name),
            UnlinkedConstantPoolEntry::Unusable => RawEntry::Unusable,
        }
    }
}

impl Clone for UnlinkedConstantPoolEntry {
    fn clone(&self) -> (r: Self)
        ensures
            r@ == self@,
    {
        match self {
            UnlinkedConstantPoolEntry::Class(name) => UnlinkedConstantPoolEntry::Class(*name),
            UnlinkedConstantPoolEntry::FieldRef(r) => UnlinkedConstantPoolEntry::FieldRef(*r),
            UnlinkedConstantPoolEntry::MethodRef(r) => UnlinkedConstantPoolEntry::MethodRef(*r),
            UnlinkedConstantPoolEntry::InterfaceMethodRef(r) => {
                UnlinkedConstantPoolEntry::InterfaceMethodRef(*r)
            },
            UnlinkedConstantPoolEntry::String(text) => UnlinkedConstantPoolEntry::String(*text),
            UnlinkedConstantPoolEntry::Integer(v) => UnlinkedConstantPoolEntry::Integer(*v),
            UnlinkedConstantPoolEntry::Float(bits) => UnlinkedConstantPoolEntry::Float(*bits),
            UnlinkedConstantPoolEntry::Long(v) => UnlinkedConstantPoolEntry::Long(*v),
            UnlinkedConstantPoolEntry::Double(bits) => UnlinkedConstantPoolEntry::Double(*bits),
            UnlinkedConstantPoolEntry::NameAndType { name, descriptor } => {
                UnlinkedConstantPoolEntry::NameAndType { name: *name, descriptor: *descriptor }
            },
            UnlinkedConstantPoolEntry::Utf8(text) => UnlinkedConstantPoolEntry::Utf8(text.clone()),
            UnlinkedConstantPoolEntry::MethodHandle { ref_kind, ref_entry } => {
                UnlinkedConstantPoolEntry::MethodHandle {
                    ref_kind: *ref_kind,
                    ref_entry: *ref_entry,
                }
            },
            UnlinkedConstantPoolEntry::MethodType(descriptor) => {
                UnlinkedConstantPoolEntry::MethodType(*descriptor)
            },
            UnlinkedConstantPoolEntry::Dynamic(bootstrap, name_and_ty) => {
                UnlinkedConstantPoolEntry::Dynamic(*bootstrap, *name_and_ty)
            },
            UnlinkedConstantPoolEntry::InvokeDynamic(bootstrap, name_and_ty) => {
                UnlinkedConstantPoolEntry::InvokeDynamic(*bootstrap, *name_and_ty)
            },
            UnlinkedConstantPoolEntry::Module(name) => UnlinkedConstantPoolEntry::Module(*name),
            UnlinkedConstantPoolEntry::Package(name) => UnlinkedConstantPoolEntry::Package(*name),
            UnlinkedConstantPoolEntry::Unusable => UnlinkedConstantPoolEntry::Unusable,
        }
    }
}

/// The table that a sequence of unlinked entries stands for.
pub open spec fn raw_pool(entries: Seq<UnlinkedConstantPoolEntry>) -> Seq<RawEntry> {
    Seq::new(entries.len(), |i: int| entries[i]@)
}

/// A literal value.
#[derive(Debug)]
pub struct ValEntry<T> {
    pub val: T,
}

impl<T: Clone> Clone for ValEntry<T> {
    fn clone(&self) -> (r: Self)
        ensures
            cloned::<T>(self.val, r.val),
    {
        ValEntry { val: self.val.clone() }
    }
}

impl<T: Copy> Copy for ValEntry<T> {

}

/// A piece of text.
#[derive(Debug)]
pub struct Utf8Entry {
    pub bytes: String,
}

impl View for Utf8Entry {
    type V = Seq<char>;

    open spec fn view(&self) -> Seq<char> {
        self.bytes@
    }
}

/// A name with a type descriptor.
#[derive(Debug)]
pub struct NameAndTypeEntry {
    pub name: Rc<Utf8Entry>,
    pub descriptor: Rc<Utf8Entry>,
}

/// What a `NameAndTypeEntry` holds.
pub struct NameAndTypeView {
    pub name: Seq<char>,
    pub descriptor: Seq<char>,
}

impl View for NameAndTypeEntry {
    type V = NameAndTypeView;

    open spec fn view(&self) -> NameAndTypeView {
        NameAndTypeView { name: self.name@, descriptor: self.descriptor@ }
    }
}

/// A reference to a field, a method or an interface method: the name of its
/// class, and its own name and type.
#[derive(Debug)]
pub struct RefEntry {
    pub class: Rc<Utf8Entry>,
    pub name_and_ty: Rc<NameAndTypeEntry>,
}

/// What a `RefEntry` holds.
pub struct RefView {
    pub class: Seq<char>,
    pub name_and_ty: NameAndTypeView,
}

impl View for RefEntry {
    type V = RefView;

    open spec fn view(&self) -> RefView {
        RefView { class: self.class@, name_and_ty: self.name_and_ty@ }
    }
}

/// A method handle: its kind and the member it refers to.
#[derive(Debug)]
pub struct MethodHandleEntry {
    pub ref_kind: MethodHandleKind,
    pub ref_entry: Rc<RefEntry>,
}

/// What a `MethodHandleEntry` holds.
pub struct MethodHandleView {
    pub ref_kind: MethodHandleKind,
    pub ref_entry: RefView,
}

impl View for MethodHandleEntry {
    type V = MethodHandleView;

    open spec fn view(&self) -> MethodHandleView {
        MethodHandleView { ref_kind: self.ref_kind, ref_entry: self.ref_entry@ }
    }
}

/// A method type: its descriptor.
#[derive(Debug)]
pub struct MethodTypeEntry {
    pub descriptor: Rc<Utf8Entry>,
}

impl View for MethodTypeEntry {
    type V = Seq<char>;

    open spec fn view(&self) -> Seq<char> {
        self.descriptor@
    }
}

/// A dynamically computed constant or call site.
#[derive(Debug)]
pub struct DynamicEntry {
    /// Index into the bootstrap method table of the class file.
    pub bootstrap_attr_idx: usize,
    pub name_and_ty: Rc<NameAndTypeEntry>,
}

/// What a `DynamicEntry` holds.
pub struct DynamicView {
    pub bootstrap_attr_idx: int,
    pub name_and_ty: NameAndTypeView,
}

impl View for DynamicEntry {
    type V = DynamicView;

    open spec fn view(&self) -> DynamicView {
        DynamicView {
            bootstrap_attr_idx: self.bootstrap_attr_idx as int,
            name_and_ty: self.name_and_ty@,
        }
    }
}

/// One linked entry of the constant pool. Where an unlinked entry has an
/// index, this has the entry at that index.
#[derive(Debug)]
pub enum ConstantPoolEntry {
    Class(Rc<Utf8Entry>),
    FieldRef(RefEntry),
    MethodRef(RefEntry),
    InterfaceMethodRef(RefEntry),
    String(Rc<Utf8Entry>),
    Integer(ValEntry<i32>),
    /// The bits of an IEEE-754 single.
    Float(ValEntry<u32>),
    Long(ValEntry<i64>),
    /// The bits of an IEEE-754 double.
    Double(ValEntry<u64>),
    NameAndType(Rc<NameAndTypeEntry>),
    Utf8(Rc<Utf8Entry>),
    MethodHandle(MethodHandleEntry),
    MethodType(MethodTypeEntry),
    Dynamic(DynamicEntry),
    InvokeDynamic(DynamicEntry),
    Module(Rc<Utf8Entry>),
    Package(Rc<Utf8Entry>),
}

/// What a linked entry holds.
pub enum EntryView {
    Class(Seq<char>),
    FieldRef(RefView),
    MethodRef(RefView),
    InterfaceMethodRef(RefView),
    String(Seq<char>),
    Integer(i32),
    Float(u32),
    Long(i64),
    Double(u64),
    NameAndType(NameAndTypeView),
    Utf8(Seq<char>),
    MethodHandle(MethodHandleView),
    MethodType(Seq<char>),
    Dynamic(DynamicView),
    InvokeDynamic(DynamicView),
    Module(Seq<char>),
    Package(Seq<char>),
}

impl View for ConstantPoolEntry {
    type V = EntryView;

    open spec fn view(&self) -> EntryView {
        match *self {
            ConstantPoolEntry::Class(name) => EntryView::Class(name@),
            ConstantPoolEntry::FieldRef(r) => EntryView::FieldRef(r@),
            ConstantPoolEntry::MethodRef(r) => EntryView::MethodRef(r@),
            ConstantPoolEntry::InterfaceMethodRef(r) => EntryView::InterfaceMethodRef(r@),
            ConstantPoolEntry::String(text) => EntryView::String(text@),
            ConstantPoolEntry::Integer(v) => EntryView::Integer(v.val),
            ConstantPoolEntry::Float(v) => EntryView::Float(v.val),
            ConstantPoolEntry::Long(v) => EntryView::Long(v.val),
            ConstantPoolEntry::Double(v) => EntryView::Double(v.val),
            ConstantPoolEntry::NameAndType(n) => EntryView::NameAndType(n@),
            ConstantPoolEntry::Utf8(text) => EntryView::Utf8(text@),
            ConstantPoolEntry::MethodHandle(h) => EntryView::MethodHandle(h@),
            ConstantPoolEntry::MethodType(t) => EntryView::MethodType(t@),
            ConstantPoolEntry::Dynamic(d) => EntryView::Dynamic(d@),
            ConstantPoolEntry::InvokeDynamic(d) => EntryView::InvokeDynamic(d@),
            ConstantPoolEntry::Module(name) => EntryView::Module(name@),
            ConstantPoolEntry::Package(name) => EntryView::Package(name@),
        }
    }
}

/// `Rc::clone`: one more handle on the value that `rc` points to. The value
/// itself is not copied.
#[verifier::external_body]
pub(crate) fn share<T>(rc: &Rc<T>) -> (r: Rc<T>)
    ensures
        *r == **rc,
{
    Rc::clone(rc)
}

impl Clone for Utf8Entry {
    /// A copy of the text.
    fn clone(&self) -> (r: Self)
        ensures
            r == *self,
    {
        Utf8Entry { bytes: self.bytes.clone() }
    }
}

impl Clone for NameAndTypeEntry {
    /// A copy that shares the name and the descriptor with `self`.
    fn clone(&self) -> (r: Self)
        ensures
            r == *self,
    {
        NameAndTypeEntry { name: share(&self.name), descriptor: share(&self.descriptor) }
    }
}

impl Clone for MethodHandleEntry {
    /// A copy that shares the member with `self`.
    fn clone(&self) -> (r: Self)
        ensures
            r == *self,
    {
        MethodHandleEntry { ref_kind: self.ref_kind, ref_entry: share(&self.ref_entry) }
    }
}

impl Clone for MethodTypeEntry {
    /// A copy that shares the descriptor with `self`.
    fn clone(&self) -> (r: Self)
        ensures
            r == *self,
    {
        MethodTypeEntry { descriptor: share(&self.descriptor) }
    }
}

impl Clone for DynamicEntry {
    /// A copy that shares the name and type with `self`.
    fn clone(&self) -> (r: Self)
        ensures
            r == *self,
    {
        DynamicEntry {
            bootstrap_attr_idx: self.bootstrap_attr_idx,
            name_and_ty: share(&self.name_and_ty),
        }
    }
}

impl Clone for RefEntry {
    /// A copy that shares the class name and the name and type with `self`.
    fn clone(&self) -> (r: Self)
        ensures
            r == *self,
    {
        RefEntry { class: share(&self.class), name_and_ty: share(&self.name_and_ty) }
    }
}

impl Clone for ConstantPoolEntry {
    /// A copy that shares with `self` every entry that `self` refers to.
    fn clone(&self) -> (r: Self)
        ensures
            r == *self,
    {
        match self {
            ConstantPoolEntry::Class(name) => ConstantPoolEntry::Class(share(name)),
            ConstantPoolEntry::FieldRef(r) => ConstantPoolEntry::FieldRef(r.clone()),
            ConstantPoolEntry::MethodRef(r) => ConstantPoolEntry::MethodRef(r.clone()),
            ConstantPoolEntry::InterfaceMethodRef(r) => ConstantPoolEntry::InterfaceMethodRef(
                r.clone(),
            ),
            ConstantPoolEntry::String(text) => ConstantPoolEntry::String(share(text)),
            ConstantPoolEntry::Integer(v) => ConstantPoolEntry::Integer(*v),
            ConstantPoolEntry::Float(v) => ConstantPoolEntry::Float(*v),
            ConstantPoolEntry::Long(v) => ConstantPoolEntry::Long(*v),
            ConstantPoolEntry::Double(v) => ConstantPoolEntry::Double(*v),
            ConstantPoolEntry::NameAndType(n) => ConstantPoolEntry::NameAndType(share(n)),
            ConstantPoolEntry::Utf8(text) => ConstantPoolEntry::Utf8(share(text)),
            ConstantPoolEntry::MethodHandle(h) => ConstantPoolEntry::MethodHandle(h.clone()),
            ConstantPoolEntry::MethodType(t) => ConstantPoolEntry::MethodType(t.clone()),
            ConstantPoolEntry::Dynamic(d) => ConstantPoolEntry::Dynamic(d.clone()),
            ConstantPoolEntry::InvokeDynamic(d) => ConstantPoolEntry::InvokeDynamic(d.clone()),
            ConstantPoolEntry::Module(name) => ConstantPoolEntry::Module(share(name)),
            ConstantPoolEntry::Package(name) => ConstantPoolEntry::Package(share(name)),
        }
    }
}

/// What a sequence of slots holds: nothing for an unusable slot, else what
/// the entry holds.
pub open spec fn slot_views(slots: Seq<Option<ConstantPoolEntry>>) -> Seq<Option<EntryView>> {
    Seq::new(
        slots.len(),
        |i: int|
            match slots[i] {
                Some(e) => Some(e@),
                None => None,
            },
    )
}

/// The entry at the one-based `index` of a pool, if there is one.
pub open spec fn entry_at(pool: Seq<Option<EntryView>>, index: int) -> Option<EntryView> {
    if 1 <= index <= pool.len() {
        pool[index - 1]
    } else {
        None
    }
}

/// The linked constant pool of a class file.
///
/// Its entries are numbered from one. The slot behind a `Long` or a `Double`
/// is counted and holds no entry.
#[derive(Debug)]
pub struct ConstantPool {
    slots: Vec<Option<ConstantPoolEntry>>,
}

impl View for ConstantPool {
    type V = Seq<Option<EntryView>>;

    closed spec fn view(&self) -> Seq<Option<EntryView>> {
        slot_views(self.slots@)
    }
}

impl Clone for ConstantPool {
    /// A copy whose entries share with those of `self` what they refer to.
    fn clone(&self) -> (r: Self)
        ensures
            r@ == self@,
    {
        let n: usize = self.slots.len();
        let mut slots: Vec<Option<ConstantPoolEntry>> = Vec::with_capacity(n);
        let mut i: usize = 0;
        while i < n
            invariant
                n == self.slots@.len(),
                i <= n,
                slots@.len() == i,
                forall|j: int| 0 <= j < i ==> #[trigger] slots@[j] == self.slots@[j],
            decreases n - i,
        {
            let slot = match &self.slots[i] {
                Some(entry) => Some(entry.clone()),
                None => None,
            };
            slots.push(slot);
            i = i + 1;
        }
        assert(slot_views(slots@) =~= slot_views(self.slots@));
        ConstantPool { slots }
    }
}

impl ConstantPool {
    /// The pool with the given slots, the first being index one.
    pub fn new(slots: Vec<Option<ConstantPoolEntry>>) -> (pool: Self)
        ensures
            pool@ == slot_views(slots@),
    {
        ConstantPool { slots }
    }

    /// The number of slots, the unusable ones included.
    pub fn len(&self) -> (n: usize)
        ensures
            n == self@.len(),
    {
        self.slots.len()
    }

    /// The entry at `index`. There is none at index zero, past the end, or
    /// in the slot behind a `Long` or a `Double`.
    pub fn get(&self, index: u16) -> (r: Option<&ConstantPoolEntry>)
        ensures
            match r {
                Some(e) => entry_at(self@, index as int) == Some(e@),
                None => entry_at(self@, index as int) is None,
            },
    {
        if index == 0 || index as usize > self.slots.len() {
            return None;
        }
        self.slots[index as usize - 1].as_ref()
    }
}

} // verus!
