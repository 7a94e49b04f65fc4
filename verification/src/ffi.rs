//! Plain value-level representations of the foreign-interface leaf types:
//! phantom-typed flag words and non-dispatchable handles.  The loader glue
//! that traffics in raw pointers lives outside the library; these carriers
//! hold nothing but machine integers.

use vstd::prelude::*;
use core::marker::PhantomData;

verus! {

/// Relies on `Clone` for `PhantomData`, a unit type: cloning yields the
/// same (only) value.
pub assume_specification<T: core::marker::PointeeSized>[ <PhantomData<T> as Clone>::clone ](
    p: &PhantomData<T>,
) -> (r: PhantomData<T>)
    ensures
        r == *p,
;

/// A flag word tagged with the phantom type of the flag set it belongs to,
/// so different flag sets cannot be mixed up.
#[derive(Debug, Clone, Copy)]
pub struct Flags<T, Repr> {
    repr: Repr,
    flag_type: PhantomData<T>,
}

impl<T, Repr> Flags<T, Repr> {
    /// The raw word.
    pub closed spec fn word(&self) -> Repr {
        self.repr
    }

    pub fn new(repr: Repr) -> (r: Flags<T, Repr>)
        ensures
            r.word() == repr,
    {
        Flags { repr, flag_type: PhantomData }
    }
}

impl<T> Flags<T, u32> {
    /// The raw word of a 32-bit flag set.
    pub fn get(&self) -> (r: u32)
        ensures
            r == self.word(),
    {
        self.repr
    }

    /// The union of two flag words.
    pub fn union(self, rhs: Flags<T, u32>) -> (r: Flags<T, u32>)
        ensures
            r.word() == self.word() | rhs.word(),
    {
        Flags { repr: self.repr | rhs.repr, flag_type: PhantomData }
    }

    /// The intersection of two flag words.
    pub fn intersection(self, rhs: Flags<T, u32>) -> (r: Flags<T, u32>)
        ensures
            r.word() == self.word() & rhs.word(),
    {
        Flags { repr: self.repr & rhs.repr, flag_type: PhantomData }
    }

    /// Whether any bit is shared with `rhs`.
    pub fn intersects(self, rhs: Flags<T, u32>) -> (r: bool)
        ensures
            r == ((self.word() & rhs.word()) != 0),
    {
        (self.repr & rhs.repr) != 0
    }

    /// Whether every bit of this word also stands in `rhs`.
    pub fn subset(self, rhs: Flags<T, u32>) -> (r: bool)
        ensures
            r == ((self.word() & rhs.word()) == self.word()),
    {
        (self.repr & rhs.repr) == self.repr
    }
}

/// Types whose values may start out as an explicit null handle.
pub trait NullableHandle: Sized {
    fn null() -> Self;
}

/// The null value of a non-dispatchable handle.
pub const VK_NULL_HANDLE: u64 = 0;

/// A non-dispatchable handle: a 64-bit value tagged with the phantom type
/// of the object it names.
#[derive(Debug, Clone, Copy)]
pub struct NondispatchableHandle<T> {
    handle: u64,
    handle_type: PhantomData<T>,
}

impl<T> NondispatchableHandle<T> {
    /// The raw handle value.
    pub closed spec fn raw(&self) -> u64 {
        self.handle
    }

    fn new(handle: u64) -> (r: NondispatchableHandle<T>)
        ensures
            r.raw() == handle,
    {
        NondispatchableHandle { handle, handle_type: PhantomData }
    }

    /// Reads the raw handle value back.
    pub fn get(&self) -> (r: u64)
        ensures
            r == self.raw(),
    {
        self.handle
    }

    /// Wraps a raw handle value.
    pub fn from_raw(handle: u64) -> (r: NondispatchableHandle<T>)
        ensures
            r.raw() == handle,
    {
        NondispatchableHandle::new(handle)
    }
}

impl<T> NullableHandle for NondispatchableHandle<T> {
    fn null() -> Self {
        NondispatchableHandle::new(VK_NULL_HANDLE)
    }
}

/// The chaining header every extendable structure starts with: a structure
/// type tag and the address of the next structure in the chain, both held
/// as plain machine words.
#[derive(Debug, Clone, Copy)]
pub struct VkStructInfo {
    pub ty: u64,
    pub next: u64,
}

/// An extendable structure: the chaining header followed by its payload.
#[derive(Debug, Clone, Copy)]
pub struct VkStructInstance<T> {
    pub struct_info: VkStructInfo,
    pub data: T,
}

impl<T> VkStructInstance<T> {
    /// Points the chain at the next structure's address; everything else
    /// stays as it was.
    pub fn set_next(&mut self, next: u64)
        ensures
            final(self).struct_info.next == next,
            final(self).struct_info.ty == old(self).struct_info.ty,
            final(self).data == old(self).data,
    {
        self.struct_info.next = next;
    }
}

/// Application identification payload: names held as string addresses,
/// versions as packed words.
#[derive(Debug, Clone, Copy)]
pub struct VkApplicationInfoBase {
    pub application_name: u64,
    pub engine_name: u64,
    pub application_version: u32,
    pub engine_version: u32,
    pub api_version: u32,
}

/// The extendable application-information structure.
pub type VkApplicationInfo = VkStructInstance<VkApplicationInfoBase>;

/// The flat foreign layout the wrapped application-information structure
/// must not outgrow.
#[derive(Debug, Clone, Copy)]
pub struct RawApplicationInfo {
    pub ty: u64,
    pub next: u64,
    pub application_name: u64,
    pub engine_name: u64,
    pub application_version: u32,
    pub engine_version: u32,
    pub api_version: u32,
}

/// Host allocation callbacks: an opaque user-data word and five callback
/// addresses, tagged with the phantom type of the user data.
#[derive(Debug, Clone, Copy)]
pub struct VkAllocationCallbacks<UserData> {
    pub user_data: u64,
    pub allocation: u64,
    pub reallocation: u64,
    pub free: u64,
    pub internal_allocation: u64,
    pub internal_free: u64,
    pub user_data_type: PhantomData<UserData>,
}

/// The flat foreign layout the allocation-callback structure must match.
#[derive(Debug, Clone, Copy)]
pub struct RawAllocationCallbacks {
    pub user_data: u64,
    pub allocation: u64,
    pub reallocation: u64,
    pub free: u64,
    pub internal_allocation: u64,
    pub internal_free: u64,
}

} // verus!
