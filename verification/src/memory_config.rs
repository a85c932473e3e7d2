//! Architecture-neutral description of the memory that a task may touch.

use vstd::prelude::*;

verus! {

/// What a region of memory may be used for.
#[derive(Clone, Copy, Debug, PartialEq, Eq, Structural)]
pub enum MemoryRegionType {
    /// Readable, neither writeable nor executable.
    ReadOnlyData,
    /// Readable and writeable, not executable.
    ReadWriteData,
    /// Readable and executable, not writeable.
    ReadOnlyExecutable,
    /// Readable, writeable and executable.
    ReadWriteExecutable,
    /// Memory-mapped device registers; never executable.
    Device,
}

impl MemoryRegionType {
    /// Whether memory of this type may be written.
    pub open spec fn spec_is_writeable(&self) -> bool {
        *self is ReadWriteData || *self is ReadWriteExecutable
    }

    /// Whether memory of this type may be executed.
    pub open spec fn spec_is_executable(&self) -> bool {
        *self is ReadOnlyExecutable || *self is ReadWriteExecutable
    }

    /// Whether a region of this type permits every access that `request`
    /// asks for.
    ///
    /// Ordinary memory is ordered on two axes, read-only below read-write
    /// and non-executable below executable, and permits a request that is
    /// no higher on either. Device memory permits a request for device
    /// memory and nothing else, and nothing but device memory permits one.
    pub open spec fn spec_has_access(&self, request: MemoryRegionType) -> bool {
        if *self is Device || request is Device {
            *self == request
        } else {
            &&& request.spec_is_writeable() ==> self.spec_is_writeable()
            &&& request.spec_is_executable() ==> self.spec_is_executable()
        }
    }

    #[verifier::when_used_as_spec(spec_is_writeable)]
    pub fn is_writeable(&self) -> (writeable: bool)
        ensures
            writeable == self.spec_is_writeable(),
    {
        match self {
            MemoryRegionType::ReadWriteData | MemoryRegionType::ReadWriteExecutable => true,
            _ => false,
        }
    }

    #[verifier::when_used_as_spec(spec_is_executable)]
    pub fn is_executable(&self) -> (executable: bool)
        ensures
            executable == self.spec_is_executable(),
    {
        match self {
            MemoryRegionType::ReadOnlyExecutable | MemoryRegionType::ReadWriteExecutable => true,
            _ => false,
        }
    }

    #[verifier::when_used_as_spec(spec_has_access)]
    pub fn has_access(&self, request: MemoryRegionType) -> (permitted: bool)
        ensures
            permitted == self.spec_has_access(request),
    {
        match (self, request) {
            (MemoryRegionType::Device, MemoryRegionType::Device) => true,
            (MemoryRegionType::Device, _) => false,
            (_, MemoryRegionType::Device) => false,
            _ => (!request.is_writeable() || self.is_writeable()) && (!request.is_executable()
                || self.is_executable()),
        }
    }

    /// Permission is a partial order on the region types: every type permits
    /// itself, two types that permit each other are one type, and what a
    /// type permits, every type that permits it permits too.
    pub proof fn lemma_has_access_is_partial_order(
        a: MemoryRegionType,
        b: MemoryRegionType,
        c: MemoryRegionType,
    )
        ensures
            a.spec_has_access(a),
            a.spec_has_access(b) && b.spec_has_access(a) ==> a == b,
            a.spec_has_access(b) && b.spec_has_access(c) ==> a.spec_has_access(c),
    {
    }
}

/// One contiguous range of addresses, `start` included and `end` excluded,
/// and what may be done with it.
#[derive(Clone, Copy, Debug, PartialEq, Eq, Structural)]
pub struct MemoryRegion {
    pub ty: MemoryRegionType,
    pub start: u32,
    pub end: u32,
}

impl MemoryRegion {
    /// A region is well formed when its end is not below its start.
    pub open spec fn wf(&self) -> bool {
        self.start <= self.end
    }

    /// Whether this region lies around `request` and permits what it asks
    /// for.
    pub open spec fn spec_has_access(&self, request: &MemoryRegion) -> bool {
        &&& self.start <= request.start
        &&& request.end <= self.end
        &&& self.ty.spec_has_access(request.ty)
    }

    /// Whether some region of `regions` lies around `request` and permits
    /// what it asks for.
    pub open spec fn spec_regions_have_access(
        regions: Seq<MemoryRegion>,
        request: &MemoryRegion,
    ) -> bool {
        exists|i: int| 0 <= i < regions.len() && (#[trigger] regions[i]).spec_has_access(request)
    }

    pub fn new(ty: MemoryRegionType, start: u32, end: u32) -> (region: Self)
        ensures
            region == (MemoryRegion { ty, start, end }),
    {
        MemoryRegion { ty, start, end }
    }

    #[verifier::when_used_as_spec(spec_has_access)]
    pub fn has_access(&self, request: &MemoryRegion) -> (permitted: bool)
        ensures
            permitted == self.spec_has_access(request),
    {
        self.start <= request.start && request.end <= self.end && self.ty.has_access(request.ty)
    }

    /// Whether `validation_region` is wholly covered by a member of
    /// `regions` that permits the access it stands for.
    pub fn regions_have_access(
        regions: &[MemoryRegion],
        validation_region: &MemoryRegion,
    ) -> (permitted: bool)
        ensures
            permitted == Self::spec_regions_have_access(regions@, validation_region),
    {
        let mut i: usize = 0;
        while i < regions.len()
            invariant
                i <= regions.len(),
                forall|j: int|
                    0 <= j < i ==> !(#[trigger] regions@[j]).spec_has_access(validation_region),
            decreases regions.len() - i,
        {
            if regions[i].has_access(validation_region) {
                return true;
            }
            i += 1;
        }
        false
    }
}

} // verus!
