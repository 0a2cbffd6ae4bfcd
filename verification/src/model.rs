//! The validated data model: platform description, protection domains,
//! memory regions, IRQ bindings, channels, and the aggregate system
//! description, together with the error taxonomy and the mathematical
//! views the contracts are stated over.

use vstd::prelude::*;

verus! {

/// The architectures the kernel configuration can name.
#[derive(Debug, Clone, Copy, PartialEq, Eq, Structural)]
pub enum KernelArch {
    Aarch64,
}

/// The slice of the kernel configuration the parser needs: which
/// architecture the description targets.
#[derive(Debug, Clone, Copy, PartialEq, Eq, Structural)]
pub struct KernelConfig {
    pub arch: KernelArch,
}

/// How a hardware interrupt is triggered.
#[derive(Debug, Clone, Copy, PartialEq, Eq, Hash, Structural)]
pub enum ArmIrqTrigger {
    Edge,
    Level,
}

/// A valid page-size table: non-empty, positive, strictly ascending.
pub open spec fn page_sizes_wf(sizes: Seq<u64>) -> bool {
    &&& sizes.len() > 0
    &&& sizes[0] > 0
    &&& forall|i: int, j: int| 0 <= i < j < sizes.len() ==> sizes[i] < sizes[j]
}

/// Platform-specific properties needed while validating a description:
/// the table of valid page sizes, ordered ascending.
pub struct PlatformDescription {
    page_sizes: Vec<u64>,
}

impl View for PlatformDescription {
    type V = Seq<u64>;

    closed spec fn view(&self) -> Seq<u64> {
        self.page_sizes@
    }
}

impl PlatformDescription {
    /// The page sizes of the configured architecture. The one modeled
    /// architecture is a 64-bit ARM target with a 4 KiB small page and a
    /// 2 MiB large page.
    pub fn new(kernel_config: &KernelConfig) -> (r: PlatformDescription)
        ensures
            r@.len() == 2,
            r@[0] == 0x1000u64,
            r@[1] == 0x200000u64,
            page_sizes_wf(r@),
    {
        match kernel_config.arch {
            KernelArch::Aarch64 => {
                let mut page_sizes: Vec<u64> = Vec::new();
                page_sizes.push(0x1000);
                page_sizes.push(0x200_000);
                PlatformDescription { page_sizes }
            },
        }
    }

    /// The page-size table itself, smallest first.
    pub fn page_sizes(&self) -> (r: &Vec<u64>)
        ensures
            r@ == self@,
    {
        &self.page_sizes
    }
}

/// One permission of a memory mapping; permissions combine into a bitmask.
#[derive(Debug, Clone, Copy, PartialEq, Eq, Structural)]
pub enum SysMapPerms {
    Read,
    Write,
    Execute,
}

impl SysMapPerms {
    /// The bit each permission contributes to a permission mask.
    pub fn bits(&self) -> (r: u8)
        ensures
            r == match *self {
                SysMapPerms::Read => 1u8,
                SysMapPerms::Write => 2u8,
                SysMapPerms::Execute => 4u8,
            },
    {
        match *self {
            SysMapPerms::Read => 1,
            SysMapPerms::Write => 2,
            SysMapPerms::Execute => 4,
        }
    }
}

/// A mapping of a memory region into a protection domain.
#[derive(Debug, Clone, PartialEq, Eq, Hash)]
pub struct SysMap {
    pub mr: String,
    pub vaddr: u64,
    pub perms: u8,
    pub cached: bool,
}

/// A memory region: a name, a total size, the page size it is mapped
/// with, the derived page count, and an optional fixed physical address.
#[derive(Debug, PartialEq, Eq, Hash, Clone)]
pub struct SysMemoryRegion {
    pub name: String,
    pub size: u64,
    pub page_size: u64,
    pub page_count: u64,
    pub phys_addr: Option<u64>,
}

impl SysMemoryRegion {
    /// The size in bytes of one page of this region.
    pub fn page_bytes(&self) -> (r: u64)
        ensures
            r == self.page_size,
    {
        self.page_size
    }
}

/// A hardware interrupt bound to a protection domain under a badge id.
#[derive(Debug, PartialEq, Eq, Hash)]
pub struct SysIrq {
    pub irq: u64,
    pub id: u64,
    pub trigger: ArmIrqTrigger,
}

/// A symbol patched with either a region's physical address or a fixed
/// virtual address; exactly one of the two is set.
#[derive(Debug, PartialEq, Eq, Hash)]
pub struct SysSetVar {
    pub symbol: String,
    pub region_paddr: Option<String>,
    pub vaddr: Option<u64>,
}

impl SysSetVar {
    /// Exactly one of the two targets is set.
    pub open spec fn wf(&self) -> bool {
        self.region_paddr is Some <==> self.vaddr is None
    }
}

/// A channel between two protection domains: each end is the domain's
/// position in the domain list plus the badge id events carry at runtime.
#[derive(Debug, Clone, Copy, PartialEq, Eq, Structural)]
pub struct Channel {
    pub pd_a: usize,
    pub id_a: u64,
    pub pd_b: usize,
    pub id_b: u64,
}

/// An isolated execution context with its scheduling parameters, program
/// image, memory mappings, IRQ bindings and symbol patches.
#[derive(Debug, PartialEq, Eq, Hash)]
pub struct ProtectionDomain {
    pub name: String,
    pub priority: u32,
    pub budget: u32,
    pub period: u32,
    pub pp: bool,
    pub passive: bool,
    pub program_image: String,
    pub maps: Vec<SysMap>,
    pub irqs: Vec<SysIrq>,
    pub setvars: Vec<SysSetVar>,
}

/// The view of a protection domain: the same fields over sequences.
pub struct PdV {
    pub name: Seq<char>,
    pub priority: u32,
    pub budget: u32,
    pub period: u32,
    pub pp: bool,
    pub passive: bool,
    pub program_image: Seq<char>,
    pub maps: Seq<SysMap>,
    pub irqs: Seq<SysIrq>,
    pub setvars: Seq<SysSetVar>,
}

impl View for ProtectionDomain {
    type V = PdV;

    open spec fn view(&self) -> PdV {
        PdV {
            name: self.name@,
            priority: self.priority,
            budget: self.budget,
            period: self.period,
            pp: self.pp,
            passive: self.passive,
            program_image: self.program_image@,
            maps: self.maps@,
            irqs: self.irqs@,
            setvars: self.setvars@,
        }
    }
}

/// The view of a memory region.
pub struct MrV {
    pub name: Seq<char>,
    pub size: u64,
    pub page_size: u64,
    pub page_count: u64,
    pub phys_addr: Option<u64>,
}

impl View for SysMemoryRegion {
    type V = MrV;

    open spec fn view(&self) -> MrV {
        MrV {
            name: self.name@,
            size: self.size,
            page_size: self.page_size,
            page_count: self.page_count,
            phys_addr: self.phys_addr,
        }
    }
}

/// The complete validated description: domains, memory regions and
/// channels, each list in document order.
#[derive(Debug)]
pub struct SystemDescription {
    pub protection_domains: Vec<ProtectionDomain>,
    pub memory_regions: Vec<SysMemoryRegion>,
    pub channels: Vec<Channel>,
}

/// The view of a system description.
pub struct SysV {
    pub pds: Seq<PdV>,
    pub mrs: Seq<MrV>,
    pub chs: Seq<Channel>,
}

/// The views of a list of protection domains.
pub open spec fn pds_view(pds: Seq<ProtectionDomain>) -> Seq<PdV> {
    pds.map(|i: int, pd: ProtectionDomain| pd@)
}

/// The views of a list of memory regions.
pub open spec fn mrs_view(mrs: Seq<SysMemoryRegion>) -> Seq<MrV> {
    mrs.map(|i: int, mr: SysMemoryRegion| mr@)
}

impl View for SystemDescription {
    type V = SysV;

    open spec fn view(&self) -> SysV {
        SysV {
            pds: pds_view(self.protection_domains@),
            mrs: mrs_view(self.memory_regions@),
            chs: self.channels@,
        }
    }
}

/// Why a description was rejected. The first violation found aborts the
/// whole parse; no partial description is ever returned.
#[derive(Debug, Clone, PartialEq, Eq)]
#[allow(inconsistent_fields)]
pub enum ParseError {
    /// A required attribute is absent from an element.
    MissingAttribute { element: String, attribute: String },
    /// An element carries an attribute outside its allow-list.
    UnknownAttribute { element: String, attribute: String },
    /// An attribute value is not an integer of the expected range; the
    /// raw text of the value is kept as found.
    OutOfRange { element: String, attribute: String, min: u64, max: u64, actual: String },
    /// An element has the wrong number of children of a required kind.
    CardinalityError { element: String, expected: u64, actual: u64 },
    /// A name does not refer to any previously declared entity.
    UnresolvedReference { kind: String, name: String },
    /// A tag the dispatcher does not recognize.
    UnsupportedElement { tag: String },
    /// An architecture the platform table does not model.
    UnsupportedArchitecture { id: String },
    /// A name that an earlier entity of the same kind already carries.
    DuplicateName { kind: String, name: String },
    /// A badge id already attached to the same protection domain.
    DuplicateBadge { pd: usize, id: u64 },
    /// The text is not well-formed XML at all.
    MalformedDocument,
}

/// The view of a parse error.
#[allow(inconsistent_fields)]
pub enum ErrV {
    MissingAttribute { element: Seq<char>, attribute: Seq<char> },
    UnknownAttribute { element: Seq<char>, attribute: Seq<char> },
    OutOfRange { element: Seq<char>, attribute: Seq<char>, min: u64, max: u64, actual: Seq<char> },
    CardinalityError { element: Seq<char>, expected: u64, actual: u64 },
    UnresolvedReference { kind: Seq<char>, name: Seq<char> },
    UnsupportedElement { tag: Seq<char> },
    UnsupportedArchitecture { id: Seq<char> },
    DuplicateName { kind: Seq<char>, name: Seq<char> },
    DuplicateBadge { pd: usize, id: u64 },
    MalformedDocument,
}

impl View for ParseError {
    type V = ErrV;

    open spec fn view(&self) -> ErrV {
        match self {
            ParseError::MissingAttribute { element, attribute } => ErrV::MissingAttribute {
                element: element@,
                attribute: attribute@,
            },
            ParseError::UnknownAttribute { element, attribute } => ErrV::UnknownAttribute {
                element: element@,
                attribute: attribute@,
            },
            ParseError::OutOfRange { element, attribute, min, max, actual } => ErrV::OutOfRange {
                element: element@,
                attribute: attribute@,
                min: *min,
                max: *max,
                actual: actual@,
            },
            ParseError::CardinalityError { element, expected, actual } => ErrV::CardinalityError {
                element: element@,
                expected: *expected,
                actual: *actual,
            },
            ParseError::UnresolvedReference { kind, name } => ErrV::UnresolvedReference {
                kind: kind@,
                name: name@,
            },
            ParseError::UnsupportedElement { tag } => ErrV::UnsupportedElement { tag: tag@ },
            ParseError::UnsupportedArchitecture { id } => ErrV::UnsupportedArchitecture { id: id@ },
            ParseError::DuplicateName { kind, name } => ErrV::DuplicateName {
                kind: kind@,
                name: name@,
            },
            ParseError::DuplicateBadge { pd, id } => ErrV::DuplicateBadge { pd: *pd, id: *id },
            ParseError::MalformedDocument => ErrV::MalformedDocument,
        }
    }
}

} // verus!
