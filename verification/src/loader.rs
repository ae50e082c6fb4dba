//! Loading user executables: the checks on an ELF image's header, and the
//! loadable segments it describes, checked, in address order and apart.
//!
//! The ELF file format itself is parsed by the `elf` crate.
use crate::memory::UserPageAccess;
use elf::ElfBytes;
use elf::ParseError;
use elf::endian::LittleEndian;
use elf::file::Class;
use vstd::arithmetic::div_mod::lemma_div_is_ordered;
use vstd::multiset::Multiset;
use vstd::prelude::*;
use vstd::seq_lib::{to_multiset_build, to_multiset_contains, to_multiset_insert, to_multiset_remove};

verus! {

/// Where user executables are loaded.
pub const USER_EXECUTABLE_ADDR: u64 = 0x0000_0000_0040_0000;

/// Where the user heap starts.
pub const USER_HEAP_ADDR: u64 = 0x0000_0001_0000_0000;

/// The room executables have, up to the heap.
pub const USER_EXECUTABLE_SIZE: u64 = 0x0000_0001_0000_0000 - 0x0000_0000_0040_0000;

/// The top of the user stack.
pub const USER_STACK_TOP: u64 = 0x0000_7fff_ffff_f000;

/// The size of the user stack.
pub const USER_STACK_SIZE: u64 = 16 * 4096;

/// The bottom of the user stack.
pub const USER_STACK_ADDR: u64 = 0x0000_7fff_ffff_f000 - 16 * 4096;

/// The size of the unmapped guard page below the user stack.
pub const USER_STACK_GUARD_SIZE: u64 = 4096;

/// The guard page below the user stack.
pub const USER_STACK_GUARD_ADDR: u64 = 0x0000_7fff_ffff_f000 - 16 * 4096 - 4096;

/// The end of the room the user heap may grow into.
pub const USER_HEAP_LIMIT: u64 = 0x0000_1000_0000_0000;

/// ELF version 1.
pub const EV_CURRENT: u32 = 1;

/// ELF machine: x86-64.
pub const EM_X86_64: u16 = 62;

/// ELF type: executable.
pub const ET_EXEC: u16 = 2;

/// Segment type: loadable.
pub const PT_LOAD: u32 = 1;

/// Segment flag: executable.
pub const PF_X: u32 = 1;

/// Segment flag: writable.
pub const PF_W: u32 = 2;

#[verifier::external_type_specification]
#[verifier::external_body]
pub struct ExParseError(ParseError);

/// Whether an address lies where executables are loaded.
pub open spec fn spec_is_executable_address(address: u64) -> bool {
    USER_EXECUTABLE_ADDR <= address && address - USER_EXECUTABLE_ADDR < USER_EXECUTABLE_SIZE
}

#[verifier::when_used_as_spec(spec_is_executable_address)]
pub fn is_executable_address(address: u64) -> (r: bool)
    ensures
        r == spec_is_executable_address(address),
{
    address >= USER_EXECUTABLE_ADDR && address - USER_EXECUTABLE_ADDR < USER_EXECUTABLE_SIZE
}

/// Whether a 64-bit address is canonical: bits 48 to 63 repeat bit 47.
pub open spec fn is_canonical(address: u64) -> bool {
    address < 0x0000_8000_0000_0000 || address >= 0xffff_8000_0000_0000
}

/// The ELF file class.
#[derive(Debug, Clone, Copy, PartialEq, Eq, Structural)]
pub enum ElfClass {
    Elf32,
    Elf64,
}

/// The fields of an ELF file header that loading looks at.
#[derive(Debug, Clone, Copy, PartialEq, Eq, Structural)]
pub struct ElfHeader {
    pub class: ElfClass,
    pub version: u32,
    pub e_machine: u16,
    pub e_type: u16,
    pub e_entry: u64,
    pub e_phoff: u64,
    pub e_phnum: u16,
}

/// One entry of the program header table.
#[derive(Debug, Clone, Copy, PartialEq, Eq, Structural)]
pub struct ProgramHeader {
    pub p_type: u32,
    pub p_offset: u64,
    pub p_vaddr: u64,
    pub p_paddr: u64,
    pub p_filesz: u64,
    pub p_memsz: u64,
    pub p_flags: u32,
    pub p_align: u64,
}

/// What `elf`'s `ElfBytes::<LittleEndian>::minimal_parse` makes of an
/// image: its file header, or `None` when it refuses the image.
pub uninterp spec fn elf_header_of(image: Seq<u8>) -> Option<ElfHeader>;

/// The program headers that `elf`'s segment table of a parsed image
/// yields, in order, if the image has a table.
pub uninterp spec fn elf_program_headers_of(image: Seq<u8>) -> Option<Seq<ProgramHeader>>;

/// Parses the file header of a little-endian image with
/// `ElfBytes::<LittleEndian>::minimal_parse`, which also locates the
/// section and program header tables. The result is named, not stated.
#[verifier::external_body]
fn parse_header(image: &[u8]) -> (r: Result<ElfHeader, ParseError>)
    ensures
        match r {
            Ok(h) => elf_header_of(image@) == Some(h),
            Err(_) => elf_header_of(image@) is None,
        },
{
    let elf = ElfBytes::<LittleEndian>::minimal_parse(image)?;
    Ok(
        ElfHeader {
            class: match elf.ehdr.class {
                Class::ELF32 => ElfClass::Elf32,
                Class::ELF64 => ElfClass::Elf64,
            },
            version: elf.ehdr.version,
            e_machine: elf.ehdr.e_machine,
            e_type: elf.ehdr.e_type,
            e_entry: elf.ehdr.e_entry,
            e_phoff: elf.ehdr.e_phoff,
            e_phnum: elf.ehdr.e_phnum,
        },
    )
}

/// The program headers of a parsed image, through `ElfBytes::segments` and
/// the segment table's iterator. The headers are named, not stated; the
/// `elf` source shows that a parsed image has a segment table exactly when
/// its header's program header offset is not zero.
#[verifier::external_body]
fn program_headers(image: &[u8]) -> (r: Option<Vec<ProgramHeader>>)
    ensures
        match r {
            Some(v) => elf_program_headers_of(image@) == Some(v@),
            None => elf_program_headers_of(image@) is None,
        },
        elf_header_of(image@) matches Some(h) ==> (r is Some <==> h.e_phoff != 0),
{
    let table = ElfBytes::<LittleEndian>::minimal_parse(image).ok()?.segments()?;
    let headers = table.iter().map(
        |ph: elf::segment::ProgramHeader|
            ProgramHeader {
                p_type: ph.p_type, p_offset: ph.p_offset, p_vaddr: ph.p_vaddr,
                p_paddr: ph.p_paddr, p_filesz: ph.p_filesz, p_memsz: ph.p_memsz,
                p_flags: ph.p_flags, p_align: ph.p_align,
            },
    );
    Some(headers.collect())
}

/// The file bytes of a segment, through `ElfBytes::segment_data`: the
/// `p_filesz` bytes from `p_offset`, when they lie within the image, and a
/// parse error otherwise.
#[verifier::external_body]
fn segment_data(image: &[u8], header: &ProgramHeader) -> (r: Result<Vec<u8>, ParseError>)
    requires
        elf_header_of(image@) is Some,
    ensures
        r is Ok <==> header.p_offset + header.p_filesz <= image@.len(),
        r matches Ok(d) ==> d@ == image@.subrange(
            header.p_offset as int,
            header.p_offset + header.p_filesz,
        ),
{
    let elf = ElfBytes::<LittleEndian>::minimal_parse(image)?;
    let phdr = elf::segment::ProgramHeader {
        p_type: header.p_type,
        p_offset: header.p_offset,
        p_vaddr: header.p_vaddr,
        p_paddr: header.p_paddr,
        p_filesz: header.p_filesz,
        p_memsz: header.p_memsz,
        p_flags: header.p_flags,
        p_align: header.p_align,
    };
    Ok(elf.segment_data(&phdr)?.to_vec())
}

/// Why an image cannot be loaded.
#[derive(Debug)]
pub enum ExecutableImageError {
    Parse(ParseError),
    UnsupportedClass,
    UnsupportedVersion,
    UnsupportedMachine,
    UnsupportedType,
    MissingProgramHeaders,
    InvalidEntryPoint,
    InvalidLoadSegment,
    OverlappingLoadSegments,
}

/// The kind of an image error, without the parse error's details.
#[derive(Debug, Clone, Copy, PartialEq, Eq, Structural)]
pub enum ImageErrorKind {
    Parse,
    UnsupportedClass,
    UnsupportedVersion,
    UnsupportedMachine,
    UnsupportedType,
    MissingProgramHeaders,
    InvalidEntryPoint,
    InvalidLoadSegment,
    OverlappingLoadSegments,
}

/// The kind of an image error.
pub open spec fn error_kind(e: ExecutableImageError) -> ImageErrorKind {
    match e {
        ExecutableImageError::Parse(_) => ImageErrorKind::Parse,
        ExecutableImageError::UnsupportedClass => ImageErrorKind::UnsupportedClass,
        ExecutableImageError::UnsupportedVersion => ImageErrorKind::UnsupportedVersion,
        ExecutableImageError::UnsupportedMachine => ImageErrorKind::UnsupportedMachine,
        ExecutableImageError::UnsupportedType => ImageErrorKind::UnsupportedType,
        ExecutableImageError::MissingProgramHeaders => ImageErrorKind::MissingProgramHeaders,
        ExecutableImageError::InvalidEntryPoint => ImageErrorKind::InvalidEntryPoint,
        ExecutableImageError::InvalidLoadSegment => ImageErrorKind::InvalidLoadSegment,
        ExecutableImageError::OverlappingLoadSegments => ImageErrorKind::OverlappingLoadSegments,
    }
}

/// The first check a file header fails, if any: a 64-bit, version 1,
/// x86-64 executable with program headers, entered inside the executable
/// area.
pub open spec fn header_check(h: ElfHeader) -> Option<ImageErrorKind> {
    if h.class != ElfClass::Elf64 {
        Some(ImageErrorKind::UnsupportedClass)
    } else if h.version != EV_CURRENT {
        Some(ImageErrorKind::UnsupportedVersion)
    } else if h.e_machine != EM_X86_64 {
        Some(ImageErrorKind::UnsupportedMachine)
    } else if h.e_type != ET_EXEC {
        Some(ImageErrorKind::UnsupportedType)
    } else if h.e_phoff == 0 || h.e_phnum == 0 {
        Some(ImageErrorKind::MissingProgramHeaders)
    } else if !spec_is_executable_address(h.e_entry) {
        Some(ImageErrorKind::InvalidEntryPoint)
    } else {
        None
    }
}

/// Checks a parsed file header.
pub fn validate_header(header: &ElfHeader) -> (r: Result<(), ExecutableImageError>)
    ensures
        match header_check(*header) {
            None => r is Ok,
            Some(kind) => r matches Err(e) && error_kind(e) == kind,
        },
{
    if header.class != ElfClass::Elf64 {
        return Err(ExecutableImageError::UnsupportedClass);
    }
    if header.version != EV_CURRENT {
        return Err(ExecutableImageError::UnsupportedVersion);
    }
    if header.e_machine != EM_X86_64 {
        return Err(ExecutableImageError::UnsupportedMachine);
    }
    if header.e_type != ET_EXEC {
        return Err(ExecutableImageError::UnsupportedType);
    }
    if header.e_phoff == 0 || header.e_phnum == 0 {
        return Err(ExecutableImageError::MissingProgramHeaders);
    }
    if !is_executable_address(header.e_entry) {
        return Err(ExecutableImageError::InvalidEntryPoint);
    }
    Ok(())
}

/// A parsed, checked executable image.
pub struct ExecutableImage<'a> {
    image: &'a [u8],
    header: ElfHeader,
}

impl<'a> ExecutableImage<'a> {
    #[verifier::type_invariant]
    closed spec fn inv(self) -> bool {
        &&& elf_header_of(self.image@) == Some(self.header)
        &&& header_check(self.header) is None
    }

    /// The bytes of the image.
    pub closed spec fn spec_image(&self) -> Seq<u8> {
        self.image@
    }

    /// The parsed file header.
    pub closed spec fn spec_header(&self) -> ElfHeader {
        self.header
    }

    /// Parses an image and checks its header.
    pub fn new(image: &'a [u8]) -> (r: Result<Self, ExecutableImageError>)
        ensures
            match elf_header_of(image@) {
                None => r matches Err(e) && error_kind(e) == ImageErrorKind::Parse,
                Some(h) => match header_check(h) {
                    Some(kind) => r matches Err(e) && error_kind(e) == kind,
                    None => r matches Ok(x) && x.spec_image() == image@ && x.spec_header() == h,
                },
            },
    {
        let header = match parse_header(image) {
            Ok(header) => header,
            Err(error) => return Err(ExecutableImageError::Parse(error)),
        };
        validate_header(&header)?;
        Ok(Self { image, header })
    }

    /// The address execution starts at.
    pub fn entry_point(&self) -> (r: u64)
        ensures
            r == self.spec_header().e_entry,
            spec_is_executable_address(r),
    {
        proof {
            use_type_invariant(self);
        }
        self.header.e_entry
    }
}

/// A checked loadable segment: its first and last address, its size in
/// memory, the access its pages get, and its bytes from the file.
#[derive(Debug)]
pub struct LoadSegment {
    pub start_address: u64,
    pub end_address: u64,
    pub memory_size: u64,
    pub access: UserPageAccess,
    pub data: Vec<u8>,
}

/// A loadable segment as plain values.
pub struct LoadView {
    pub start: u64,
    pub end: u64,
    pub size: u64,
    pub access: UserPageAccess,
    pub data: Seq<u8>,
}

impl LoadSegment {
    pub open spec fn view(&self) -> LoadView {
        LoadView {
            start: self.start_address,
            end: self.end_address,
            size: self.memory_size,
            access: self.access,
            data: self.data@,
        }
    }
}

/// The views of segments.
pub open spec fn views(segments: Seq<LoadSegment>) -> Seq<LoadView> {
    segments.map_values(|s: LoadSegment| s.view())
}

/// The access of a segment from its flags: write and execute together are
/// refused.
pub open spec fn access_of(flags: u32) -> Option<UserPageAccess> {
    let w = flags & PF_W != 0;
    let x = flags & PF_X != 0;
    if !w && !x {
        Some(UserPageAccess::ReadOnly)
    } else if w && !x {
        Some(UserPageAccess::ReadWrite)
    } else if !w && x {
        Some(UserPageAccess::ReadExecute)
    } else {
        None
    }
}

/// What loading makes of one program header.
pub enum Verdict {
    /// Not loadable, or empty in memory: ignored.
    Skip,
    /// A loadable segment that breaks a rule.
    Invalid,
    /// A loadable segment whose bytes are not in the file.
    ParseFailure,
    /// A loadable segment.
    Load(LoadView),
}

/// The verdict on one program header: a loadable segment with bytes in
/// memory must not be larger in the file than in memory, must have
/// canonical first and last addresses inside the executable area, must not
/// be both writable and executable, and must have its bytes in the file.
pub open spec fn verdict(image: Seq<u8>, h: ProgramHeader) -> Verdict {
    if h.p_type != PT_LOAD || h.p_memsz == 0 {
        Verdict::Skip
    } else if h.p_filesz > h.p_memsz || !is_canonical(h.p_vaddr) {
        Verdict::Invalid
    } else if h.p_vaddr + h.p_memsz - 1 > u64::MAX || !is_canonical(
        (h.p_vaddr + h.p_memsz - 1) as u64,
    ) {
        Verdict::Invalid
    } else if !spec_is_executable_address(h.p_vaddr) || !spec_is_executable_address(
        (h.p_vaddr + h.p_memsz - 1) as u64,
    ) {
        Verdict::Invalid
    } else if access_of(h.p_flags) is None {
        Verdict::Invalid
    } else if h.p_offset + h.p_filesz > image.len() {
        Verdict::ParseFailure
    } else {
        Verdict::Load(
            LoadView {
                start: h.p_vaddr,
                end: (h.p_vaddr + h.p_memsz - 1) as u64,
                size: h.p_memsz,
                access: access_of(h.p_flags).unwrap(),
                data: image.subrange(h.p_offset as int, h.p_offset + h.p_filesz),
            },
        )
    }
}

/// The first program header, from `i` on, that loading refuses, as the
/// kind of error it gives.
pub open spec fn first_problem(image: Seq<u8>, hs: Seq<ProgramHeader>, i: int) -> Option<ImageErrorKind>
    decreases hs.len() - i,
{
    if i < 0 || i >= hs.len() {
        None
    } else {
        match verdict(image, hs[i]) {
            Verdict::Invalid => Some(ImageErrorKind::InvalidLoadSegment),
            Verdict::ParseFailure => Some(ImageErrorKind::Parse),
            _ => first_problem(image, hs, i + 1),
        }
    }
}

/// The loadable segments of the first `n` program headers, in file order.
pub open spec fn loads(image: Seq<u8>, hs: Seq<ProgramHeader>, n: int) -> Seq<LoadView>
    decreases n,
{
    if n <= 0 || n > hs.len() {
        Seq::empty()
    } else {
        match verdict(image, hs[n - 1]) {
            Verdict::Load(v) => loads(image, hs, n - 1).push(v),
            _ => loads(image, hs, n - 1),
        }
    }
}

/// Whether two segments share no page.
pub open spec fn pages_disjoint(a: LoadView, b: LoadView) -> bool {
    a.end / 4096 < b.start / 4096 || b.end / 4096 < a.start / 4096
}

/// Whether no two segments share a page (a segment listed twice shares its
/// own pages).
pub open spec fn pages_apart(m: Multiset<LoadView>) -> bool {
    forall|a: LoadView, b: LoadView|
        #![trigger m.count(a), m.count(b)]
        m.count(a) > 0 && m.count(b) > 0 && (a != b || m.count(a) > 1) ==> pages_disjoint(a, b)
}

/// In order of first address.
pub open spec fn sorted_by_start(s: Seq<LoadView>) -> bool {
    forall|i: int, j: int| 0 <= i < j < s.len() ==> #[trigger] s[i].start <= #[trigger] s[j].start
}

/// Each segment's last page before the next segment's first page.
pub open spec fn consecutive_apart(s: Seq<LoadView>) -> bool {
    forall|i: int| 0 <= i < s.len() - 1 ==> #[trigger] s[i].end / 4096 < s[i + 1].start / 4096
}

/// Every segment lies in the executable area, first address before last.
pub open spec fn in_executable_area(s: Seq<LoadView>) -> bool {
    forall|i: int|
        0 <= i < s.len() ==> spec_is_executable_address(#[trigger] s[i].start)
            && spec_is_executable_address(s[i].end) && s[i].start <= s[i].end
}

/// Every segment ends at or after its start.
pub open spec fn well_ordered_ends(s: Seq<LoadView>) -> bool {
    forall|i: int| 0 <= i < s.len() ==> #[trigger] s[i].start <= s[i].end
}

pub(crate) proof fn lemma_apart_transitive(s: Seq<LoadView>, i: int, j: int)
    requires
        consecutive_apart(s),
        well_ordered_ends(s),
        0 <= i < j < s.len(),
    ensures
        s[i].end / 4096 < s[j].start / 4096,
    decreases j - i,
{
    if j > i + 1 {
        lemma_apart_transitive(s, i + 1, j);
        lemma_div_is_ordered(s[i + 1].start as int, s[i + 1].end as int, 4096);
    }
}

/// For segments in order of first address, checking each against the next
/// finds a shared page exactly when some two segments share one.
pub proof fn lemma_consecutive_apart_iff_pages_apart(s: Seq<LoadView>)
    requires
        sorted_by_start(s),
        well_ordered_ends(s),
    ensures
        consecutive_apart(s) <==> pages_apart(s.to_multiset()),
{
    broadcast use to_multiset_contains;

    let m = s.to_multiset();
    if consecutive_apart(s) {
        assert forall|i: int, j: int| 0 <= i < s.len() && 0 <= j < s.len() && i != j implies s[i]
            != s[j] by {
            if i < j {
                lemma_apart_transitive(s, i, j);
                lemma_div_is_ordered(s[i].start as int, s[i].end as int, 4096);
            } else {
                lemma_apart_transitive(s, j, i);
                lemma_div_is_ordered(s[j].start as int, s[j].end as int, 4096);
            }
        }
        assert(s.no_duplicates());
        s.lemma_multiset_has_no_duplicates();
        assert forall|a: LoadView, b: LoadView|
            #![trigger m.count(a), m.count(b)]
            m.count(a) > 0 && m.count(b) > 0 && (a != b || m.count(a) > 1) implies pages_disjoint(
            a,
            b,
        ) by {
            assert(s.contains(a));
            assert(s.contains(b));
            let i = choose|i: int| 0 <= i < s.len() && s[i] == a;
            let j = choose|j: int| 0 <= j < s.len() && s[j] == b;
            if a == b {
                assert(m.contains(a));
            } else if i < j {
                lemma_apart_transitive(s, i, j);
            } else {
                lemma_apart_transitive(s, j, i);
            }
        }
    } else {
        let i = choose|i: int|
            0 <= i < s.len() - 1 && !(#[trigger] s[i].end / 4096 < s[i + 1].start / 4096);
        let a = s[i];
        let b = s[i + 1];
        lemma_div_is_ordered(a.start as int, b.start as int, 4096);
        lemma_div_is_ordered(b.start as int, b.end as int, 4096);
        assert(!pages_disjoint(a, b));
        assert(s.contains(a));
        assert(s.contains(b));
        assert(m.count(a) > 0 && m.count(b) > 0);
        if a == b {
            to_multiset_remove(s, i);
            assert(s.remove(i)[i] == b);
            assert(s.remove(i).contains(a));
            assert(s.remove(i).to_multiset().count(a) > 0);
            assert(m.count(a) > 1);
        }
        assert(!pages_apart(m));
    }
}

/// Checks one program header: nothing for a header that is not loaded,
/// the segment for a loadable one.
fn check_segment(image: &[u8], h: &ProgramHeader) -> (r: Result<
    Option<LoadSegment>,
    ExecutableImageError,
>)
    requires
        elf_header_of(image@) is Some,
    ensures
        match verdict(image@, *h) {
            Verdict::Skip => r matches Ok(None),
            Verdict::Invalid => r matches Err(e) && error_kind(e) == ImageErrorKind::InvalidLoadSegment,
            Verdict::ParseFailure => r matches Err(e) && error_kind(e) == ImageErrorKind::Parse,
            Verdict::Load(v) => r matches Ok(Some(seg)) && seg.view() == v,
        },
{
    if h.p_type != PT_LOAD || h.p_memsz == 0 {
        return Ok(None);
    }
    if h.p_filesz > h.p_memsz {
        return Err(ExecutableImageError::InvalidLoadSegment);
    }
    let start = h.p_vaddr;
    if !(start < 0x0000_8000_0000_0000 || start >= 0xffff_8000_0000_0000) {
        return Err(ExecutableImageError::InvalidLoadSegment);
    }
    let last_offset = h.p_memsz - 1;
    if start > u64::MAX - last_offset {
        return Err(ExecutableImageError::InvalidLoadSegment);
    }
    let end = start + last_offset;
    if !(end < 0x0000_8000_0000_0000 || end >= 0xffff_8000_0000_0000) {
        return Err(ExecutableImageError::InvalidLoadSegment);
    }
    if !is_executable_address(start) || !is_executable_address(end) {
        return Err(ExecutableImageError::InvalidLoadSegment);
    }
    let writable = h.p_flags & PF_W != 0;
    let executable = h.p_flags & PF_X != 0;
    let access = if !writable && !executable {
        UserPageAccess::ReadOnly
    } else if writable && !executable {
        UserPageAccess::ReadWrite
    } else if !writable && executable {
        UserPageAccess::ReadExecute
    } else {
        return Err(ExecutableImageError::InvalidLoadSegment);
    };
    let data = match segment_data(image, h) {
        Ok(data) => data,
        Err(error) => return Err(ExecutableImageError::Parse(error)),
    };
    Ok(
        Some(
            LoadSegment {
                start_address: start,
                end_address: end,
                memory_size: h.p_memsz,
                access,
                data,
            },
        ),
    )
}

impl<'a> ExecutableImage<'a> {
    /// The program headers of the image, which a checked image has.
    pub open spec fn spec_program_headers(&self) -> Seq<ProgramHeader> {
        elf_program_headers_of(self.spec_image()).unwrap()
    }

    /// The loadable segments, checked, in order of their first address.
    /// Fails at the first program header that is refused (in file order), or
    /// when two loadable segments share a page.
    pub fn load_segments(&self) -> (r: Result<Vec<LoadSegment>, ExecutableImageError>)
        ensures
            ({
                let image = self.spec_image();
                let hs = self.spec_program_headers();
                let found = loads(image, hs, hs.len() as int);
                match first_problem(image, hs, 0) {
                    Some(kind) => r matches Err(e) && error_kind(e) == kind,
                    None => if pages_apart(found.to_multiset()) {
                        r matches Ok(v) && {
                            &&& views(v@).to_multiset() == found.to_multiset()
                            &&& sorted_by_start(views(v@))
                            &&& consecutive_apart(views(v@))
                            &&& in_executable_area(views(v@))
                        }
                    } else {
                        r matches Err(e) && error_kind(e) == ImageErrorKind::OverlappingLoadSegments
                    },
                }
            }),
    {
        proof {
            use_type_invariant(self);
        }
        let headers = match program_headers(self.image) {
            Some(headers) => headers,
            None => return Err(ExecutableImageError::MissingProgramHeaders),
        };
        let ghost image = self.image@;
        let ghost hs = headers@;
        let mut segments: Vec<LoadSegment> = Vec::new();
        proof {
            assert(views(segments@) =~= Seq::<LoadView>::empty());
            assert(loads(image, hs, 0) =~= Seq::<LoadView>::empty());
        }
        let mut i: usize = 0;
        while i < headers.len()
            invariant
                image == self.image@,
                elf_header_of(image) is Some,
                hs == headers@,
                hs == self.spec_program_headers(),
                i <= hs.len(),
                first_problem(image, hs, 0) == first_problem(image, hs, i as int),
                views(segments@).to_multiset() == loads(image, hs, i as int).to_multiset(),
                sorted_by_start(views(segments@)),
                well_ordered_ends(views(segments@)),
                in_executable_area(views(segments@)),
            decreases hs.len() - i,
        {
            let checked = check_segment(self.image, &headers[i]);
            let segment = match checked {
                Ok(Some(segment)) => segment,
                Ok(None) => {
                    proof {
                        assert(first_problem(image, hs, i as int) == first_problem(
                            image,
                            hs,
                            i + 1,
                        ));
                        assert(loads(image, hs, i + 1) == loads(image, hs, i as int));
                    }
                    i = i + 1;
                    continue;
                },
                Err(error) => {
                    proof {
                        assert(first_problem(image, hs, i as int) == match verdict(image, hs[i as int]) {
                            Verdict::Invalid => Some(ImageErrorKind::InvalidLoadSegment),
                            Verdict::ParseFailure => Some(ImageErrorKind::Parse),
                            _ => first_problem(image, hs, i + 1),
                        });
                        assert(hs == self.spec_program_headers());
                        assert(first_problem(image, hs, 0) == Some(error_kind(error)));
                    }
                    return Err(error);
                },
            };
            let start = segment.start_address;
            let mut position: usize = 0;
            while position < segments.len() && segments[position].start_address <= start
                invariant
                    position <= segments@.len(),
                    forall|k: int| 0 <= k < position ==> #[trigger] segments@[k].start_address <= start,
                decreases segments@.len() - position,
            {
                position = position + 1;
            }
            let ghost old_views = views(segments@);
            let ghost v = segment.view();
            proof {
                assert(first_problem(image, hs, i as int) == first_problem(image, hs, i + 1));
                assert(loads(image, hs, i + 1) == loads(image, hs, i as int).push(v));
                to_multiset_build(loads(image, hs, i as int), v);
                to_multiset_insert(old_views, position as int, v);
            }
            segments.insert(position, segment);
            proof {
                let nv = views(segments@);
                assert(nv =~= old_views.insert(position as int, v));
                assert forall|a: int, b: int| 0 <= a < b < nv.len() implies #[trigger] nv[a].start
                    <= #[trigger] nv[b].start by {
                    let p = position as int;
                    if a < p && b > p {
                        assert(old_views[a].start <= old_views[b - 1].start);
                    } else if a == p && b > p {
                        assert(old_views[p].start > start);
                        assert(old_views[p].start <= old_views[b - 1].start || b - 1 == p);
                    } else if a < p && b == p {
                        assert(old_views[a].start <= start);
                    } else if a > p {
                        assert(old_views[a - 1].start <= old_views[b - 1].start);
                    }
                }
                assert forall|a: int| 0 <= a < nv.len() implies #[trigger] nv[a].start <= nv[a].end by {
                    if a < position {
                        assert(nv[a] == old_views[a]);
                    } else if a > position {
                        assert(nv[a] == old_views[a - 1]);
                    }
                }
                assert forall|a: int| 0 <= a < nv.len() implies spec_is_executable_address(
                    #[trigger] nv[a].start,
                ) && spec_is_executable_address(nv[a].end) && nv[a].start <= nv[a].end by {
                    if a < position {
                        assert(nv[a] == old_views[a]);
                    } else if a > position {
                        assert(nv[a] == old_views[a - 1]);
                    }
                }
            }
            i = i + 1;
        }
        let mut k: usize = 0;
        let ghost found = loads(image, hs, hs.len() as int);
        assert(i == hs.len());
        assert(image == self.spec_image());
        while 1 < segments.len() - k
            invariant
                k <= segments@.len(),
                hs == self.spec_program_headers(),
                image == self.spec_image(),
                found == loads(image, hs, hs.len() as int),
                first_problem(image, hs, 0) == first_problem(image, hs, hs.len() as int),
                views(segments@).to_multiset() == found.to_multiset(),
                sorted_by_start(views(segments@)),
                well_ordered_ends(views(segments@)),
                in_executable_area(views(segments@)),
                forall|j: int|
                    0 <= j < k ==> #[trigger] views(segments@)[j].end / 4096 < views(segments@)[j
                        + 1].start / 4096,
            decreases segments@.len() - k,
        {
            if segments[k].end_address / 4096 >= segments[k + 1].start_address / 4096 {
                proof {
                    let nv = views(segments@);
                    assert(!consecutive_apart(nv)) by {
                        assert(!(nv[k as int].end / 4096 < nv[k + 1].start / 4096));
                    }
                    lemma_consecutive_apart_iff_pages_apart(nv);
                    assert(first_problem(image, hs, hs.len() as int) is None);
                    assert(hs == self.spec_program_headers());
                    assert(!pages_apart(found.to_multiset()));
                    assert(first_problem(image, hs, 0) is None);
                    assert(found == loads(self.spec_image(), self.spec_program_headers(), self.spec_program_headers().len() as int));
                }
                return Err(ExecutableImageError::OverlappingLoadSegments);
            }
            k = k + 1;
        }
        proof {
            let nv = views(segments@);
            assert(consecutive_apart(nv));
            lemma_consecutive_apart_iff_pages_apart(nv);
            assert(first_problem(image, hs, hs.len() as int) is None);
            assert(hs == self.spec_program_headers());
        }
        Ok(segments)
    }
}

} // verus!
