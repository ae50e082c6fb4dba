//! The user half of an address space: user pages, the accesses they are
//! mapped with, and the plan of page ranges to map with the number of
//! frames the mapping needs.
use vstd::arithmetic::div_mod::lemma_div_is_ordered;
use vstd::set_lib::{lemma_int_range, lemma_set_disjoint_lens, lemma_set_union_finite_iff, set_int_range};
use crate::loader::is_canonical;
use vstd::prelude::*;

verus! {

/// The start of the kernel half of the address space.
pub const KERNEL_SPACE_ADDR: u64 = 0xffff_8000_0000_0000;

/// The size of the kernel stack.
pub const KERNEL_STACK_SIZE: u64 = 64 * 1024;

/// The start of the kernel heap.
pub const HEAP_ADDR: u64 = 0xffff_c000_0000_0000;

/// The size of the kernel heap.
pub const HEAP_SIZE: u64 = 100 * 1024;

/// The first user address: the page at 0 stays unmapped.
pub const USER_SPACE_ADDR: u64 = 0x0000_0000_0000_1000;

/// The size of the user half.
pub const USER_SPACE_SIZE: u64 = 0x0000_7fff_ffff_f000;

/// Where the framebuffer appears in every user address space.
pub const USER_FRAMEBUFFER_MAPPING_ADDR: u64 = 0x0000_1000_0000_0000;

/// The size of a page.
pub const PAGE_SIZE: u64 = 4096;

/// The span of addresses one level-1 page table maps.
pub const LEVEL_1_TABLE_COVERAGE: u64 = 2 * 1024 * 1024;

/// The span of addresses one level-2 page table maps.
pub const LEVEL_2_TABLE_COVERAGE: u64 = 1024 * 1024 * 1024;

/// The span of addresses one level-3 page table maps.
pub const LEVEL_3_TABLE_COVERAGE: u64 = 512 * 1024 * 1024 * 1024;

/// Whether a page-aligned address starts a page of the user half.
pub open spec fn is_user_page_start(address: int) -> bool {
    &&& address % (PAGE_SIZE as int) == 0
    &&& USER_SPACE_ADDR <= address
    &&& address - USER_SPACE_ADDR < USER_SPACE_SIZE
}

/// A 4 KiB page of the user half of the address space.
#[derive(Debug, Clone, Copy, PartialEq, Eq, Structural)]
pub struct UserPage {
    start: u64,
}

impl UserPage {
    #[verifier::type_invariant]
    closed spec fn inv(self) -> bool {
        is_user_page_start(self.start as int)
    }

    /// The first address of the page.
    pub closed spec fn spec_start(self) -> u64 {
        self.start
    }

    /// The page that holds `address`, which must lie in a page of the
    /// user half.
    pub fn containing_address(address: u64) -> (r: Self)
        requires
            is_user_page_start(address - address % PAGE_SIZE),
        ensures
            r.spec_start() == address - address % PAGE_SIZE,
            is_user_page_start(r.spec_start() as int),
    {
        Self { start: address - address % PAGE_SIZE }
    }

    /// The first address of the page.
    #[verifier::when_used_as_spec(spec_start)]
    pub fn start_address(self) -> (r: u64)
        ensures
            r == self.spec_start(),
            is_user_page_start(r as int),
    {
        proof {
            use_type_invariant(self);
        }
        self.start
    }
}

/// What a user program may do with a page.
#[derive(Debug, Clone, Copy, PartialEq, Eq, Structural)]
pub enum UserPageAccess {
    ReadOnly,
    ReadWrite,
    ReadExecute,
}

/// Page table entry bit 0: present.
pub const PAGE_PRESENT: u64 = 1;

/// Page table entry bit 1: writable.
pub const PAGE_WRITABLE: u64 = 2;

/// Page table entry bit 2: reachable from user mode.
pub const PAGE_USER_ACCESSIBLE: u64 = 4;

/// Page table entry bit 63: no instruction fetches.
pub const PAGE_NO_EXECUTE: u64 = 0x8000_0000_0000_0000;

impl UserPageAccess {
    /// The page table entry flags of a user page with this access: present
    /// and user-accessible; writable only for ReadWrite; not executable
    /// unless ReadExecute.
    pub fn flags(self) -> (r: u64)
        ensures
            r == access_flags(self),
            r & PAGE_PRESENT != 0,
            r & PAGE_USER_ACCESSIBLE != 0,
            (r & PAGE_WRITABLE != 0) == (self == UserPageAccess::ReadWrite),
            (r & PAGE_NO_EXECUTE != 0) == (self != UserPageAccess::ReadExecute),
    {
        let flags = PAGE_PRESENT | PAGE_USER_ACCESSIBLE;
        match self {
            UserPageAccess::ReadOnly => {
                assert((1u64 | 4u64) | 0x8000_0000_0000_0000u64 == 0x8000_0000_0000_0005u64
                    && 0x8000_0000_0000_0005u64 & 2 == 0 && 0x8000_0000_0000_0005u64
                    & 0x8000_0000_0000_0000u64 != 0 && 0x8000_0000_0000_0005u64 & 1 != 0
                    && 0x8000_0000_0000_0005u64 & 4 != 0) by (bit_vector);
                flags | PAGE_NO_EXECUTE
            },
            UserPageAccess::ReadWrite => {
                assert((1u64 | 4u64) | 2u64 | 0x8000_0000_0000_0000u64 == 0x8000_0000_0000_0007u64
                    && 0x8000_0000_0000_0007u64 & 2 != 0 && 0x8000_0000_0000_0007u64
                    & 0x8000_0000_0000_0000u64 != 0 && 0x8000_0000_0000_0007u64 & 1 != 0
                    && 0x8000_0000_0000_0007u64 & 4 != 0) by (bit_vector);
                flags | PAGE_WRITABLE | PAGE_NO_EXECUTE
            },
            UserPageAccess::ReadExecute => {
                assert((1u64 | 4u64) == 5u64 && 5u64 & 2 == 0 && 5u64 & 0x8000_0000_0000_0000u64
                    == 0 && 5u64 & 1 != 0 && 5u64 & 4 != 0) by (bit_vector);
                flags
            },
        }
    }
}

/// The page table entry flags of a user page with an access.
pub open spec fn access_flags(access: UserPageAccess) -> u64 {
    match access {
        UserPageAccess::ReadOnly => 0x8000_0000_0000_0005u64,
        UserPageAccess::ReadWrite => 0x8000_0000_0000_0007u64,
        UserPageAccess::ReadExecute => 5u64,
    }
}

/// One range of pages to map, first and last page included.
#[derive(Debug, Clone, Copy, PartialEq, Eq, Structural)]
pub struct MappingRequest {
    pub start_page: UserPage,
    pub end_page: UserPage,
    pub access: UserPageAccess,
}

impl MappingRequest {
    pub open spec fn first(self) -> int {
        self.start_page.spec_start() as int
    }

    pub open spec fn last(self) -> int {
        self.end_page.spec_start() as int
    }
}

/// Ranges in increasing order, each ending before the next starts.
pub open spec fn sorted_disjoint(requests: Seq<MappingRequest>) -> bool {
    &&& forall|i: int|
        0 <= i < requests.len() ==> is_user_page_start(#[trigger] requests[i].first())
            && is_user_page_start(requests[i].last())
    &&& forall|i: int| 0 <= i < requests.len() ==> #[trigger] requests[i].first() <= requests[i].last()
    &&& forall|i: int, j: int|
        0 <= i < j < requests.len() ==> #[trigger] requests[i].last() < #[trigger] requests[j].first()
}

/// Whether the range of pages from `first` to `last` shares no page with
/// any of `requests`.
pub open spec fn disjoint_from_all(requests: Seq<MappingRequest>, first: u64, last: u64) -> bool {
    forall|i: int|
        0 <= i < requests.len() ==> #[trigger] requests[i].last() < first || last
            < requests[i].first()
}

/// The number of ranges that start before `address`.
pub open spec fn insert_position(requests: Seq<MappingRequest>, address: u64) -> int {
    requests.filter(|r: MappingRequest| r.first() < address).len() as int
}

/// Whether page `address` is one that a request maps.
pub open spec fn maps_page(requests: Seq<MappingRequest>, address: u64) -> bool {
    exists|i: int|
        0 <= i < requests.len() && requests[i].first() <= address <= #[trigger] requests[i].last()
}

/// Inserting a range anywhere maps the pages mapped before and those of
/// the range, and no others.
proof fn lemma_insert_maps(requests: Seq<MappingRequest>, p: int, new: MappingRequest)
    requires
        0 <= p <= requests.len(),
    ensures
        forall|a: u64|
            #[trigger] maps_page(requests.insert(p, new), a) <==> (maps_page(requests, a) || new.first()
                <= a <= new.last()),
{
    let all = requests.insert(p, new);
    assert forall|a: u64| #[trigger] maps_page(all, a) <==> (maps_page(requests, a) || new.first() <= a
        <= new.last()) by {
        if maps_page(all, a) {
            let i = choose|i: int| 0 <= i < all.len() && all[i].first() <= a <= #[trigger] all[i].last();
            if i < p {
                assert(all[i] == requests[i]);
            } else if i > p {
                assert(all[i] == requests[i - 1]);
            }
        }
        if maps_page(requests, a) {
            let i = choose|i: int|
                0 <= i < requests.len() && requests[i].first() <= a <= #[trigger] requests[i].last();
            if i < p {
                assert(all[i] == requests[i]);
            } else {
                assert(all[i + 1] == requests[i]);
            }
        }
        if new.first() <= a <= new.last() {
            assert(all[p] == new);
        }
    }
}

/// The page ranges to map into a new address space, kept in order and
/// without overlaps.
pub struct MappingTransaction {
    requests: Vec<MappingRequest>,
}

impl View for MappingTransaction {
    type V = Seq<MappingRequest>;

    closed spec fn view(&self) -> Seq<MappingRequest> {
        self.requests@
    }
}

impl MappingTransaction {
    #[verifier::type_invariant]
    closed spec fn inv(self) -> bool {
        sorted_disjoint(self.requests@)
    }

    /// Nothing to map.
    pub fn new() -> (r: Self)
        ensures
            r@ == Seq::<MappingRequest>::empty(),
    {
        Self { requests: Vec::new() }
    }

    /// The ranges, in order.
    pub fn requests(&self) -> (r: &Vec<MappingRequest>)
        ensures
            r@ == self@,
            sorted_disjoint(self@),
    {
        proof {
            use_type_invariant(self);
        }
        &self.requests
    }

    /// Adds one page.
    pub fn map_user_page(self, page: UserPage, access: UserPageAccess) -> (r: Self)
        requires
            disjoint_from_all(self@, page.spec_start(), page.spec_start()),
        ensures
            ({
                let p = insert_position(self@, page.spec_start());
                r@ == self@.insert(
                    p,
                    MappingRequest { start_page: page, end_page: page, access },
                )
            }),
            sorted_disjoint(r@),
            forall|a: u64| #[trigger] maps_page(r@, a) <==> (maps_page(self@, a) || a == page.spec_start()),
    {
        self.map_user_pages(page, page, access)
    }

    /// Adds the pages from `start_page` to `end_page`, which must not
    /// overlap a range already in the transaction. Ranges stay in order of
    /// their first page.
    pub fn map_user_pages(self, start_page: UserPage, end_page: UserPage, access: UserPageAccess) -> (r:
        Self)
        requires
            start_page.spec_start() <= end_page.spec_start(),
            disjoint_from_all(self@, start_page.spec_start(), end_page.spec_start()),
        ensures
            ({
                let p = insert_position(self@, start_page.spec_start());
                r@ == self@.insert(p, MappingRequest { start_page, end_page, access })
            }),
            sorted_disjoint(r@),
            forall|a: u64|
                #[trigger] maps_page(r@, a) <==> (maps_page(self@, a) || start_page.spec_start() <= a
                    <= end_page.spec_start()),
    {
        proof {
            use_type_invariant(&self);
            use_type_invariant(end_page);
        }
        let start_address = start_page.start_address();
        let ghost old_requests = self.requests@;
        let mut requests = self.requests;
        let mut insert_index: usize = 0;
        while insert_index < requests.len() && requests[insert_index].start_page.start_address()
            < start_address
            invariant
                requests@ == old_requests,
                sorted_disjoint(old_requests),
                insert_index <= requests@.len(),
                forall|i: int| 0 <= i < insert_index ==> #[trigger] old_requests[i].first() < start_address,
            decreases requests@.len() - insert_index,
        {
            insert_index = insert_index + 1;
        }
        proof {
            lemma_insert_position(old_requests, start_address, insert_index as int);
        }
        requests.insert(insert_index, MappingRequest { start_page, end_page, access });
        proof {
            let new = MappingRequest { start_page, end_page, access };
            lemma_insert_maps(old_requests, insert_index as int, new);
            assert(requests@ == old_requests.insert(insert_index as int, new));
            assert forall|i: int, j: int|
                0 <= i < j < requests@.len() implies #[trigger] requests@[i].last()
                < #[trigger] requests@[j].first() by {
                let k = insert_index as int;
                if i < k && j == k {
                    assert(old_requests[i].first() < start_address);
                } else if i == k && j > k {
                    assert(!(old_requests[j - 1].first() < start_address));
                }
            }
        }
        Self { requests }
    }
}

/// In sorted ranges, the ranges that start before `address` are the first
/// `k`, when the first `k` start before it and the next does not.
pub(crate) proof fn lemma_insert_position(requests: Seq<MappingRequest>, address: u64, k: int)
    requires
        sorted_disjoint(requests),
        0 <= k <= requests.len(),
        forall|i: int| 0 <= i < k ==> #[trigger] requests[i].first() < address,
        k < requests.len() ==> requests[k].first() >= address,
    ensures
        insert_position(requests, address) == k,
        forall|i: int| k <= i < requests.len() ==> #[trigger] requests[i].first() >= address,
    decreases requests.len(),
{
    assert forall|i: int| k <= i < requests.len() implies #[trigger] requests[i].first() >= address by {
        if i > k {
            assert(requests[k].last() < requests[i].first());
            assert(requests[k].first() <= requests[k].last());
        }
    }
    let f = |r: MappingRequest| r.first() < address;
    if requests.len() == 0 {
        assert(requests.filter(f) =~= Seq::<MappingRequest>::empty());
    } else {
        let init = requests.drop_last();
        assert(requests == init.push(requests.last()));
        assert(sorted_disjoint(init));
        if k == requests.len() {
            lemma_insert_position(init, address, k - 1);
        } else {
            lemma_insert_position(init, address, k);
        }
        init.lemma_filter_push(requests.last(), f);
        reveal(Seq::filter);
    }
}

/// The frames a mapping needs: one per mapped page, and one per page table
/// below the top level.
#[derive(Debug, Clone, Copy, PartialEq, Eq, Structural)]
pub struct FrameEstimate {
    pub data_frames: u64,
    pub page_table_frames: u64,
}

impl FrameEstimate {
    /// All frames.
    pub fn total(self) -> (r: u64)
        requires
            self.data_frames + self.page_table_frames <= u64::MAX,
        ensures
            r == self.data_frames + self.page_table_frames,
    {
        self.data_frames + self.page_table_frames
    }
}

/// The pages of a range.
pub open spec fn request_frames(r: MappingRequest) -> int {
    (r.last() - r.first()) / PAGE_SIZE as int + 1
}

/// The regions of size `size` that the range from `first` to `last`
/// touches, less the one it shares with the previous range (whose last
/// region is `previous`), if any.
pub open spec fn new_regions(first: int, last: int, size: int, previous: Option<int>) -> int {
    let start_region = first / size;
    let end_region = last / size;
    let already = match previous {
        None => 0,
        Some(p) => if p < start_region {
            0
        } else {
            (if p < end_region {
                p
            } else {
                end_region
            }) - start_region + 1
        },
    };
    end_region - start_region + 1 - already
}

/// The pages of all ranges.
pub open spec fn data_frames(requests: Seq<MappingRequest>) -> int
    decreases requests.len(),
{
    if requests.len() == 0 {
        0
    } else {
        data_frames(requests.drop_last()) + request_frames(requests.last())
    }
}

/// The region of size `size` that holds the last page of the last range.
pub open spec fn last_region(requests: Seq<MappingRequest>, size: int) -> Option<int> {
    if requests.len() == 0 {
        None
    } else {
        Some(requests.last().last() / size)
    }
}

/// The regions of size `size` the ranges touch, counted range by range
/// without counting a region twice.
pub open spec fn region_count(requests: Seq<MappingRequest>, size: int) -> int
    decreases requests.len(),
{
    if requests.len() == 0 {
        0
    } else {
        region_count(requests.drop_last(), size) + new_regions(
            requests.last().first(),
            requests.last().last(),
            size,
            last_region(requests.drop_last(), size),
        )
    }
}

/// The page tables a mapping of sorted ranges needs below the top level.
pub open spec fn page_table_frames(requests: Seq<MappingRequest>) -> int {
    region_count(requests, LEVEL_1_TABLE_COVERAGE as int) + region_count(
        requests,
        LEVEL_2_TABLE_COVERAGE as int,
    ) + region_count(requests, LEVEL_3_TABLE_COVERAGE as int)
}

proof fn lemma_aligned_gap(a: int, b: int)
    requires
        a % 4096 == 0,
        b % 4096 == 0,
        a < b,
    ensures
        a + 4096 <= b,
{
    assert(a + 4096 <= b) by (nonlinear_arith)
        requires
            a % 4096 == 0,
            b % 4096 == 0,
            a < b,
    ;
}

/// A prefix of sorted, disjoint ranges is sorted and disjoint.
proof fn lemma_sorted_prefix(requests: Seq<MappingRequest>, n: int)
    requires
        sorted_disjoint(requests),
        0 <= n <= requests.len(),
    ensures
        sorted_disjoint(requests.subrange(0, n)),
{
    let p = requests.subrange(0, n);
    assert forall|i: int| 0 <= i < p.len() implies is_user_page_start(#[trigger] p[i].first())
        && is_user_page_start(p[i].last()) by {
        assert(p[i] == requests[i]);
        assert(is_user_page_start(requests[i].first()));
    }
    assert forall|i: int| 0 <= i < p.len() implies #[trigger] p[i].first() <= p[i].last() by {
        assert(p[i] == requests[i]);
    }
    assert forall|i: int, j: int| 0 <= i < j < p.len() implies #[trigger] p[i].last()
        < #[trigger] p[j].first() by {
        assert(p[i] == requests[i]);
        assert(p[j] == requests[j]);
    }
}

/// Sorted, disjoint ranges need no more data frames than the pages from
/// the first to the last, and touch no more regions than those between.
proof fn lemma_estimate_bounds(requests: Seq<MappingRequest>, size: int)
    requires
        sorted_disjoint(requests),
        requests.len() > 0,
        size > 0,
    ensures
        data_frames(requests) * 4096 <= requests.last().last() + 4096 - requests[0].first(),
        region_count(requests, size) <= requests.last().last() / size - requests[0].first() / size
            + 1,
        0 <= region_count(requests, size),
    decreases requests.len(),
{
    let n = requests.len() - 1;
    let x = requests[n];
    assert(x == requests.last());
    assert(is_user_page_start(x.first()) && is_user_page_start(x.last()));
    assert(x.first() <= x.last());
    assert((x.last() - x.first()) / 4096 * 4096 == x.last() - x.first()) by (nonlinear_arith)
        requires
            x.first() % 4096 == 0,
            x.last() % 4096 == 0,
            x.first() <= x.last(),
    ;
    lemma_div_is_ordered(x.first(), x.last(), size);
    let init = requests.drop_last();
    let sr = x.first() / size;
    let er = x.last() / size;
    if n == 0 {
        assert(init.len() == 0);
        assert(data_frames(init) == 0);
        assert(region_count(init, size) == 0);
        assert(last_region(init, size) is None);
        assert(new_regions(x.first(), x.last(), size, None) == er - sr + 1);
        assert(region_count(requests, size) == er - sr + 1);
        assert(data_frames(requests) == request_frames(x));
    } else {
        lemma_sorted_prefix(requests, n);
        assert(init == requests.subrange(0, n));
        lemma_estimate_bounds(init, size);
        let y = requests[n - 1];
        assert(init.last() == y);
        assert(y.last() < x.first());
        assert(is_user_page_start(y.last()));
        lemma_aligned_gap(y.last(), x.first());
        lemma_div_is_ordered(y.last(), x.first(), size);
        assert(init[0] == requests[0]);
        let p = y.last() / size;
        assert(last_region(init, size) == Some(p));
        assert(p <= sr);
        assert(data_frames(requests) == data_frames(init) + request_frames(x));
        assert(region_count(requests, size) == region_count(init, size) + new_regions(
            x.first(),
            x.last(),
            size,
            Some(p),
        ));
        if p < sr {
            assert(new_regions(x.first(), x.last(), size, Some(p)) == er - sr + 1);
        } else {
            assert(new_regions(x.first(), x.last(), size, Some(p)) == er - sr);
        }
    }
}

/// The regions of size `size` that hold a page of one of the ranges: for
/// each range, those from the one holding its first page to the one
/// holding its last.
pub open spec fn touched_regions(requests: Seq<MappingRequest>, size: int) -> Set<int> {
    Set::new(
        |r: int|
            exists|i: int|
                #![trigger requests[i]]
                0 <= i < requests.len() && requests[i].first() / size <= r <= requests[i].last()
                    / size,
    )
}

/// Counting regions range by range counts each region that sorted,
/// disjoint ranges touch exactly once.
pub proof fn lemma_region_count_distinct(requests: Seq<MappingRequest>, size: int)
    requires
        sorted_disjoint(requests),
        size > 0,
    ensures
        touched_regions(requests, size).finite(),
        region_count(requests, size) == touched_regions(requests, size).len(),
    decreases requests.len(),
{
    let all = touched_regions(requests, size);
    if requests.len() == 0 {
        assert(all =~= Set::<int>::empty());
    } else {
        let n = requests.len() - 1;
        let init = requests.drop_last();
        let x = requests[n];
        assert(x == requests.last());
        lemma_sorted_prefix(requests, n);
        assert(init =~= requests.subrange(0, n));
        lemma_region_count_distinct(init, size);
        let a = touched_regions(init, size);
        assert(x.first() <= x.last());
        let sr = x.first() / size;
        let er = x.last() / size;
        lemma_div_is_ordered(x.first(), x.last(), size);
        let b = set_int_range(sr, er + 1);
        lemma_int_range(sr, er + 1);
        assert forall|r: int| #[trigger] all.contains(r) <==> (a + b).contains(r) by {
            if all.contains(r) {
                let i = choose|i: int|
                    #![trigger requests[i]]
                    0 <= i < requests.len() && requests[i].first() / size <= r <= requests[i].last()
                        / size;
                if i < n {
                    assert(init[i] == requests[i]);
                }
            }
            if a.contains(r) {
                let i = choose|i: int|
                    #![trigger init[i]]
                    0 <= i < init.len() && init[i].first() / size <= r <= init[i].last() / size;
                assert(requests[i] == init[i]);
            }
        }
        assert(all =~= a + b);
        lemma_set_union_finite_iff(a, b);
        if n == 0 {
            assert(a =~= Set::<int>::empty());
            assert(a.disjoint(b));
            lemma_set_disjoint_lens(a, b);
            assert(region_count(init, size) == 0);
        } else {
            let y = requests[n - 1];
            assert(init.last() == y);
            let p = y.last() / size;
            assert(last_region(init, size) == Some(p));
            assert(y.last() < x.first());
            lemma_div_is_ordered(y.last(), x.first(), size);
            assert forall|r: int| a.contains(r) implies r <= p by {
                let i = choose|i: int|
                    #![trigger init[i]]
                    0 <= i < init.len() && init[i].first() / size <= r <= init[i].last() / size;
                assert(init[i] == requests[i]);
                if i < n - 1 {
                    assert(requests[i].last() < requests[n - 1].first());
                }
                assert(y.first() <= y.last());
                lemma_div_is_ordered(requests[i].last(), y.last(), size);
            }
            if p < sr {
                assert(a.disjoint(b));
                lemma_set_disjoint_lens(a, b);
            } else {
                assert(y.first() <= y.last());
                lemma_div_is_ordered(y.first(), y.last(), size);
                assert(a.contains(p)) by {
                    assert(init[n - 1] == y);
                }
                let c = set_int_range(sr + 1, er + 1);
                lemma_int_range(sr + 1, er + 1);
                assert(all =~= a + c);
                assert(a.disjoint(c));
                lemma_set_disjoint_lens(a, c);
            }
        }
    }
}

/// The regions of size `size` that a range from `start_address` to
/// `end_address` adds to those counted so far, whose last region is
/// `previous_end_region`; records the range's last region.
pub fn count_new_regions(
    start_address: u64,
    end_address: u64,
    region_size: u64,
    previous_end_region: &mut Option<u64>,
) -> (r: u64)
    requires
        region_size > 1,
        start_address <= end_address,
        *old(previous_end_region) matches Some(p) ==> p <= start_address / region_size,
    ensures
        r == new_regions(
            start_address as int,
            end_address as int,
            region_size as int,
            match *old(previous_end_region) {
                Some(p) => Some(p as int),
                None => None,
            },
        ),
        *final(previous_end_region) == Some(end_address / region_size),
{
    let start_region = start_address / region_size;
    let end_region = end_address / region_size;
    assert(end_region <= u64::MAX / 2) by (nonlinear_arith)
        requires
            region_size > 1,
            end_region == end_address / region_size,
    ;
    proof {
        lemma_div_is_ordered(start_address as int, end_address as int, region_size as int);
    }
    let region_count = end_region - start_region + 1;
    let already_counted = match *previous_end_region {
        None => 0,
        Some(previous_end) => if previous_end < start_region {
            0
        } else {
            (if previous_end < end_region {
                previous_end
            } else {
                end_region
            }) - start_region + 1
        },
    };
    *previous_end_region = Some(end_region);
    region_count - already_counted
}

impl MappingTransaction {
    /// The frames mapping all ranges needs: one per page, and one per level
    /// 1, 2 and 3 page table, counting a table once even when two ranges
    /// share it.
    pub fn frame_estimate(&self) -> (r: FrameEstimate)
        ensures
            r.data_frames == data_frames(self@),
            r.page_table_frames == page_table_frames(self@),
            r.page_table_frames == touched_regions(self@, LEVEL_1_TABLE_COVERAGE as int).len()
                + touched_regions(self@, LEVEL_2_TABLE_COVERAGE as int).len() + touched_regions(
                self@,
                LEVEL_3_TABLE_COVERAGE as int,
            ).len(),
            r.data_frames + r.page_table_frames <= u64::MAX,
    {
        proof {
            use_type_invariant(self);
            lemma_region_count_distinct(self@, LEVEL_1_TABLE_COVERAGE as int);
            lemma_region_count_distinct(self@, LEVEL_2_TABLE_COVERAGE as int);
            lemma_region_count_distinct(self@, LEVEL_3_TABLE_COVERAGE as int);
        }
        let ghost reqs = self.requests@;
        let mut data_frames_count: u64 = 0;
        let mut level_1_tables: u64 = 0;
        let mut level_2_tables: u64 = 0;
        let mut level_3_tables: u64 = 0;
        let mut previous_level_1_region: Option<u64> = None;
        let mut previous_level_2_region: Option<u64> = None;
        let mut previous_level_3_region: Option<u64> = None;
        let mut i: usize = 0;
        while i < self.requests.len()
            invariant
                reqs == self.requests@,
                sorted_disjoint(reqs),
                i <= reqs.len(),
                data_frames_count == data_frames(reqs.subrange(0, i as int)),
                level_1_tables == region_count(reqs.subrange(0, i as int), LEVEL_1_TABLE_COVERAGE as int),
                level_2_tables == region_count(reqs.subrange(0, i as int), LEVEL_2_TABLE_COVERAGE as int),
                level_3_tables == region_count(reqs.subrange(0, i as int), LEVEL_3_TABLE_COVERAGE as int),
                previous_level_1_region == match last_region(reqs.subrange(0, i as int), LEVEL_1_TABLE_COVERAGE as int) {
                    Some(p) => Some(p as u64),
                    None => None::<u64>,
                },
                previous_level_2_region == match last_region(reqs.subrange(0, i as int), LEVEL_2_TABLE_COVERAGE as int) {
                    Some(p) => Some(p as u64),
                    None => None::<u64>,
                },
                previous_level_3_region == match last_region(reqs.subrange(0, i as int), LEVEL_3_TABLE_COVERAGE as int) {
                    Some(p) => Some(p as u64),
                    None => None::<u64>,
                },
                i > 0 ==> data_frames_count <= 0x8_0000_0000,
                i > 0 ==> level_1_tables <= 0x400_0001,
                i > 0 ==> level_2_tables <= 0x2_0001,
                i > 0 ==> level_3_tables <= 0x101,
                i == 0 ==> data_frames_count == 0 && level_1_tables == 0 && level_2_tables == 0 && level_3_tables == 0,
            decreases reqs.len() - i,
        {
            let request = self.requests[i];
            let start_address = request.start_page.start_address();
            let end_address = request.end_page.start_address();
            let ghost prefix = reqs.subrange(0, i as int);
            let ghost next = reqs.subrange(0, i + 1);
            proof {
                lemma_sorted_prefix(reqs, i + 1);
                assert(reqs[i as int].first() <= reqs[i as int].last());
                assert(next.drop_last() == prefix);
                assert(next.last() == request);
                assert(request == reqs[i as int]);
                assert(sorted_disjoint(next));
                assert(start_address <= end_address);
                if i > 0 {
                    let y = reqs[i - 1];
                    assert(prefix.last() == y);
                    assert(y.last() < request.first());
                    lemma_div_is_ordered(y.last(), start_address as int, LEVEL_1_TABLE_COVERAGE as int);
                    lemma_div_is_ordered(y.last(), start_address as int, LEVEL_2_TABLE_COVERAGE as int);
                    lemma_div_is_ordered(y.last(), start_address as int, LEVEL_3_TABLE_COVERAGE as int);
                }
                lemma_estimate_bounds(next, LEVEL_1_TABLE_COVERAGE as int);
                lemma_estimate_bounds(next, LEVEL_2_TABLE_COVERAGE as int);
                lemma_estimate_bounds(next, LEVEL_3_TABLE_COVERAGE as int);
                assert(next[0] == reqs[0]);
                assert(is_user_page_start(end_address as int));
                assert(is_user_page_start(reqs[0].first()));
                assert(0x8000_0000_0000int / 0x20_0000int == 0x400_0000int) by (nonlinear_arith);
                assert(0x8000_0000_0000int / 0x4000_0000int == 0x2_0000int) by (nonlinear_arith);
                assert(0x8000_0000_0000int / 0x80_0000_0000int == 0x100int) by (nonlinear_arith);
                lemma_div_is_ordered(end_address as int, 0x8000_0000_0000, LEVEL_1_TABLE_COVERAGE as int);
                lemma_div_is_ordered(end_address as int, 0x8000_0000_0000, LEVEL_2_TABLE_COVERAGE as int);
                lemma_div_is_ordered(end_address as int, 0x8000_0000_0000, LEVEL_3_TABLE_COVERAGE as int);
            }
            data_frames_count = data_frames_count + (end_address - start_address) / PAGE_SIZE + 1;
            level_1_tables = level_1_tables + count_new_regions(
                start_address,
                end_address,
                LEVEL_1_TABLE_COVERAGE,
                &mut previous_level_1_region,
            );
            level_2_tables = level_2_tables + count_new_regions(
                start_address,
                end_address,
                LEVEL_2_TABLE_COVERAGE,
                &mut previous_level_2_region,
            );
            level_3_tables = level_3_tables + count_new_regions(
                start_address,
                end_address,
                LEVEL_3_TABLE_COVERAGE,
                &mut previous_level_3_region,
            );
            i = i + 1;
        }
        proof {
            assert(reqs.subrange(0, reqs.len() as int) == reqs);
        }
        FrameEstimate {
            data_frames: data_frames_count,
            page_table_frames: level_1_tables + level_2_tables + level_3_tables,
        }
    }
}

/// The virtual address at which the kernel sees physical address
/// `address`, all physical memory being mapped from `physical_memory_offset`.
/// The sum must not overflow and must be canonical.
pub fn phys_to_virt(physical_memory_offset: u64, address: u64) -> (r: u64)
    requires
        physical_memory_offset + address <= u64::MAX,
        is_canonical((physical_memory_offset + address) as u64),
    ensures
        r == physical_memory_offset + address,
{
    physical_memory_offset + address
}

/// The frames a new address space for `plan` needs: those of the plan and
/// one for its top-level page table.
pub fn address_space_frame_count(plan: &MappingTransaction) -> (r: u64)
    requires
        data_frames(plan@) + page_table_frames(plan@) + 1 <= u64::MAX,
    ensures
        r == data_frames(plan@) + page_table_frames(plan@) + 1,
{
    plan.frame_estimate().total() + 1
}

/// One piece of a copy into user memory: `size` bytes from offset
/// `data_offset` of the data go to `address`, all inside one page.
#[derive(Debug, Clone, Copy, PartialEq, Eq, Structural)]
pub struct UserWriteChunk {
    pub address: u64,
    pub data_offset: usize,
    pub size: usize,
}

/// The pieces of a copy of `remaining` bytes to `address`, from offset
/// `data_offset` of the data: each as long as the rest of the data or the
/// rest of the page, whichever is shorter.
pub open spec fn write_chunks(address: int, data_offset: int, remaining: int) -> Seq<UserWriteChunk>
    decreases remaining,
{
    if remaining <= 0 {
        Seq::empty()
    } else {
        let room = PAGE_SIZE as int - address % PAGE_SIZE as int;
        let size = if remaining < room {
            remaining
        } else {
            room
        };
        seq![UserWriteChunk { address: address as u64, data_offset: data_offset as usize, size: size as usize }]
            + write_chunks(address + size, data_offset + size, remaining - size)
    }
}

/// A copy split into pieces: each piece is non-empty and stays in one
/// page, the first starts at `address` and offset `data_offset`, each next
/// one starts where the previous one ends (in memory and in the data), and
/// together they copy `remaining` bytes.
pub open spec fn covers(chunks: Seq<UserWriteChunk>, address: int, data_offset: int, remaining: int) -> bool {
    &&& forall|i: int|
        0 <= i < chunks.len() ==> #[trigger] chunks[i].size > 0 && chunks[i].address
            % PAGE_SIZE + chunks[i].size <= PAGE_SIZE
    &&& remaining > 0 ==> chunks.len() > 0 && chunks[0].address == address && chunks[0].data_offset
        == data_offset && chunks.last().address + chunks.last().size == address + remaining
    &&& remaining <= 0 ==> chunks.len() == 0
    &&& forall|i: int|
        0 <= i < chunks.len() - 1 ==> #[trigger] chunks[i + 1].address == chunks[i].address
            + chunks[i].size && chunks[i + 1].data_offset == chunks[i].data_offset + chunks[i].size
}

/// The pieces of a copy into user memory stay in one page each and follow
/// each other without gap or overlap, covering all the data.
pub proof fn lemma_write_chunks_cover(address: int, data_offset: int, remaining: int)
    requires
        0 <= address,
        address + remaining <= u64::MAX,
        0 <= data_offset,
        data_offset + remaining <= usize::MAX,
    ensures
        covers(write_chunks(address, data_offset, remaining), address, data_offset, remaining),
    decreases remaining,
{
    if remaining > 0 {
        let room = PAGE_SIZE as int - address % PAGE_SIZE as int;
        let size = if remaining < room {
            remaining
        } else {
            room
        };
        let c = UserWriteChunk { address: address as u64, data_offset: data_offset as usize, size: size as usize };
        let rest = write_chunks(address + size, data_offset + size, remaining - size);
        lemma_write_chunks_cover(address + size, data_offset + size, remaining - size);
        let all = write_chunks(address, data_offset, remaining);
        assert(all == seq![c] + rest);
        assert forall|i: int| 0 <= i < all.len() implies #[trigger] all[i].size > 0
            && all[i].address % PAGE_SIZE + all[i].size <= PAGE_SIZE by {
            if i > 0 {
                assert(all[i] == rest[i - 1]);
            }
        }
        assert forall|i: int| 0 <= i < all.len() - 1 implies #[trigger] all[i + 1].address
            == all[i].address + all[i].size && all[i + 1].data_offset == all[i].data_offset
            + all[i].size by {
            assert(all[i + 1] == rest[i]);
            if i > 0 {
                let j = i - 1;
                assert(all[i] == rest[j]);
                assert(rest[j + 1].address == rest[j].address + rest[j].size);
                assert(rest[j + 1].data_offset == rest[j].data_offset + rest[j].size);
            } else {
                assert(rest.len() > 0);
                assert(remaining - size > 0);
                assert(rest[0].address == address + size);
                assert(rest[0].data_offset == data_offset + size);
                assert(all[0] == c);
            }
        }
        if rest.len() > 0 {
            assert(all.last() == rest.last());
        } else {
            assert(all.last() == c);
        }
        assert(all[0] == c);
    }
}

/// How to copy `len` bytes to user memory at `address`, page by page. The
/// range must lie in the user half.
pub fn user_write_chunks(address: u64, len: usize) -> (r: Vec<UserWriteChunk>)
    requires
        address >= USER_SPACE_ADDR,
        address + len <= USER_SPACE_ADDR + USER_SPACE_SIZE,
    ensures
        r@ == write_chunks(address as int, 0, len as int),
{
    let mut chunks: Vec<UserWriteChunk> = Vec::new();
    let mut current: u64 = address;
    let mut offset: usize = 0;
    let mut remaining: usize = len;
    while remaining > 0
        invariant
            current == address + offset,
            offset + remaining == len,
            address + len <= USER_SPACE_ADDR + USER_SPACE_SIZE,
            chunks@ + write_chunks(current as int, offset as int, remaining as int) == write_chunks(
                address as int,
                0,
                len as int,
            ),
        decreases remaining,
    {
        let room = PAGE_SIZE - current % PAGE_SIZE;
        let size: usize = if (remaining as u64) < room {
            remaining
        } else {
            room as usize
        };
        let chunk = UserWriteChunk { address: current, data_offset: offset, size };
        proof {
            let rest = write_chunks(current + size, offset + size, remaining - size);
            assert(write_chunks(current as int, offset as int, remaining as int) == seq![chunk] + rest);
            assert(chunks@.push(chunk) + rest =~= chunks@ + (seq![chunk] + rest));
        }
        chunks.push(chunk);
        current = current + size as u64;
        offset = offset + size;
        remaining = remaining - size;
    }
    proof {
        assert(chunks@ + Seq::<UserWriteChunk>::empty() =~= chunks@);
    }
    chunks
}

/// Where a frame buffer goes in a user address space: the kernel page
/// holding its first byte, how many pages it spans, and the user address
/// of its first byte.
#[derive(Debug, Clone, Copy, PartialEq, Eq, Structural)]
pub struct FramebufferMapping {
    pub source_start_page: u64,
    pub page_count: u64,
    pub user_address: u64,
}

/// The plan for mapping `len` bytes of frame buffer at kernel address
/// `start` to [`USER_FRAMEBUFFER_MAPPING_ADDR`]: the pages from the one
/// holding the first byte to the one holding the last, with the first
/// byte at the same offset in its page. The buffer must not be empty, its
/// last address must be canonical, and its pages must fit in the user
/// half.
pub fn plan_framebuffer_mapping(start: u64, len: u64) -> (r: FramebufferMapping)
    requires
        len != 0,
        start + len - 1 <= u64::MAX,
        is_canonical((start + len - 1) as u64),
        ((start + len - 1) / PAGE_SIZE as int - start as int / PAGE_SIZE as int + 1) * PAGE_SIZE as int
            <= USER_SPACE_ADDR + USER_SPACE_SIZE - USER_FRAMEBUFFER_MAPPING_ADDR,
    ensures
        r.source_start_page == start - start % PAGE_SIZE,
        r.page_count == (start + len - 1) / PAGE_SIZE as int - start as int / PAGE_SIZE as int + 1,
        r.user_address == USER_FRAMEBUFFER_MAPPING_ADDR + start % PAGE_SIZE,
{
    let source_start_page = start - start % PAGE_SIZE;
    let end = start + (len - 1);
    let source_end_page = end - end % PAGE_SIZE;
    proof {
        lemma_div_is_ordered(start as int, end as int, PAGE_SIZE as int);
        assert(source_start_page == (start / PAGE_SIZE) * PAGE_SIZE) by (nonlinear_arith)
            requires
                source_start_page == start - start % PAGE_SIZE,
        ;
        assert(source_end_page == (end / PAGE_SIZE) * PAGE_SIZE) by (nonlinear_arith)
            requires
                source_end_page == end - end % PAGE_SIZE,
        ;
        assert((source_end_page - source_start_page) / PAGE_SIZE as int == end as int / PAGE_SIZE as int
            - start as int / PAGE_SIZE as int) by (nonlinear_arith)
            requires
                source_start_page == (start / PAGE_SIZE) * PAGE_SIZE,
                source_end_page == (end / PAGE_SIZE) * PAGE_SIZE,
        ;
    }
    let page_count = (source_end_page - source_start_page) / PAGE_SIZE + 1;
    FramebufferMapping {
        source_start_page,
        page_count,
        user_address: USER_FRAMEBUFFER_MAPPING_ADDR + (start - source_start_page),
    }
}

impl FramebufferMapping {
    /// The user page that shows page `index` of the frame buffer.
    pub fn user_page(&self, index: u64) -> (r: UserPage)
        requires
            (index + 1) * PAGE_SIZE as int <= USER_SPACE_ADDR + USER_SPACE_SIZE
                - USER_FRAMEBUFFER_MAPPING_ADDR,
        ensures
            r.spec_start() == USER_FRAMEBUFFER_MAPPING_ADDR + index * PAGE_SIZE as int,
    {
        proof {
            assert(index * PAGE_SIZE as int + PAGE_SIZE as int <= 0x7000_0000_0000) by (nonlinear_arith)
                requires
                    (index + 1) * PAGE_SIZE as int <= 0x7000_0000_0000,
            ;
            let a = USER_FRAMEBUFFER_MAPPING_ADDR + index * PAGE_SIZE as int;
            assert(a % PAGE_SIZE as int == 0) by (nonlinear_arith)
                requires
                    a == 0x1000_0000_0000 + index * 4096,
            ;
        }
        UserPage::containing_address(USER_FRAMEBUFFER_MAPPING_ADDR + index * PAGE_SIZE)
    }
}

} // verus!
