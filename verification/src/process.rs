//! Setting up a user process: the page ranges its address space maps (its
//! loadable segments, its heap and its stack) and the registers it starts
//! with.
use crate::loader::{
    consecutive_apart, error_kind, first_problem, in_executable_area, lemma_apart_transitive, loads,
    pages_apart, sorted_by_start, spec_is_executable_address, views, ExecutableImage,
    ExecutableImageError, ImageErrorKind, LoadSegment, LoadView, USER_EXECUTABLE_ADDR, USER_HEAP_ADDR,
    USER_HEAP_LIMIT, USER_STACK_ADDR, USER_STACK_TOP,
};
use crate::memory::{
    disjoint_from_all, is_user_page_start, lemma_insert_position, sorted_disjoint,
    MappingRequest, MappingTransaction, UserPage, UserPageAccess, PAGE_SIZE,
};
use crate::syscall::UserContext;
use vstd::arithmetic::div_mod::lemma_div_is_ordered;
use vstd::prelude::*;

verus! {

/// Why a process could not be created.
#[derive(Debug)]
pub enum CreateProcessError {
    /// The executable was refused.
    Executable(ExecutableImageError),
    /// Not enough frames for its address space.
    OutOfMemory,
}

/// The start of the page that holds `address`.
pub open spec fn page_of(address: int) -> int {
    address - address % PAGE_SIZE as int
}

/// Whether a request maps the pages from the one holding `first` to the
/// one holding `last` with `access`.
pub open spec fn maps_range(r: MappingRequest, first: int, last: int, access: UserPageAccess) -> bool {
    r.first() == page_of(first) && r.last() == page_of(last) && r.access == access
}

/// The ranges of a process, in order: the pages of each segment with its
/// access, then the heap's pages read-write when it is not empty, then the
/// stack's pages read-write.
pub open spec fn process_layout(
    requests: Seq<MappingRequest>,
    segments: Seq<LoadView>,
    heap_size: u64,
) -> bool {
    let n = segments.len() as int;
    let stack = if heap_size != 0 {
        n + 1
    } else {
        n
    };
    &&& requests.len() == stack + 1
    &&& forall|i: int|
        0 <= i < n ==> maps_range(
            #[trigger] requests[i],
            segments[i].start as int,
            segments[i].end as int,
            segments[i].access,
        )
    &&& heap_size != 0 ==> maps_range(
        requests[n],
        USER_HEAP_ADDR as int,
        USER_HEAP_ADDR + heap_size - 1,
        UserPageAccess::ReadWrite,
    )
    &&& maps_range(
        requests[stack],
        USER_STACK_ADDR as int,
        USER_STACK_TOP - 1,
        UserPageAccess::ReadWrite,
    )
}

/// Adds the pages from the one holding `first` to the one holding `last`
/// after ranges that all end before `first`'s page.
fn append_range(
    plan: MappingTransaction,
    first: u64,
    last: u64,
    access: UserPageAccess,
) -> (r: MappingTransaction)
    requires
        first <= last,
        is_user_page_start(page_of(first as int)),
        is_user_page_start(page_of(last as int)),
        forall|i: int| 0 <= i < plan@.len() ==> #[trigger] plan@[i].last() < page_of(first as int),
    ensures
        r@ == plan@.push(r@[plan@.len() as int]),
        maps_range(r@[plan@.len() as int], first as int, last as int, access),
{
    let ranges = plan.requests();
    assert(sorted_disjoint(ranges@));
    let start_page = UserPage::containing_address(first);
    let end_page = UserPage::containing_address(last);
    let ghost old_requests = plan@;
    let ghost start = start_page.spec_start();
    proof {
        lemma_div_is_ordered(first as int, last as int, PAGE_SIZE as int);
        assert(page_of(first as int) == (first / PAGE_SIZE) * PAGE_SIZE) by (nonlinear_arith)
            requires
                page_of(first as int) == first - first % PAGE_SIZE,
        ;
        assert(page_of(last as int) == (last / PAGE_SIZE) * PAGE_SIZE) by (nonlinear_arith)
            requires
                page_of(last as int) == last - last % PAGE_SIZE,
        ;
        assert((first / PAGE_SIZE) * PAGE_SIZE <= (last / PAGE_SIZE) * PAGE_SIZE) by (nonlinear_arith)
            requires
                first / PAGE_SIZE <= last / PAGE_SIZE,
        ;
        assert forall|i: int| 0 <= i < old_requests.len() implies #[trigger] old_requests[i].first()
            < start by {
            assert(old_requests[i].first() <= old_requests[i].last());
        }
        lemma_insert_position(old_requests, start, old_requests.len() as int);
    }
    let r = plan.map_user_pages(start_page, end_page, access);
    proof {
        let new = MappingRequest { start_page, end_page, access };
        assert(old_requests.insert(old_requests.len() as int, new) =~= old_requests.push(new));
    }
    r
}

/// The page ranges a process maps: the pages of each loadable segment with
/// its access, the heap's `heap_size` bytes read-write (none when it is
/// 0), and the stack read-write. The segments are those of a checked
/// executable: in order, in the executable area, no two sharing a page. The
/// heap must end at or below [`USER_HEAP_LIMIT`].
pub fn plan_process_memory(segments: &Vec<LoadSegment>, heap_size: u64) -> (r: MappingTransaction)
    requires
        sorted_by_start(views(segments@)),
        consecutive_apart(views(segments@)),
        in_executable_area(views(segments@)),
        USER_HEAP_ADDR + heap_size <= USER_HEAP_LIMIT,
    ensures
        process_layout(r@, views(segments@), heap_size),
{
    let ghost segs = views(segments@);
    let mut plan = MappingTransaction::new();
    let mut i: usize = 0;
    while i < segments.len()
        invariant
            segs == views(segments@),
            sorted_by_start(segs),
            consecutive_apart(segs),
            in_executable_area(segs),
            i <= segs.len(),
            plan@.len() == i,
            forall|j: int|
                0 <= j < i ==> maps_range(
                    #[trigger] plan@[j],
                    segs[j].start as int,
                    segs[j].end as int,
                    segs[j].access,
                ),
        decreases segs.len() - i,
    {
        let first = segments[i].start_address;
        let last = segments[i].end_address;
        proof {
            assert(segs[i as int].start == first);
            assert(spec_is_executable_address(segs[i as int].start));
            assert(spec_is_executable_address(segs[i as int].end));
            assert forall|j: int| 0 <= j < plan@.len() implies #[trigger] plan@[j].last() < page_of(
                first as int,
            ) by {
                lemma_apart_transitive(segs, j, i as int);
                assert(maps_range(plan@[j], segs[j].start as int, segs[j].end as int, segs[j].access));
                assert(segs[j].end / 4096 < first / 4096);
                assert(page_of(segs[j].end as int) < page_of(first as int)) by (nonlinear_arith)
                    requires
                        segs[j].end / 4096 < first / 4096,
                ;
            }
        }
        let ghost before = plan@;
        plan = append_range(plan, first, last, segments[i].access);
        proof {
            assert forall|j: int| 0 <= j < i + 1 implies maps_range(
                #[trigger] plan@[j],
                segs[j].start as int,
                segs[j].end as int,
                segs[j].access,
            ) by {
                if j < i {
                    assert(plan@[j] == before[j]);
                }
            }
        }
        i = i + 1;
    }
    let ghost n = segs.len() as int;
    proof {
        assert forall|j: int| 0 <= j < plan@.len() implies #[trigger] plan@[j].last() < page_of(
            USER_HEAP_ADDR as int,
        ) by {
            assert(maps_range(plan@[j], segs[j].start as int, segs[j].end as int, segs[j].access));
            assert(spec_is_executable_address(segs[j].end));
        }
    }
    if heap_size != 0 {
        let ghost before = plan@;
        plan = append_range(plan, USER_HEAP_ADDR, USER_HEAP_ADDR + heap_size - 1, UserPageAccess::ReadWrite);
        proof {
            assert forall|j: int| 0 <= j < n implies maps_range(
                #[trigger] plan@[j],
                segs[j].start as int,
                segs[j].end as int,
                segs[j].access,
            ) by {
                assert(plan@[j] == before[j]);
            }
            assert forall|j: int| 0 <= j < plan@.len() implies #[trigger] plan@[j].last() < page_of(
                USER_STACK_ADDR as int,
            ) by {
                if j < n {
                    assert(plan@[j] == before[j]);
                    assert(maps_range(before[j], segs[j].start as int, segs[j].end as int, segs[j].access));
                    assert(spec_is_executable_address(segs[j].end));
                } else {
                    assert(page_of(USER_HEAP_ADDR + heap_size - 1) <= USER_HEAP_LIMIT);
                }
            }
        }
    }
    let ghost before = plan@;
    proof {
        assert forall|j: int| 0 <= j < plan@.len() implies #[trigger] plan@[j].last() < page_of(
            USER_STACK_ADDR as int,
        ) by {
            if heap_size == 0 {
                assert(maps_range(plan@[j], segs[j].start as int, segs[j].end as int, segs[j].access));
                assert(spec_is_executable_address(segs[j].end));
            }
        }
    }
    plan = append_range(plan, USER_STACK_ADDR, USER_STACK_TOP - 1, UserPageAccess::ReadWrite);
    proof {
        assert forall|j: int| 0 <= j < n implies maps_range(
            #[trigger] plan@[j],
            segs[j].start as int,
            segs[j].end as int,
            segs[j].access,
        ) by {
            assert(plan@[j] == before[j]);
        }
        if heap_size != 0 {
            assert(plan@[n] == before[n]);
        }
    }
    plan
}

/// The registers a new process starts with: at `entry_point`, with the
/// stack pointer on the last 8-byte slot of the stack and the address of
/// its frame buffer in `rdi`, its first argument.
pub fn initial_context(
    entry_point: u64,
    framebuffer_address: u64,
    code_selector: u16,
    data_selector: u16,
) -> (r: UserContext)
    ensures
        r == (UserContext {
            r15: 0,
            r14: 0,
            r13: 0,
            r12: 0,
            r11: 0,
            r10: 0,
            r9: 0,
            r8: 0,
            rdi: framebuffer_address,
            rsi: 0,
            rbp: 0,
            rdx: 0,
            rcx: 0,
            rbx: 0,
            rax: 0,
            instruction_pointer: entry_point,
            code_segment: code_selector as u64,
            flags: 0x202,
            stack_pointer: (USER_STACK_TOP - 8) as u64,
            stack_segment: data_selector as u64,
        }),
{
    let mut context = UserContext::new(entry_point, USER_STACK_TOP - 8, code_selector, data_selector);
    context.rdi = framebuffer_address;
    context
}

/// The loadable segments of an executable and the page ranges of a process
/// running it with a heap of `heap_size` bytes: when its segments are
/// refused, the error that loading them gave. The heap must end at or below
/// [`USER_HEAP_LIMIT`] whenever the segments are accepted.
pub fn plan_process(executable: &ExecutableImage, heap_size: u64) -> (r: Result<
    (Vec<LoadSegment>, MappingTransaction),
    CreateProcessError,
>)
    requires
        ({
            let image = executable.spec_image();
            let hs = executable.spec_program_headers();
            first_problem(image, hs, 0) is None && pages_apart(
                loads(image, hs, hs.len() as int).to_multiset(),
            )
        }) ==> USER_HEAP_ADDR + heap_size <= USER_HEAP_LIMIT,
    ensures
        ({
            let image = executable.spec_image();
            let hs = executable.spec_program_headers();
            let found = loads(image, hs, hs.len() as int);
            match r {
                Ok((segments, plan)) => first_problem(image, hs, 0) is None && pages_apart(
                    found.to_multiset(),
                ) && views(segments@).to_multiset() == found.to_multiset() && sorted_by_start(
                    views(segments@),
                ) && process_layout(plan@, views(segments@), heap_size),
                Err(CreateProcessError::Executable(e)) => !(first_problem(image, hs, 0) is None
                    && pages_apart(found.to_multiset())) && error_kind(e) == match first_problem(
                    image,
                    hs,
                    0,
                ) {
                    Some(kind) => kind,
                    None => ImageErrorKind::OverlappingLoadSegments,
                },
                Err(CreateProcessError::OutOfMemory) => false,
            }
        }),
{
    let segments = match executable.load_segments() {
        Ok(segments) => segments,
        Err(error) => return Err(CreateProcessError::Executable(error)),
    };
    let plan = plan_process_memory(&segments, heap_size);
    Ok((segments, plan))
}

} // verus!
