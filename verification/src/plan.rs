//! Segment plans: how a resource is cut into byte intervals.

use std::sync::Arc;
use vstd::prelude::*;
use crate::segment::{Segment, SegmentView};

verus! {

/// Why no plan could be made.
#[derive(Clone, Copy, Debug, PartialEq, Eq, Structural)]
pub enum PlanError {
    /// The URL of the resource cannot be parsed as an absolute URL.
    InvalidUrl,
    /// The sizes of the playlist's segments add up to more than 64 bits hold.
    TooLarge,
}

/// The number of chunks of `chunk` bytes that `length` bytes are cut into,
/// the last of which may be shorter.
pub open spec fn chunk_count(length: nat, chunk: nat) -> nat {
    if chunk == 0 {
        0
    } else {
        (length + chunk - 1) as nat / chunk
    }
}

/// The interval of chunk number `index`, counted from 0, of a resource of
/// `length` bytes at `url` that is cut into chunks of `chunk` bytes.
pub open spec fn chunk_interval(url: Seq<char>, length: nat, chunk: nat, index: nat) -> SegmentView {
    SegmentView {
        url,
        start: index * chunk,
        end: if (index + 1) * chunk <= length {
            ((index + 1) * chunk - 1) as nat
        } else {
            (length - 1) as nat
        },
    }
}

/// `segments` is the plan for a resource of `length` bytes at `url` that
/// serves byte ranges, cut into chunks of `chunk` bytes.
pub open spec fn is_range_plan(
    segments: Seq<Segment>,
    url: Seq<char>,
    length: nat,
    chunk: nat,
) -> bool {
    &&& segments.len() == chunk_count(length, chunk)
    &&& forall|i: int|
        0 <= i < segments.len() ==> (#[trigger] segments[i])@ == chunk_interval(
            url,
            length,
            chunk,
            i as nat,
        )
}

/// The end of the output that the intervals of `plan` reach: one past the
/// last byte of its last interval.
pub open spec fn plan_total(plan: Seq<SegmentView>) -> nat {
    if plan.len() == 0 {
        0
    } else {
        plan.last().end + 1
    }
}

/// The intervals start at byte 0, none is empty, and each begins right after
/// the one before it.
pub open spec fn is_contiguous(plan: Seq<SegmentView>) -> bool {
    &&& plan.len() > 0 ==> plan[0].start == 0
    &&& forall|i: int| 0 <= i < plan.len() ==> (#[trigger] plan[i]).start <= plan[i].end
    &&& forall|i: int|
        0 <= i < plan.len() - 1 ==> (#[trigger] plan[i + 1]).start == plan[i].end + 1
}

/// The byte at `position` lies in one interval of `plan` and in no other.
pub open spec fn covered_once(plan: Seq<SegmentView>, position: nat) -> bool {
    exists|i: int|
        {
            &&& 0 <= i < plan.len()
            &&& (#[trigger] plan[i]).covers(position)
            &&& forall|j: int| 0 <= j < plan.len() && (#[trigger] plan[j]).covers(position) ==> j == i
        }
}

/// The sum of the sizes of the first `count` intervals of `plan`.
pub open spec fn sizes_sum(plan: Seq<SegmentView>, count: int) -> nat
    decreases count,
{
    if count <= 0 || count > plan.len() {
        0
    } else {
        sizes_sum(plan, count - 1) + plan[count - 1].size()
    }
}

/// The contents of the segments, in order.
pub open spec fn views_of(segments: Seq<Segment>) -> Seq<SegmentView> {
    segments.map_values(|s: Segment| s@)
}

/// The plan made from the first `count` entries of a playlist, given the
/// size that was found for each: an entry of unknown size or of size 0 gets
/// no segment, and every other one follows the segment before it.
pub open spec fn offset_plan(
    urls: Seq<Seq<char>>,
    sizes: Seq<Option<u64>>,
    count: int,
) -> Seq<SegmentView>
    decreases count,
{
    if count <= 0 || count > urls.len() || count > sizes.len() {
        Seq::empty()
    } else {
        let before = offset_plan(urls, sizes, count - 1);
        match sizes[count - 1] {
            Some(size) if size > 0 => before.push(
                SegmentView {
                    url: urls[count - 1],
                    start: plan_total(before),
                    end: (plan_total(before) + size - 1) as nat,
                },
            ),
            _ => before,
        }
    }
}

/// The number of playlist entries that are paired with a size.
pub open spec fn paired(urls: Seq<Seq<char>>, sizes: Seq<Option<u64>>) -> int {
    if urls.len() <= sizes.len() {
        urls.len() as int
    } else {
        sizes.len() as int
    }
}

/// The views of the strings, in order.
pub open spec fn texts_of(strings: Seq<String>) -> Seq<Seq<char>> {
    strings.map_values(|s: String| s@)
}

/// `Arc::clone`: another handle to the same string.
#[verifier::external_body]
fn share(url: &Arc<String>) -> (shared: Arc<String>)
    ensures
        shared == *url,
{
    Arc::clone(url)
}

/// With `count * chunk < length <= (count + 1) * chunk`, the chunks number
/// `count + 1`.
proof fn lemma_chunk_count(length: nat, chunk: nat, count: nat)
    requires
        chunk >= 1,
        count * chunk < length <= (count + 1) * chunk,
    ensures
        chunk_count(length, chunk) == count + 1,
{
    let q = (length + chunk - 1) as nat / chunk;
    assert(q == count + 1) by (nonlinear_arith)
        requires
            chunk >= 1,
            count * chunk < length <= (count + 1) * chunk,
            q == (length + chunk - 1) as nat / chunk,
    {
        let x = (length + chunk - 1) as nat;
        assert((count + 1) * chunk <= x < (count + 2) * chunk);
        assert(x == chunk * (x / chunk) + x % chunk && 0 <= x % chunk < chunk);
        if q < count + 1 {
            assert(chunk * q <= chunk * count);
        } else if q > count + 1 {
            assert(chunk * q >= chunk * (count + 2));
        }
    }
}

/// Cuts a resource of `length` bytes at `url` into segments of `chunk` bytes;
/// the last one ends with the resource.
pub fn range_segments(url: &str, length: u64, chunk: u64) -> (segments: Vec<Segment>)
    requires
        chunk >= 1,
    ensures
        is_range_plan(segments@, url@, length as nat, chunk as nat),
{
    let shared_url: Arc<String> = Arc::new(url.to_owned());
    let mut segments: Vec<Segment> = Vec::new();
    if length == 0 {
        assert(chunk_count(0, chunk as nat) == 0) by (nonlinear_arith)
            requires
                chunk >= 1,
        ;
        return segments;
    }
    let mut offset: u64 = 0;
    assert(offset == segments.len() * chunk) by (nonlinear_arith)
        requires
            offset == 0,
            segments.len() == 0,
    ;
    loop
        invariant_except_break
            chunk >= 1,
            shared_url@ == url@,
            offset < length,
            offset == segments.len() * chunk,
            forall|i: int|
                0 <= i < segments.len() ==> (#[trigger] segments[i])@ == chunk_interval(
                    url@,
                    length as nat,
                    chunk as nat,
                    i as nat,
                ),
        ensures
            is_range_plan(segments@, url@, length as nat, chunk as nat),
        decreases length - offset,
    {
        let ghost index = segments.len() as nat;
        let ghost before = segments@;
        proof {
            assert((index + 1) * chunk == index * chunk + chunk) by (nonlinear_arith);
        }
        if length - offset <= chunk {
            segments.push(Segment::new(share(&shared_url), offset, length - 1));
            proof {
                lemma_chunk_count(length as nat, chunk as nat, index);
                assert forall|i: int| 0 <= i < segments.len() implies (#[trigger] segments[i])@
                    == chunk_interval(url@, length as nat, chunk as nat, i as nat) by {
                    if i < index {
                        assert(segments[i] == before[i]);
                    }
                }
            }
            break ;
        }
        segments.push(Segment::new(share(&shared_url), offset, offset + (chunk - 1)));
        proof {
            assert forall|i: int| 0 <= i < segments.len() implies (#[trigger] segments[i])@
                == chunk_interval(url@, length as nat, chunk as nat, i as nat) by {
                if i < index {
                    assert(segments[i] == before[i]);
                }
            }
        }
        offset = offset + chunk;
    }
    segments
}

/// Lays the entries of a playlist out one after another: entry `k` of known,
/// positive size gets the interval that starts where the one before it ends.
/// Entries are paired with sizes by position, up to the shorter of the two
/// lists; the plan fails only if its end does not fit in 64 bits.
pub fn offset_segments(urls: &Vec<String>, sizes: &Vec<Option<u64>>) -> (result: Result<
    Vec<Segment>,
    PlanError,
>)
    ensures
        match result {
            Ok(segments) => {
                &&& views_of(segments@) == offset_plan(
                    texts_of(urls@),
                    sizes@,
                    paired(texts_of(urls@), sizes@),
                )
                &&& is_contiguous(views_of(segments@))
                &&& plan_total(views_of(segments@)) <= u64::MAX
            },
            Err(e) => {
                &&& e == PlanError::TooLarge
                &&& plan_total(
                    offset_plan(texts_of(urls@), sizes@, paired(texts_of(urls@), sizes@)),
                ) > u64::MAX
            },
        },
{
    let count: usize = if urls.len() <= sizes.len() {
        urls.len()
    } else {
        sizes.len()
    };
    let ghost names = texts_of(urls@);
    let mut segments: Vec<Segment> = Vec::new();
    let mut start: u64 = 0;
    let mut i: usize = 0;
    while i < count
        invariant
            i <= count,
            count == paired(names, sizes@),
            names == texts_of(urls@),
            views_of(segments@) == offset_plan(names, sizes@, i as int),
            start == plan_total(views_of(segments@)),
        decreases count - i,
    {
        let ghost before = views_of(segments@);
        match sizes[i] {
            Some(size) if size > 0 => {
                if size - 1 > u64::MAX - start || start + (size - 1) == u64::MAX {
                    proof {
                        lemma_offset_plan_total_grows(names, sizes@, i + 1, count as int);
                    }
                    return Err(PlanError::TooLarge);
                }
                let end: u64 = start + (size - 1);
                let url: Arc<String> = Arc::new(urls[i].clone());
                segments.push(Segment::new(url, start, end));
                proof {
                    assert(views_of(segments@) =~= before.push(
                        SegmentView { url: names[i as int], start: start as nat, end: end as nat },
                    ));
                }
                start = end + 1;
            },
            _ => {},
        }
        i += 1;
    }
    proof {
        lemma_offset_plan_contiguous(names, sizes@, count as int);
    }
    Ok(segments)
}

/// The end of an offset plan never moves back as entries are added.
pub proof fn lemma_offset_plan_total_grows(
    urls: Seq<Seq<char>>,
    sizes: Seq<Option<u64>>,
    fewer: int,
    more: int,
)
    requires
        0 <= fewer <= more <= paired(urls, sizes),
    ensures
        plan_total(offset_plan(urls, sizes, fewer)) <= plan_total(offset_plan(urls, sizes, more)),
    decreases more - fewer,
{
    if fewer < more {
        lemma_offset_plan_total_grows(urls, sizes, fewer, more - 1);
    }
}

/// In a contiguous plan an earlier interval ends before a later one starts.
pub proof fn lemma_contiguous_ordered(plan: Seq<SegmentView>, i: int, j: int)
    requires
        is_contiguous(plan),
        0 <= i < j < plan.len(),
    ensures
        plan[i].end < plan[j].start,
    decreases j - i,
{
    if i + 1 < j {
        lemma_contiguous_ordered(plan, i, j - 1);
        assert(plan[j - 1 + 1].start == plan[j - 1].end + 1);
    } else {
        assert(plan[i + 1].start == plan[i].end + 1);
    }
}

/// Every byte before the end of a contiguous plan lies in one interval of
/// the plan and in no other.
pub proof fn lemma_contiguous_covers_once(plan: Seq<SegmentView>, position: nat)
    requires
        is_contiguous(plan),
        position < plan_total(plan),
    ensures
        covered_once(plan, position),
    decreases plan.len(),
{
    let last = plan.len() - 1;
    let found: int;
    if plan[last].covers(position) {
        found = last;
    } else {
        let shorter = plan.drop_last();
        assert(plan[last - 1 + 1].start == plan[last - 1].end + 1);
        assert(is_contiguous(shorter)) by {
            assert forall|i: int| 0 <= i < shorter.len() - 1 implies (#[trigger] shorter[i
                + 1]).start == shorter[i].end + 1 by {
                assert(plan[i + 1].start == plan[i].end + 1);
            }
        }
        lemma_contiguous_covers_once(shorter, position);
        found = choose|i: int| 0 <= i < shorter.len() && (#[trigger] shorter[i]).covers(position);
        assert(plan[found].covers(position));
    }
    assert forall|j: int| 0 <= j < plan.len() && (#[trigger] plan[j]).covers(position) implies j
        == found by {
        if found < j {
            lemma_contiguous_ordered(plan, found, j);
        } else if j < found {
            lemma_contiguous_ordered(plan, j, found);
        }
    }
}

/// In a contiguous plan each interval starts at the sum of the sizes of the
/// intervals before it, and the plan ends at the sum of all sizes.
pub proof fn lemma_contiguous_prefix_sums(plan: Seq<SegmentView>, count: int)
    requires
        is_contiguous(plan),
        0 <= count <= plan.len(),
    ensures
        count < plan.len() ==> plan[count].start == sizes_sum(plan, count),
        count == plan.len() ==> plan_total(plan) == sizes_sum(plan, count),
    decreases count,
{
    if count > 0 {
        lemma_contiguous_prefix_sums(plan, count - 1);
        if count < plan.len() {
            assert(plan[count - 1 + 1].start == plan[count - 1].end + 1);
        }
    }
}

/// The chunks before the last one are whole, and the last one is not empty.
proof fn lemma_chunk_bounds(length: nat, chunk: nat)
    requires
        chunk >= 1,
        length >= 1,
    ensures
        chunk_count(length, chunk) >= 1,
        (chunk_count(length, chunk) - 1) * chunk < length <= chunk_count(length, chunk) * chunk,
{
    let x = (length + chunk - 1) as nat;
    let q = x / chunk;
    assert(q >= 1 && (q - 1) * chunk < length <= q * chunk) by (nonlinear_arith)
        requires
            chunk >= 1,
            length >= 1,
            x == length + chunk - 1,
            q == x / chunk,
    {
        assert(x == chunk * (x / chunk) + x % chunk && 0 <= x % chunk < chunk);
    }
}

/// A range plan has ⌈`length` / `chunk`⌉ segments. Segment `i` starts at
/// `i * chunk` and ends at the smaller of `(i + 1) * chunk - 1` and
/// `length - 1`; each starts right after the one before it, and together
/// they hold every byte of `[0, length - 1]` exactly once.
pub proof fn lemma_range_plan_partitions(
    segments: Seq<Segment>,
    url: Seq<char>,
    length: nat,
    chunk: nat,
)
    requires
        chunk >= 1,
        is_range_plan(segments, url, length, chunk),
    ensures
        segments.len() == chunk_count(length, chunk),
        forall|i: int|
            0 <= i < segments.len() ==> (#[trigger] segments[i]).end == vstd::math::min(
                (i + 1) * chunk - 1,
                length - 1,
            ),
        forall|i: int|
            0 <= i < segments.len() - 1 ==> (#[trigger] segments[i + 1]).start == segments[i].end
                + 1,
        is_contiguous(views_of(segments)),
        plan_total(views_of(segments)) == length,
        forall|position: nat|
            position < length ==> #[trigger] covered_once(views_of(segments), position),
{
    let plan = views_of(segments);
    let count = chunk_count(length, chunk);
    if length == 0 {
        assert(count == 0) by (nonlinear_arith)
            requires
                chunk >= 1,
                count == (chunk - 1) as nat / chunk,
        ;
    } else {
        lemma_chunk_bounds(length, chunk);
        assert forall|i: int| 0 <= i < segments.len() implies {
            &&& (#[trigger] segments[i])@.start == i * chunk
            &&& segments[i]@.start <= segments[i]@.end
            &&& segments[i].end == vstd::math::min((i + 1) * chunk - 1, length - 1)
            &&& i < segments.len() - 1 ==> segments[i]@.end + 1 == (i + 1) * chunk
            &&& i == segments.len() - 1 ==> segments[i]@.end + 1 == length
        } by {
            assert(segments[i]@ == chunk_interval(url, length, chunk, i as nat));
            assert((i + 1) * chunk == i * chunk + chunk && i * chunk <= (count - 1) * chunk && (i
                < count - 1 ==> (i + 1) * chunk <= (count - 1) * chunk)) by (nonlinear_arith)
                requires
                    0 <= i < count,
                    chunk >= 1,
            ;
        }
        assert forall|i: int| 0 <= i < segments.len() - 1 implies (#[trigger] segments[i
            + 1]).start == segments[i].end + 1 by {
            assert(segments[i]@.end + 1 == (i + 1) * chunk);
            assert(segments[i + 1]@.start == (i + 1) * chunk);
        }
        assert(plan[0] == segments[0]@);
        assert(plan.last() == segments[segments.len() - 1]@);
        assert forall|i: int| 0 <= i < plan.len() - 1 implies (#[trigger] plan[i + 1]).start
            == plan[i].end + 1 by {
            assert(segments[i + 1].start == segments[i].end + 1);
        }
        assert forall|i: int| 0 <= i < plan.len() implies (#[trigger] plan[i]).start
            <= plan[i].end by {
            assert(segments[i]@.start <= segments[i]@.end);
        }
    }
    assert(is_contiguous(plan));
    assert forall|position: nat| position < length implies #[trigger] covered_once(
        plan,
        position,
    ) by {
        lemma_contiguous_covers_once(plan, position);
    }
}

/// The sum of the sizes of more intervals is not smaller.
pub proof fn lemma_sizes_sum_grows(plan: Seq<SegmentView>, fewer: int, more: int)
    requires
        0 <= fewer <= more <= plan.len(),
    ensures
        sizes_sum(plan, fewer) <= sizes_sum(plan, more),
    decreases more - fewer,
{
    if fewer < more {
        lemma_sizes_sum_grows(plan, fewer, more - 1);
    }
}

/// Two range plans for the same URL, length and chunk size hold the same
/// segments in the same order.
pub proof fn lemma_range_plan_unique(
    first: Seq<Segment>,
    second: Seq<Segment>,
    url: Seq<char>,
    length: nat,
    chunk: nat,
)
    requires
        is_range_plan(first, url, length, chunk),
        is_range_plan(second, url, length, chunk),
    ensures
        views_of(first) == views_of(second),
{
    assert forall|i: int| 0 <= i < first.len() implies views_of(first)[i] == views_of(second)[i] by {
        assert(first[i]@ == chunk_interval(url, length, chunk, i as nat));
        assert(second[i]@ == chunk_interval(url, length, chunk, i as nat));
    }
    assert(views_of(first) =~= views_of(second));
}

/// Two plans made from the same playlist entries and sizes hold the same
/// segments in the same order.
pub proof fn lemma_offset_plan_unique(
    first: Seq<Segment>,
    second: Seq<Segment>,
    urls: Seq<Seq<char>>,
    sizes: Seq<Option<u64>>,
)
    requires
        views_of(first) == offset_plan(urls, sizes, paired(urls, sizes)),
        views_of(second) == offset_plan(urls, sizes, paired(urls, sizes)),
    ensures
        views_of(first) == views_of(second),
        first.len() == second.len(),
{
    assert(views_of(first).len() == first.len());
    assert(views_of(second).len() == second.len());
}

/// The plan made from a playlist is contiguous: its first interval starts
/// at byte 0 and each other one right after the interval before it.
pub proof fn lemma_offset_plan_contiguous(
    urls: Seq<Seq<char>>,
    sizes: Seq<Option<u64>>,
    count: int,
)
    ensures
        is_contiguous(offset_plan(urls, sizes, count)),
    decreases count,
{
    if count <= 0 || count > urls.len() || count > sizes.len() {
    } else {
        lemma_offset_plan_contiguous(urls, sizes, count - 1);
        let before = offset_plan(urls, sizes, count - 1);
        let plan = offset_plan(urls, sizes, count);
        if plan.len() > before.len() {
            assert forall|i: int| 0 <= i < plan.len() - 1 implies (#[trigger] plan[i + 1]).start
                == plan[i].end + 1 by {
                if i + 1 < before.len() {
                    assert(before[i + 1].start == before[i].end + 1);
                }
            }
        }
    }
}

/// In the plan made from a playlist the starts are the running sums of the
/// sizes: the first interval starts at byte 0, interval `k` at the sum of the
/// sizes of the intervals before it, and every byte before the plan's end
/// lies in exactly one interval.
pub proof fn lemma_offset_plan_prefix_sums(
    urls: Seq<Seq<char>>,
    sizes: Seq<Option<u64>>,
    count: int,
)
    ensures
        ({
            let plan = offset_plan(urls, sizes, count);
            &&& plan.len() > 0 ==> plan[0].start == 0
            &&& forall|k: int| 0 <= k < plan.len() ==> (#[trigger] plan[k]).start == sizes_sum(plan, k)
            &&& plan_total(plan) == sizes_sum(plan, plan.len() as int)
            &&& forall|position: nat|
                position < plan_total(plan) ==> #[trigger] covered_once(plan, position)
        }),
{
    let plan = offset_plan(urls, sizes, count);
    lemma_offset_plan_contiguous(urls, sizes, count);
    assert forall|k: int| 0 <= k < plan.len() implies (#[trigger] plan[k]).start == sizes_sum(
        plan,
        k,
    ) by {
        lemma_contiguous_prefix_sums(plan, k);
    }
    lemma_contiguous_prefix_sums(plan, plan.len() as int);
    assert forall|position: nat| position < plan_total(plan) implies #[trigger] covered_once(
        plan,
        position,
    ) by {
        lemma_contiguous_covers_once(plan, position);
    }
}

} // verus!
