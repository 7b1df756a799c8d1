//! The visual timeline of a video: segments keyed by their start time,
//! explicit segments and the skip zones derived from them.

use vstd::prelude::*;
use crate::domain::{ScanSegment, TimelineSegment, TimelineSegmentType, VideoId};
use crate::segments::{covers, holds};
use crate::seqsearch::{
    first_where, last_where, lemma_first_where, lemma_first_where_unique, lemma_last_where,
    lemma_last_where_unique,
};

verus! {

/// Segments strictly ordered by start time (so one per start time).
pub open spec fn sorted_by_start(s: Seq<TimelineSegment>) -> bool {
    forall|i: int, j: int| 0 <= i < j < s.len() ==> (#[trigger] s[i]).start_ms < (
    #[trigger] s[j]).start_ms
}

/// Scanned segments never end before they start.
pub open spec fn spans_ok(s: Seq<TimelineSegment>) -> bool {
    forall|i: int| 0 <= i < s.len() ==> span_ok(#[trigger] s[i])
}

pub open spec fn span_ok(seg: TimelineSegment) -> bool {
    seg.segment_type != TimelineSegmentType::Unknown ==> seg.start_ms <= seg.end_ms
}

/// Position predicate: the segment at `i` starts at or after `k`.
pub open spec fn starts_from(s: Seq<TimelineSegment>, k: u64) -> spec_fn(int) -> bool {
    |i: int| s[i].start_ms >= k
}

/// Position predicate: the segment at `i` contains `t`
/// (`start_ms <= t < end_ms`).
pub open spec fn contains_at(s: Seq<TimelineSegment>, t: u64) -> spec_fn(int) -> bool {
    |i: int| s[i].start_ms <= t && t < s[i].end_ms
}

/// Position predicate: the zone at `i` holds `t`.
pub open spec fn holds_at(zones: Seq<(u64, u64)>, t: u64) -> spec_fn(int) -> bool {
    |i: int| holds(zones[i], t as int)
}

/// The segments with `seg` added: it replaces the segment with the same
/// start time, or goes in start order.
pub open spec fn upsert(s: Seq<TimelineSegment>, seg: TimelineSegment) -> Seq<TimelineSegment> {
    let p = first_where(s.len() as int, starts_from(s, seg.start_ms));
    if p < s.len() && s[p].start_ms == seg.start_ms {
        s.update(p, seg)
    } else {
        s.insert(p, seg)
    }
}

/// The segments with each of `segs` added in turn.
pub open spec fn upsert_all(s: Seq<TimelineSegment>, segs: Seq<TimelineSegment>) -> Seq<
    TimelineSegment,
>
    decreases segs.len(),
{
    if segs.len() == 0 {
        s
    } else {
        upsert(upsert_all(s, segs.drop_last()), segs.last())
    }
}

/// The segment that contains `t` (`start_ms <= t < end_ms`), the one that
/// starts last where several do; `None` when no segment contains `t`.
pub open spec fn segment_at(s: Seq<TimelineSegment>, t: u64) -> Option<TimelineSegment> {
    let l = last_where(s.len() as int, contains_at(s, t));
    if l >= 0 {
        Some(s[l])
    } else {
        None
    }
}

/// The segments that start within `[a, b]`, in order.
pub open spec fn starting_within(s: Seq<TimelineSegment>, a: u64, b: u64) -> Seq<TimelineSegment>
    decreases s.len(),
{
    if s.len() == 0 {
        s
    } else {
        let rest = starting_within(s.drop_last(), a, b);
        if a <= s.last().start_ms <= b {
            rest.push(s.last())
        } else {
            rest
        }
    }
}

/// The scan results of the explicit segments, in order.
pub open spec fn explicit_of(s: Seq<TimelineSegment>) -> Seq<ScanSegment>
    decreases s.len(),
{
    if s.len() == 0 {
        Seq::empty()
    } else {
        let rest = explicit_of(s.drop_last());
        let last = s.last();
        if last.segment_type == TimelineSegmentType::ExplicitContent && last.scan_segment is Some {
            rest.push(last.scan_segment->0)
        } else {
            rest
        }
    }
}

/// The zone around an explicit span: `buffer_ms` either side, the end
/// clipped to the duration.
pub open spec fn zone_of(x: ScanSegment, buffer_ms: u64, duration_ms: u64) -> (u64, u64) {
    let start = if x.start_ms >= buffer_ms {
        (x.start_ms - buffer_ms) as u64
    } else {
        0u64
    };
    let end = if x.end_ms + buffer_ms > duration_ms {
        duration_ms
    } else {
        (x.end_ms + buffer_ms) as u64
    };
    (start, end)
}

pub open spec fn zones_of(xs: Seq<ScanSegment>, buffer_ms: u64, duration_ms: u64) -> Seq<(u64, u64)> {
    xs.map_values(|x: ScanSegment| zone_of(x, buffer_ms, duration_ms))
}

/// `z` put after every zone of `sorted` that starts no later than it.
pub open spec fn insert_by_start(sorted: Seq<(u64, u64)>, z: (u64, u64)) -> Seq<(u64, u64)>
    decreases sorted.len(),
{
    if sorted.len() == 0 {
        seq![z]
    } else if sorted.last().0 <= z.0 {
        sorted.push(z)
    } else {
        insert_by_start(sorted.drop_last(), z).push(sorted.last())
    }
}

/// The zones sorted by start, zones with equal starts in their order
/// (a stable sort).
pub open spec fn sort_by_start(zs: Seq<(u64, u64)>) -> Seq<(u64, u64)>
    decreases zs.len(),
{
    if zs.len() == 0 {
        zs
    } else {
        insert_by_start(sort_by_start(zs.drop_last()), zs.last())
    }
}

/// One step of merging: a zone starting within the last merged zone (or at
/// its end) extends it, any other zone is appended.
pub open spec fn merge_step(m: Seq<(u64, u64)>, z: (u64, u64)) -> Seq<(u64, u64)> {
    if m.len() > 0 && z.0 <= m.last().1 {
        let last = m.last();
        let end = if z.1 > last.1 {
            z.1
        } else {
            last.1
        };
        m.update(m.len() - 1, (last.0, end))
    } else {
        m.push(z)
    }
}

/// The zones merged in order.
pub open spec fn merge_zones(zs: Seq<(u64, u64)>) -> Seq<(u64, u64)>
    decreases zs.len(),
{
    if zs.len() == 0 {
        zs
    } else {
        merge_step(merge_zones(zs.drop_last()), zs.last())
    }
}

/// The skip zones of a timeline.
pub open spec fn skip_zones_of(s: Seq<TimelineSegment>, buffer_ms: u64, duration_ms: u64) -> Seq<
    (u64, u64),
> {
    merge_zones(sort_by_start(zones_of(explicit_of(s), buffer_ms, duration_ms)))
}

/// The end of the first zone holding `t`.
pub open spec fn safe_after(zones: Seq<(u64, u64)>, t: u64) -> Option<u64> {
    let f = first_where(zones.len() as int, holds_at(zones, t));
    if f < zones.len() {
        Some(zones[f].1)
    } else {
        None
    }
}

/// The spans `(start_ms, end_ms)` of the scanned (not `Unknown`)
/// segments, in order.
pub open spec fn scanned_spans(s: Seq<TimelineSegment>) -> Seq<(u64, u64)>
    decreases s.len(),
{
    if s.len() == 0 {
        Seq::empty()
    } else {
        let rest = scanned_spans(s.drop_last());
        if s.last().segment_type != TimelineSegmentType::Unknown {
            rest.push((s.last().start_ms, s.last().end_ms))
        } else {
            rest
        }
    }
}

/// The summed lengths of ranges.
pub open spec fn spans_length(c: Seq<(u64, u64)>) -> int
    decreases c.len(),
{
    if c.len() == 0 {
        0
    } else {
        spans_length(c.drop_last()) + (c.last().1 - c.last().0)
    }
}

/// Milliseconds covered by the scanned (not `Unknown`) segments: the length
/// of the union of their spans, an overlap counted once (the spans merged
/// in start order, see `law_scanned_union`).
pub open spec fn scanned_total(s: Seq<TimelineSegment>) -> int {
    spans_length(merge_zones(scanned_spans(s)))
}

/// Manages the visual timeline segments of a video.
pub struct Timeline {
    video_id: VideoId,
    duration_ms: u64,
    segments: Vec<TimelineSegment>,
}

impl Timeline {
    #[verifier::type_invariant]
    spec fn well_formed(self) -> bool {
        sorted_by_start(self.segments@) && spans_ok(self.segments@)
    }

    /// The segments, in start order.
    pub closed spec fn entries(self) -> Seq<TimelineSegment> {
        self.segments@
    }

    pub closed spec fn spec_duration(self) -> u64 {
        self.duration_ms
    }

    pub closed spec fn spec_video_id(self) -> VideoId {
        self.video_id
    }

    /// An empty timeline.
    pub fn new(video_id: VideoId, duration_ms: u64) -> (r: Self)
        ensures
            r.entries() == Seq::<TimelineSegment>::empty(),
            sorted_by_start(r.entries()),
            r.spec_duration() == duration_ms,
            r.spec_video_id() == video_id,
    {
        Timeline { video_id, duration_ms, segments: Vec::new() }
    }

    /// Add or replace the segment that starts at `segment.start_ms`.
    pub fn add_segment(&mut self, segment: TimelineSegment)
        requires
            span_ok(segment),
        ensures
            final(self).entries() == upsert(old(self).entries(), segment),
            sorted_by_start(old(self).entries()),
            sorted_by_start(final(self).entries()),
            final(self).spec_duration() == old(self).spec_duration(),
            final(self).spec_video_id() == old(self).spec_video_id(),
    {
        proof {
            use_type_invariant(&*self);
        }
        let mut segs: Vec<TimelineSegment> = Vec::new();
        std::mem::swap(&mut segs, &mut self.segments);
        let ghost s = segs@;
        insert_segment(&mut segs, segment);
        proof {
            lemma_upsert_keeps(s, segment);
        }
        self.segments = segs;
        proof {
            use_type_invariant(&*self);
        }
    }

    /// Add several segments in turn.
    pub fn add_segments(&mut self, segments: Vec<TimelineSegment>)
        requires
            forall|i: int| 0 <= i < segments@.len() ==> span_ok(#[trigger] segments@[i]),
        ensures
            final(self).entries() == upsert_all(old(self).entries(), segments@),
            final(self).spec_duration() == old(self).spec_duration(),
            final(self).spec_video_id() == old(self).spec_video_id(),
    {
        let mut i: usize = 0;
        while i < segments.len()
            invariant
                0 <= i <= segments.len(),
                forall|j: int| 0 <= j < segments@.len() ==> span_ok(#[trigger] segments@[j]),
                self.entries() == upsert_all(old(self).entries(), segments@.take(i as int)),
                self.spec_duration() == old(self).spec_duration(),
                self.spec_video_id() == old(self).spec_video_id(),
            decreases segments.len() - i,
        {
            assert(segments@.take(i + 1).drop_last() =~= segments@.take(i as int));
            self.add_segment(segments[i]);
            i = i + 1;
        }
        assert(segments@.take(segments.len() as int) =~= segments@);
    }

    /// The segment that contains `t_ms`, if one does.
    pub fn get_segment_at(&self, t_ms: u64) -> (r: Option<TimelineSegment>)
        ensures
            r == segment_at(self.entries(), t_ms),
            r is Some <==> exists|j: int|
                0 <= j < self.entries().len() && (#[trigger] self.entries()[j]).start_ms <= t_ms
                    && t_ms < self.entries()[j].end_ms,
            r matches Some(g) ==> g.start_ms <= t_ms && t_ms < g.end_ms,
    {
        let s = &self.segments;
        let mut k = s.len();
        while k > 0
            invariant
                0 <= k <= s.len(),
                s@ == self.entries(),
                forall|j: int|
                    k <= j < s.len() ==> !((#[trigger] s@[j]).start_ms <= t_ms && t_ms < s@[j].end_ms),
            decreases k,
        {
            if s[k - 1].start_ms <= t_ms && t_ms < s[k - 1].end_ms {
                proof {
                    lemma_last_where_unique(s.len() as int, contains_at(s@, t_ms), k - 1);
                }
                return Some(s[k - 1]);
            }
            k = k - 1;
        }
        proof {
            assert forall|j: int| -1 < j < s.len() implies !#[trigger] contains_at(s@, t_ms)(j) by {
                assert(!(s@[j].start_ms <= t_ms && t_ms < s@[j].end_ms));
            }
            lemma_last_where_unique(s.len() as int, contains_at(s@, t_ms), -1);
        }
        None
    }

    /// The segments that start within `[start_ms, end_ms]`, in order.
    pub fn get_segments_in_range(&self, start_ms: u64, end_ms: u64) -> (r: Vec<TimelineSegment>)
        requires
            start_ms <= end_ms,
        ensures
            r@ == starting_within(self.entries(), start_ms, end_ms),
    {
        let s = &self.segments;
        let mut out: Vec<TimelineSegment> = Vec::new();
        let mut i: usize = 0;
        while i < s.len()
            invariant
                0 <= i <= s.len(),
                out@ == starting_within(s@.take(i as int), start_ms, end_ms),
            decreases s.len() - i,
        {
            assert(s@.take(i + 1).drop_last() =~= s@.take(i as int));
            if start_ms <= s[i].start_ms && s[i].start_ms <= end_ms {
                out.push(s[i]);
            }
            i = i + 1;
        }
        assert(s@.take(s.len() as int) =~= s@);
        out
    }

    /// All segments, in start order.
    pub fn get_all_segments(&self) -> (r: Vec<TimelineSegment>)
        ensures
            r@ == self.entries(),
    {
        let s = &self.segments;
        let mut out: Vec<TimelineSegment> = Vec::new();
        let mut i: usize = 0;
        while i < s.len()
            invariant
                0 <= i <= s.len(),
                out@ == s@.take(i as int),
            decreases s.len() - i,
        {
            out.push(s[i]);
            assert(out@ =~= s@.take(i + 1));
            i = i + 1;
        }
        assert(s@.take(s.len() as int) =~= s@);
        out
    }

    /// The scan results of the explicit segments, for auto-skip.
    pub fn get_explicit_segments(&self) -> (r: Vec<ScanSegment>)
        ensures
            r@ == explicit_of(self.entries()),
    {
        let s = &self.segments;
        let mut out: Vec<ScanSegment> = Vec::new();
        let mut i: usize = 0;
        while i < s.len()
            invariant
                0 <= i <= s.len(),
                out@ == explicit_of(s@.take(i as int)),
            decreases s.len() - i,
        {
            assert(s@.take(i + 1).drop_last() =~= s@.take(i as int));
            let seg = s[i];
            if seg.segment_type == TimelineSegmentType::ExplicitContent {
                match seg.scan_segment {
                    Some(x) => {
                        out.push(x);
                    },
                    None => {},
                }
            }
            i = i + 1;
        }
        assert(s@.take(s.len() as int) =~= s@);
        out
    }

    /// Skip zones: the explicit spans widened by `buffer_ms` either side
    /// (the end clipped to the duration), sorted by start and merged where
    /// they overlap or touch.
    pub fn get_skip_zones(&self, buffer_ms: u64) -> (r: Vec<(u64, u64)>)
        ensures
            r@ == skip_zones_of(self.entries(), buffer_ms, self.spec_duration()),
    {
        let explicit = self.get_explicit_segments();
        let mut sorted: Vec<(u64, u64)> = Vec::new();
        let mut i: usize = 0;
        let ghost zs = zones_of(explicit@, buffer_ms, self.duration_ms);
        while i < explicit.len()
            invariant
                0 <= i <= explicit.len(),
                zs == zones_of(explicit@, buffer_ms, self.duration_ms),
                sorted@ == sort_by_start(zs.take(i as int)),
            decreases explicit.len() - i,
        {
            let x = explicit[i];
            let start = if x.start_ms >= buffer_ms {
                x.start_ms - buffer_ms
            } else {
                0
            };
            let end = if x.end_ms as u128 + buffer_ms as u128 > self.duration_ms as u128 {
                self.duration_ms
            } else {
                x.end_ms + buffer_ms
            };
            assert((start, end) == zs[i as int]);
            assert(zs.take(i + 1).drop_last() =~= zs.take(i as int));
            insert_zone(&mut sorted, (start, end));
            i = i + 1;
        }
        assert(zs.take(explicit.len() as int) =~= zs);
        merge_sorted(&sorted)
    }

    /// Whether `t_ms` lies in a skip zone.
    pub fn is_in_skip_zone(&self, t_ms: u64, buffer_ms: u64) -> (r: bool)
        ensures
            r == covers(skip_zones_of(self.entries(), buffer_ms, self.spec_duration()), t_ms as int),
    {
        let zones = self.get_skip_zones(buffer_ms);
        let mut i: usize = 0;
        while i < zones.len()
            invariant
                0 <= i <= zones.len(),
                zones@ == skip_zones_of(self.entries(), buffer_ms, self.spec_duration()),
                forall|j: int| 0 <= j < i ==> !holds(#[trigger] zones@[j], t_ms as int),
            decreases zones.len() - i,
        {
            if zones[i].0 <= t_ms && t_ms < zones[i].1 {
                assert(holds(zones@[i as int], t_ms as int));
                return true;
            }
            i = i + 1;
        }
        false
    }

    /// The end of the skip zone that holds `t_ms`, if one does.
    pub fn get_next_safe_position(&self, t_ms: u64, buffer_ms: u64) -> (r: Option<u64>)
        ensures
            r == safe_after(skip_zones_of(self.entries(), buffer_ms, self.spec_duration()), t_ms),
    {
        let zones = self.get_skip_zones(buffer_ms);
        let mut i: usize = 0;
        while i < zones.len()
            invariant
                0 <= i <= zones.len(),
                zones@ == skip_zones_of(self.entries(), buffer_ms, self.spec_duration()),
                forall|j: int| 0 <= j < i ==> !#[trigger] holds(zones@[j], t_ms as int),
            decreases zones.len() - i,
        {
            if zones[i].0 <= t_ms && t_ms < zones[i].1 {
                proof {
                    lemma_first_where_unique(zones.len() as int, holds_at(zones@, t_ms), i as int);
                }
                return Some(zones[i].1);
            }
            i = i + 1;
        }
        proof {
            lemma_first_where_unique(zones.len() as int, holds_at(zones@, t_ms), zones.len() as int);
        }
        None
    }

    /// Milliseconds covered by scanned segments, overlaps counted once.
    pub fn scanned_ms(&self) -> (r: u128)
        ensures
            r == scanned_total(self.entries()),
    {
        proof {
            use_type_invariant(self);
        }
        let s = &self.segments;
        let mut spans: Vec<(u64, u64)> = Vec::new();
        let mut i: usize = 0;
        while i < s.len()
            invariant
                0 <= i <= s.len(),
                spans@ == scanned_spans(s@.take(i as int)),
            decreases s.len() - i,
        {
            assert(s@.take(i + 1).drop_last() =~= s@.take(i as int));
            let seg = s[i];
            if seg.segment_type != TimelineSegmentType::Unknown {
                spans.push((seg.start_ms, seg.end_ms));
            }
            i = i + 1;
        }
        assert(s@.take(s.len() as int) =~= s@);
        proof {
            lemma_scanned_spans_sorted(s@);
            lemma_scanned_spans_ordered(s@);
        }
        let merged = merge_sorted(&spans);
        proof {
            lemma_merge_ordered(spans@);
        }
        let mut total: u128 = 0;
        let mut j: usize = 0;
        while j < merged.len()
            invariant
                0 <= j <= merged.len(),
                forall|k: int| 0 <= k < merged@.len() ==> (#[trigger] merged@[k]).0 <= merged@[k].1,
                total == spans_length(merged@.take(j as int)),
                total <= j * (u64::MAX as int),
            decreases merged.len() - j,
        {
            assert(merged@.take(j + 1).drop_last() =~= merged@.take(j as int));
            let z = merged[j];
            total = total + (z.1 - z.0) as u128;
            j = j + 1;
        }
        assert(merged@.take(merged.len() as int) =~= merged@);
        total
    }

    /// The video duration.
    pub fn duration(&self) -> (r: u64)
        ensures
            r == self.spec_duration(),
    {
        self.duration_ms
    }

    /// The video this timeline belongs to.
    pub fn video_id(&self) -> (r: VideoId)
        ensures
            r == self.spec_video_id(),
    {
        self.video_id
    }
}

/// `merge_zones` of a vector of ranges.
fn merge_sorted(sorted: &Vec<(u64, u64)>) -> (merged: Vec<(u64, u64)>)
    ensures
        merged@ == merge_zones(sorted@),
{
    let mut merged: Vec<(u64, u64)> = Vec::new();
    let mut j: usize = 0;
    while j < sorted.len()
        invariant
            0 <= j <= sorted.len(),
            merged@ == merge_zones(sorted@.take(j as int)),
        decreases sorted.len() - j,
    {
        let z = sorted[j];
        assert(sorted@.take(j + 1).drop_last() =~= sorted@.take(j as int));
        let n = merged.len();
        if n > 0 && z.0 <= merged[n - 1].1 {
            let last = merged[n - 1];
            let end = if z.1 > last.1 {
                z.1
            } else {
                last.1
            };
            merged.set(n - 1, (last.0, end));
        } else {
            merged.push(z);
        }
        j = j + 1;
    }
    assert(sorted@.take(sorted.len() as int) =~= sorted@);
    merged
}

/// The spans of scanned segments come in start order, none starting after
/// the last segment.
proof fn lemma_scanned_spans_sorted(s: Seq<TimelineSegment>)
    requires
        sorted_by_start(s),
    ensures
        starts_sorted(scanned_spans(s)),
        s.len() > 0 ==> forall|i: int|
            0 <= i < scanned_spans(s).len() ==> (#[trigger] scanned_spans(s)[i]).0 <= s.last().start_ms,
    decreases s.len(),
{
    if s.len() > 0 {
        let p = s.drop_last();
        lemma_scanned_spans_sorted(p);
        if p.len() > 0 {
            assert(p.last().start_ms < s.last().start_ms);
        }
    }
}

/// Some scanned segment of `s` ends at `e`.
pub open spec fn scanned_end(s: Seq<TimelineSegment>, e: u64) -> bool {
    exists|k: int|
        0 <= k < s.len() && (#[trigger] s[k]).segment_type != TimelineSegmentType::Unknown
            && s[k].end_ms == e
}

/// The spans of scanned segments never end before they start; each ends
/// where some scanned segment ends.
proof fn lemma_scanned_spans_ordered(s: Seq<TimelineSegment>)
    requires
        spans_ok(s),
    ensures
        forall|i: int|
            0 <= i < scanned_spans(s).len() ==> (#[trigger] scanned_spans(s)[i]).0 <= scanned_spans(
                s,
            )[i].1,
        forall|i: int|
            0 <= i < scanned_spans(s).len() ==> scanned_end(s, (#[trigger] scanned_spans(s)[i]).1),
    decreases s.len(),
{
    if s.len() > 0 {
        let p = s.drop_last();
        assert(spans_ok(p)) by {
            assert forall|i: int| 0 <= i < p.len() implies span_ok(#[trigger] p[i]) by {
                assert(p[i] == s[i]);
            }
        }
        lemma_scanned_spans_ordered(p);
        assert(span_ok(s[s.len() - 1]));
        let r = scanned_spans(s);
        assert forall|i: int| 0 <= i < r.len() implies (#[trigger] r[i]).0 <= r[i].1 by {
            if i < scanned_spans(p).len() {
                assert(r[i] == scanned_spans(p)[i]);
            }
        }
        let q = scanned_spans(p);
        assert forall|i: int| 0 <= i < r.len() implies scanned_end(s, (#[trigger] r[i]).1) by {
            if i < q.len() {
                assert(r[i] == q[i]);
                assert(scanned_end(p, q[i].1));
                let k = choose|k: int|
                    0 <= k < p.len() && (#[trigger] p[k]).segment_type != TimelineSegmentType::Unknown
                        && p[k].end_ms == q[i].1;
                assert(s[k] == p[k]);
            } else {
                let k = s.len() - 1;
                assert(r == q.push((s.last().start_ms, s.last().end_ms)));
                assert(s[k].segment_type != TimelineSegmentType::Unknown && s[k].end_ms == r[i].1);
            }
        }
    }
}

/// Merging keeps every range's start at or before its end, and no end
/// beyond `bound` when no input end is.
proof fn lemma_merge_ordered(zs: Seq<(u64, u64)>)
    requires
        forall|i: int| 0 <= i < zs.len() ==> (#[trigger] zs[i]).0 <= zs[i].1,
    ensures
        forall|i: int| 0 <= i < merge_zones(zs).len() ==> (#[trigger] merge_zones(zs)[i]).0 <= merge_zones(
            zs,
        )[i].1,
        forall|i: int|
            0 <= i < merge_zones(zs).len() ==> exists|k: int|
                0 <= k < zs.len() && (#[trigger] zs[k]).1 == (#[trigger] merge_zones(zs)[i]).1,
    decreases zs.len(),
{
    if zs.len() > 0 {
        let p = zs.drop_last();
        lemma_merge_ordered(p);
        let m = merge_zones(p);
        let z = zs.last();
        assert(zs[zs.len() - 1] == z);
        let r = merge_zones(zs);
        assert forall|i: int| 0 <= i < r.len() implies exists|k: int|
            0 <= k < zs.len() && (#[trigger] zs[k]).1 == (#[trigger] r[i]).1 by {
            if i < m.len() && !(m.len() > 0 && z.0 <= m.last().1 && i == m.len() - 1 && z.1 > m.last().1) {
                let k = choose|k: int| 0 <= k < p.len() && (#[trigger] p[k]).1 == (#[trigger] m[i]).1;
                assert(zs[k] == p[k]);
            } else {
                assert(zs[zs.len() - 1].1 == r[i].1);
            }
        }
    }
}

/// Separated, ordered ranges have summed length at most the last end.
proof fn lemma_length_within_last_end(c: Seq<(u64, u64)>)
    requires
        c.len() > 0,
        forall|i: int| 0 <= i < c.len() ==> (#[trigger] c[i]).0 <= c[i].1,
        forall|i: int, j: int| 0 <= i < j < c.len() ==> (#[trigger] c[i]).1 < (#[trigger] c[j]).0,
    ensures
        0 <= spans_length(c) <= c.last().1,
    decreases c.len(),
{
    let p = c.drop_last();
    assert(c[c.len() - 1].0 <= c[c.len() - 1].1);
    if p.len() > 0 {
        assert forall|i: int| 0 <= i < p.len() implies (#[trigger] p[i]).0 <= p[i].1 by {
            assert(p[i] == c[i]);
        }
        assert forall|i: int, j: int| 0 <= i < j < p.len() implies (#[trigger] p[i]).1 < (
        #[trigger] p[j]).0 by {
            assert(p[i] == c[i] && p[j] == c[j]);
        }
        lemma_length_within_last_end(p);
        assert(c[p.len() - 1].1 < c[c.len() - 1].0);
    } else {
        assert(spans_length(p) == 0);
    }
}

/// The scanned total is a union's length: the merged spans cover exactly
/// the instants the scanned segments cover, are separated from one
/// another, and each starts at or before its end; so an instant covered by
/// several scanned segments is counted once.
pub proof fn law_scanned_union(s: Seq<TimelineSegment>)
    requires
        sorted_by_start(s),
        spans_ok(s),
    ensures
        forall|t: int| covers(merge_zones(scanned_spans(s)), t) == covers(scanned_spans(s), t),
        forall|i: int, j: int|
            0 <= i < j < merge_zones(scanned_spans(s)).len() ==> (#[trigger] merge_zones(
                scanned_spans(s),
            )[i]).1 < (#[trigger] merge_zones(scanned_spans(s))[j]).0,
        forall|i: int|
            0 <= i < merge_zones(scanned_spans(s)).len() ==> (#[trigger] merge_zones(
                scanned_spans(s),
            )[i]).0 <= merge_zones(scanned_spans(s))[i].1,
        scanned_total(s) == spans_length(merge_zones(scanned_spans(s))),
{
    lemma_scanned_spans_sorted(s);
    lemma_scanned_spans_ordered(s);
    lemma_merge_zones(scanned_spans(s));
    lemma_merge_ordered(scanned_spans(s));
}

/// When every scanned segment ends within the video, the scanned total is
/// at most the duration, so the covered share stays within 0 and 1.
pub proof fn law_scanned_within_duration(s: Seq<TimelineSegment>, duration_ms: u64)
    requires
        sorted_by_start(s),
        spans_ok(s),
        forall|k: int|
            0 <= k < s.len() && (#[trigger] s[k]).segment_type != TimelineSegmentType::Unknown
                ==> s[k].end_ms <= duration_ms,
    ensures
        0 <= scanned_total(s) <= duration_ms,
{
    law_scanned_union(s);
    let sp = scanned_spans(s);
    let m = merge_zones(sp);
    if m.len() > 0 {
        lemma_length_within_last_end(m);
        lemma_scanned_spans_ordered(s);
        lemma_merge_ordered(sp);
        let i = m.len() - 1;
        assert(m[i] == m.last());
        let k = choose|k: int| 0 <= k < sp.len() && (#[trigger] sp[k]).1 == (#[trigger] m[i]).1;
        assert(scanned_end(s, sp[k].1));
        let k2 = choose|k2: int|
            0 <= k2 < s.len() && (#[trigger] s[k2]).segment_type != TimelineSegmentType::Unknown
                && s[k2].end_ms == sp[k].1;
    } else {
        assert(spans_length(m) == 0);
    }
}

/// `upsert` into a vector of segments.
fn insert_segment(segs: &mut Vec<TimelineSegment>, segment: TimelineSegment)
    ensures
        final(segs)@ == upsert(old(segs)@, segment),
{
    let ghost s = segs@;
    let k = segment.start_ms;
    let mut p: usize = 0;
    while p < segs.len() && segs[p].start_ms < k
        invariant
            0 <= p <= segs.len(),
            segs@ == s,
            forall|j: int| 0 <= j < p ==> !((#[trigger] s[j]).start_ms >= k),
        decreases segs.len() - p,
    {
        p = p + 1;
    }
    proof {
        lemma_first_where_unique(s.len() as int, starts_from(s, k), p as int);
    }
    if p < segs.len() && segs[p].start_ms == k {
        segs.set(p, segment);
    } else {
        segs.insert(p, segment);
    }
}

/// Adding a segment keeps the order by start and the span condition.
pub proof fn lemma_upsert_keeps(s: Seq<TimelineSegment>, seg: TimelineSegment)
    requires
        sorted_by_start(s),
        spans_ok(s),
        span_ok(seg),
    ensures
        sorted_by_start(upsert(s, seg)),
        spans_ok(upsert(s, seg)),
{
    let p = first_where(s.len() as int, starts_from(s, seg.start_ms));
    lemma_first_where(s.len() as int, starts_from(s, seg.start_ms));
    let r = upsert(s, seg);
    if p < s.len() && s[p].start_ms == seg.start_ms {
        assert forall|i: int, j: int| 0 <= i < j < r.len() implies (#[trigger] r[i]).start_ms < (
        #[trigger] r[j]).start_ms by {
            assert(s[i].start_ms < s[j].start_ms);
        }
    } else {
        assert forall|i: int, j: int| 0 <= i < j < r.len() implies (#[trigger] r[i]).start_ms < (
        #[trigger] r[j]).start_ms by {
            if j < p {
                assert(s[i].start_ms < s[j].start_ms);
            } else if j == p {
                assert(!starts_from(s, seg.start_ms)(i));
            } else if i < p {
                assert(s[i].start_ms < s[j - 1].start_ms);
            } else if i == p {
                assert(starts_from(s, seg.start_ms)(p));
                if j - 1 > p {
                    assert(s[p].start_ms < s[j - 1].start_ms);
                }
            } else {
                assert(s[i - 1].start_ms < s[j - 1].start_ms);
            }
        }
    }
    assert forall|i: int| 0 <= i < r.len() implies span_ok(#[trigger] r[i]) by {
        if p < s.len() && s[p].start_ms == seg.start_ms {
            if i != p {
                assert(r[i] == s[i]);
            }
        } else if i < p {
            assert(r[i] == s[i]);
        } else if i > p {
            assert(r[i] == s[i - 1]);
        }
    }
}

/// `insert_by_start` into a vector of zones.
fn insert_zone(sorted: &mut Vec<(u64, u64)>, z: (u64, u64))
    ensures
        final(sorted)@ == insert_by_start(old(sorted)@, z),
{
    let ghost s = sorted@;
    let mut j = sorted.len();
    while j > 0 && sorted[j - 1].0 > z.0
        invariant
            0 <= j <= sorted.len(),
            sorted@ == s,
            forall|k: int| j <= k < s.len() ==> (#[trigger] s[k]).0 > z.0,
        decreases j,
    {
        j = j - 1;
    }
    proof {
        lemma_insert_by_start_at(s, z, j as int);
    }
    sorted.insert(j, z);
}

proof fn lemma_insert_by_start_at(s: Seq<(u64, u64)>, z: (u64, u64), j: int)
    requires
        0 <= j <= s.len(),
        forall|k: int| j <= k < s.len() ==> (#[trigger] s[k]).0 > z.0,
        j > 0 ==> s[j - 1].0 <= z.0,
    ensures
        insert_by_start(s, z) == s.insert(j, z),
    decreases s.len(),
{
    if s.len() == 0 {
        assert(s.insert(0, z) =~= seq![z]);
    } else if s.last().0 <= z.0 {
        assert(j == s.len());
        assert(s.insert(j, z) =~= s.push(z));
    } else {
        let t = s.drop_last();
        lemma_insert_by_start_at(t, z, j);
        assert(t.insert(j, z).push(s.last()) =~= s.insert(j, z));
    }
}

/// Zones sorted by start.
pub open spec fn starts_sorted(zs: Seq<(u64, u64)>) -> bool {
    forall|i: int, j: int| 0 <= i < j < zs.len() ==> (#[trigger] zs[i]).0 <= (#[trigger] zs[j]).0
}

proof fn lemma_covers_push(segs: Seq<(u64, u64)>, x: (u64, u64), t: int)
    ensures
        covers(segs.push(x), t) == (covers(segs, t) || holds(x, t)),
{
    if covers(segs, t) {
        let i = choose|i: int| 0 <= i < segs.len() && holds(#[trigger] segs[i], t);
        assert(segs.push(x)[i] == segs[i]);
    }
    if holds(x, t) {
        assert(segs.push(x)[segs.len() as int] == x);
    }
    if covers(segs.push(x), t) {
        let i = choose|i: int| 0 <= i < segs.push(x).len() && holds(#[trigger] segs.push(x)[i], t);
        if i < segs.len() {
            assert(segs.push(x)[i] == segs[i]);
        }
    }
}

/// Inserting keeps the zones sorted and adds exactly the inserted zone's
/// instants.
proof fn lemma_insert_by_start(s: Seq<(u64, u64)>, z: (u64, u64))
    requires
        starts_sorted(s),
    ensures
        starts_sorted(insert_by_start(s, z)),
        insert_by_start(s, z).len() == s.len() + 1,
        forall|t: int| covers(insert_by_start(s, z), t) == (covers(s, t) || holds(z, t)),
        forall|i: int|
            0 <= i < insert_by_start(s, z).len() ==> (#[trigger] insert_by_start(s, z)[i]) == z
                || s.contains(insert_by_start(s, z)[i]),
    decreases s.len(),
{
    if s.len() == 0 {
        assert forall|t: int| covers(insert_by_start(s, z), t) == (covers(s, t) || holds(z, t)) by {
            lemma_covers_push(s, z, t);
            assert(s.push(z) =~= seq![z]);
        }
    } else if s.last().0 <= z.0 {
        assert forall|t: int| covers(insert_by_start(s, z), t) == (covers(s, t) || holds(z, t)) by {
            lemma_covers_push(s, z, t);
        }
        assert forall|i: int| 0 <= i < s.push(z).len() implies (#[trigger] s.push(z)[i]) == z
            || s.contains(s.push(z)[i]) by {
            if i < s.len() {
                assert(s.push(z)[i] == s[i]);
            }
        }
    } else {
        let t0 = s.drop_last();
        assert(starts_sorted(t0)) by {
            assert forall|i: int, j: int| 0 <= i < j < t0.len() implies (#[trigger] t0[i]).0 <= (
            #[trigger] t0[j]).0 by {
                assert(t0[i] == s[i] && t0[j] == s[j]);
            }
        }
        lemma_insert_by_start(t0, z);
        let m = insert_by_start(t0, z);
        let r = m.push(s.last());
        assert forall|i: int, j: int| 0 <= i < j < r.len() implies (#[trigger] r[i]).0 <= (
        #[trigger] r[j]).0 by {
            if j == r.len() - 1 {
                assert(r[j] == s.last());
                assert(r[i] == m[i]);
                if m[i] == z {
                } else {
                    assert(t0.contains(m[i]));
                    let k = choose|k: int| 0 <= k < t0.len() && t0[k] == m[i];
                    assert(s[k] == t0[k]);
                }
            } else {
                assert(r[i] == m[i] && r[j] == m[j]);
            }
        }
        assert forall|t: int| covers(r, t) == (covers(s, t) || holds(z, t)) by {
            lemma_covers_push(m, s.last(), t);
            lemma_covers_push(t0, s.last(), t);
            assert(t0.push(s.last()) =~= s);
        }
        assert forall|i: int| 0 <= i < r.len() implies (#[trigger] r[i]) == z || s.contains(r[i]) by {
            if i == r.len() - 1 {
                assert(s[s.len() - 1] == s.last());
            } else {
                assert(r[i] == m[i]);
                if m[i] != z {
                    let k = choose|k: int| 0 <= k < t0.len() && t0[k] == m[i];
                    assert(s[k] == t0[k]);
                }
            }
        }
    }
}

/// Sorting keeps the instants covered and orders the zones by start.
pub proof fn lemma_sort_by_start(zs: Seq<(u64, u64)>)
    ensures
        starts_sorted(sort_by_start(zs)),
        forall|t: int| covers(sort_by_start(zs), t) == covers(zs, t),
    decreases zs.len(),
{
    if zs.len() > 0 {
        let p = zs.drop_last();
        lemma_sort_by_start(p);
        lemma_insert_by_start(sort_by_start(p), zs.last());
        assert forall|t: int| covers(sort_by_start(zs), t) == covers(zs, t) by {
            lemma_covers_push(p, zs.last(), t);
            assert(p.push(zs.last()) =~= zs);
        }
    }
}

/// Merging sorted zones keeps the instants covered; merged zones are
/// separated by gaps (each ends before the next starts).
pub proof fn lemma_merge_zones(zs: Seq<(u64, u64)>)
    requires
        starts_sorted(zs),
    ensures
        forall|t: int| covers(merge_zones(zs), t) == covers(zs, t),
        forall|i: int, j: int|
            0 <= i < j < merge_zones(zs).len() ==> (#[trigger] merge_zones(zs)[i]).1 < (
            #[trigger] merge_zones(zs)[j]).0,
        zs.len() > 0 ==> merge_zones(zs).len() > 0,
        forall|i: int| 0 <= i < merge_zones(zs).len() ==> (#[trigger] merge_zones(zs)[i]).0 <= zs.last().0,
    decreases zs.len(),
{
    if zs.len() > 0 {
        let p = zs.drop_last();
        let z = zs.last();
        assert(starts_sorted(p)) by {
            assert forall|i: int, j: int| 0 <= i < j < p.len() implies (#[trigger] p[i]).0 <= (
            #[trigger] p[j]).0 by {
                assert(p[i] == zs[i] && p[j] == zs[j]);
            }
        }
        lemma_merge_zones(p);
        let m = merge_zones(p);
        if p.len() > 0 {
            assert(p.last().0 <= z.0) by {
                assert(p.last() == zs[zs.len() - 2]);
            }
        }
        let r = merge_zones(zs);
        assert(r == merge_step(m, z));
        if m.len() > 0 && z.0 <= m.last().1 {
            let last = m.last();
            let end = if z.1 > last.1 {
                z.1
            } else {
                last.1
            };
            assert(last.0 <= z.0);
            assert forall|t: int| covers(r, t) == covers(zs, t) by {
                lemma_covers_push(m.drop_last(), last, t);
                lemma_covers_push(m.drop_last(), (last.0, end), t);
                assert(m.drop_last().push(last) =~= m);
                assert(m.drop_last().push((last.0, end)) =~= r);
                lemma_covers_push(p, z, t);
                assert(p.push(z) =~= zs);
            }
            assert forall|i: int, j: int| 0 <= i < j < r.len() implies (#[trigger] r[i]).1 < (
            #[trigger] r[j]).0 by {
                assert(r[i] == m[i]);
                assert(r[j].0 == m[j].0);
            }
        } else {
            assert forall|t: int| covers(r, t) == covers(zs, t) by {
                lemma_covers_push(m, z, t);
                lemma_covers_push(p, z, t);
                assert(p.push(z) =~= zs);
            }
            assert forall|i: int, j: int| 0 <= i < j < r.len() implies (#[trigger] r[i]).1 < (
            #[trigger] r[j]).0 by {
                if j == r.len() - 1 {
                    assert(r[j] == z);
                    assert(r[i] == m[i]);
                    if i < m.len() - 1 {
                        assert(m[i].1 < m[m.len() - 1].0);
                    }
                } else {
                    assert(r[i] == m[i] && r[j] == m[j]);
                }
            }
        }
        assert forall|i: int| 0 <= i < r.len() implies (#[trigger] r[i]).0 <= zs.last().0 by {
            if i < m.len() {
                assert(r[i].0 == m[i].0);
            }
        }
    }
}

/// Read after write: once a non-empty segment is added, the segment found
/// at its start time is that segment.
pub proof fn law_read_after_write(s: Seq<TimelineSegment>, seg: TimelineSegment)
    requires
        sorted_by_start(s),
        spans_ok(s),
        span_ok(seg),
        seg.start_ms < seg.end_ms,
    ensures
        segment_at(upsert(s, seg), seg.start_ms) == Some(seg),
{
    let p = first_where(s.len() as int, starts_from(s, seg.start_ms));
    lemma_first_where(s.len() as int, starts_from(s, seg.start_ms));
    lemma_upsert_keeps(s, seg);
    let u = upsert(s, seg);
    assert(u[p] == seg);
    assert forall|j: int| p < j < u.len() implies !#[trigger] contains_at(u, seg.start_ms)(j) by {
        assert(u[p].start_ms < u[j].start_ms);
    }
    lemma_last_where_unique(u.len() as int, contains_at(u, seg.start_ms), p);
}

/// An instant lies in a skip zone exactly when there is a safe position
/// to jump to from it.
pub proof fn law_skip_zone_iff_safe_position(s: Seq<TimelineSegment>, buffer_ms: u64, duration_ms: u64, t: u64)
    ensures
        covers(skip_zones_of(s, buffer_ms, duration_ms), t as int) <==> safe_after(
            skip_zones_of(s, buffer_ms, duration_ms),
            t,
        ) is Some,
{
    let z = skip_zones_of(s, buffer_ms, duration_ms);
    lemma_first_where(z.len() as int, holds_at(z, t));
    let f = first_where(z.len() as int, holds_at(z, t));
    if covers(z, t as int) {
        let i = choose|i: int| 0 <= i < z.len() && holds(#[trigger] z[i], t as int);
        assert(holds_at(z, t)(i));
    }
    if f < z.len() {
        assert(holds(z[f], t as int));
    }
}

/// The skip zones hold exactly the instants within `buffer_ms` of an
/// explicit segment (the end clipped to the duration).
pub proof fn law_skip_zones_cover_explicit(s: Seq<TimelineSegment>, buffer_ms: u64, duration_ms: u64, t: int)
    ensures
        covers(skip_zones_of(s, buffer_ms, duration_ms), t) == covers(
            zones_of(explicit_of(s), buffer_ms, duration_ms),
            t,
        ),
{
    let zs = zones_of(explicit_of(s), buffer_ms, duration_ms);
    lemma_sort_by_start(zs);
    lemma_merge_zones(sort_by_start(zs));
}

/// The skip zones are sorted and separated: each ends before the next
/// starts.
pub proof fn law_skip_zones_separated(s: Seq<TimelineSegment>, buffer_ms: u64, duration_ms: u64)
    ensures
        forall|i: int, j: int|
            0 <= i < j < skip_zones_of(s, buffer_ms, duration_ms).len() ==> (#[trigger] skip_zones_of(
                s,
                buffer_ms,
                duration_ms,
            )[i]).1 < (#[trigger] skip_zones_of(s, buffer_ms, duration_ms)[j]).0,
{
    let zs = zones_of(explicit_of(s), buffer_ms, duration_ms);
    lemma_sort_by_start(zs);
    lemma_merge_zones(sort_by_start(zs));
}

/// The safe position offered from an instant lies after it and outside
/// every skip zone.
pub proof fn law_safe_position_is_safe(s: Seq<TimelineSegment>, buffer_ms: u64, duration_ms: u64, t: u64)
    ensures
        safe_after(skip_zones_of(s, buffer_ms, duration_ms), t) matches Some(p) ==> t < p && !covers(
            skip_zones_of(s, buffer_ms, duration_ms),
            p as int,
        ),
{
    let z = skip_zones_of(s, buffer_ms, duration_ms);
    law_skip_zones_separated(s, buffer_ms, duration_ms);
    lemma_first_where(z.len() as int, holds_at(z, t));
    let f = first_where(z.len() as int, holds_at(z, t));
    if f < z.len() {
        let p = z[f].1;
        assert(holds(z[f], t as int));
        if covers(z, p as int) {
            let j = choose|j: int| 0 <= j < z.len() && holds(#[trigger] z[j], p as int);
            if j < f {
                assert(z[j].1 < z[f].0);
            } else if j > f {
                assert(z[f].1 < z[j].0);
            }
        }
    }
}

} // verus!
