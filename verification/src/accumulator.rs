//! Bounded vertex accumulator.
//!
//! A fixed-capacity, append-only buffer that captures pointer-driven point
//! submissions into pre-allocated storage. It tracks the total number of
//! submissions — the write cursor — the lengths of completed ("closed")
//! groups, and the length of the in-progress group, and derives the primitive
//! assembly mode the in-progress group should be drawn with. Two capacity
//! policies exist, chosen at construction: the non-wrapping accumulator
//! silently rejects submissions once full, the wrapping one overwrites the
//! oldest slots.

use crate::color::{hex_color, hex_to_rgb, is_hex_color};
use crate::linear_algebra::{Vec2, Vec3};
use vstd::prelude::*;

verus! {

/// The primitive-assembly modes a draw plan entry maps onto.
#[derive(Copy, Clone, Debug, PartialEq, Eq, Structural)]
pub enum PrimitiveKind {
    /// Isolated points.
    Points,
    /// A single line segment.
    Line,
    /// A filled polygon fan.
    PolygonFan,
}

/// One draw call of a plan: `count` vertices starting at element offset
/// `first`, assembled as `kind`.
#[derive(Copy, Clone, Debug, PartialEq, Eq, Structural)]
pub struct DrawEntry {
    /// How the vertices of this entry are assembled.
    pub kind: PrimitiveKind,
    /// Element offset of the entry's first vertex.
    pub first: usize,
    /// Number of vertices in the entry.
    pub count: usize,
}

/// The primitive-assembly mode for an in-progress group of `n` vertices:
/// zero or one vertex draw as points, exactly two as a line, three or more
/// as a polygon fan.
pub open spec fn kind_for(n: int) -> PrimitiveKind {
    if n <= 1 {
        PrimitiveKind::Points
    } else if n == 2 {
        PrimitiveKind::Line
    } else {
        PrimitiveKind::PolygonFan
    }
}

/// Derives the primitive-assembly mode for an in-progress group.
pub fn primitive_for(open_len: usize) -> (k: PrimitiveKind)
    ensures
        k == kind_for(open_len as int),
{
    if open_len <= 1 {
        PrimitiveKind::Points
    } else if open_len == 2 {
        PrimitiveKind::Line
    } else {
        PrimitiveKind::PolygonFan
    }
}

/// The sum of the first `i` group lengths.
pub open spec fn prefix_sum(s: Seq<nat>, i: int) -> int
    decreases i,
{
    if i <= 0 {
        0
    } else {
        prefix_sum(s, i - 1) + s[i - 1]
    }
}

/// The sum of all group lengths.
pub open spec fn group_sum(s: Seq<nat>) -> int {
    prefix_sum(s, s.len() as int)
}

/// A prefix sum never decreases as the prefix grows.
pub proof fn lemma_prefix_sum_mono(s: Seq<nat>, i: int, j: int)
    requires
        0 <= i <= j <= s.len(),
    ensures
        prefix_sum(s, i) <= prefix_sum(s, j),
    decreases j - i,
{
    if i < j {
        lemma_prefix_sum_mono(s, i, j - 1);
    }
}

/// Two sequences agreeing on a prefix have the same prefix sum there.
pub proof fn lemma_prefix_sum_agree(s1: Seq<nat>, s2: Seq<nat>, i: int)
    requires
        0 <= i <= s1.len(),
        i <= s2.len(),
        forall|j: int| 0 <= j < i ==> s1[j] == s2[j],
    ensures
        prefix_sum(s1, i) == prefix_sum(s2, i),
    decreases i,
{
    if i > 0 {
        lemma_prefix_sum_agree(s1, s2, i - 1);
    }
}

/// Abstract state of an accumulator: the buffers as sequences, the counters
/// as unbounded naturals.
#[verifier::ext_equal]
#[verifier::reject_recursive_types(C)]
pub struct AccView<C> {
    /// Whether submissions past capacity overwrite the oldest slots.
    pub wrapping: bool,
    /// Fixed maximum vertex count, set once at construction.
    pub capacity: nat,
    /// The position buffer; always exactly `capacity` slots.
    pub positions: Seq<Vec2>,
    /// The parallel color buffer; always exactly `capacity` slots.
    pub colors: Seq<C>,
    /// Number of vertices ever submitted and accepted.
    pub total: nat,
    /// Lengths of the completed groups, in completion order.
    pub closed: Seq<nat>,
    /// Vertex count of the in-progress group.
    pub open: nat,
}

impl<C> AccView<C> {
    /// Well-formedness: buffers sized to capacity, group accounting exact —
    /// the closed lengths and the open length always sum to the total — and
    /// a non-wrapping total never beyond capacity.
    pub open spec fn wf(self) -> bool {
        &&& self.positions.len() == self.capacity
        &&& self.colors.len() == self.capacity
        &&& group_sum(self.closed) + self.open == self.total
        &&& !self.wrapping ==> self.total <= self.capacity
        &&& self.wrapping ==> self.capacity >= 1
    }

    /// Whether the next submission is accepted: always, for the wrapping
    /// policy; below capacity, for the non-wrapping one.
    pub open spec fn accepts(self) -> bool {
        self.wrapping || self.total < self.capacity
    }

    /// The slot the next accepted submission writes: the total so far,
    /// wrapped around once capacity is reached.
    pub open spec fn slot(self) -> int {
        if self.total < self.capacity {
            self.total as int
        } else {
            (self.total as int) % (self.capacity as int)
        }
    }

    /// The state after one submission: accepted, it writes both buffers at
    /// the write slot and lengthens the open group; rejected, it changes
    /// nothing.
    pub open spec fn submit_with(self, p: Vec2, c: C) -> AccView<C> {
        if self.accepts() {
            AccView {
                positions: self.positions.update(self.slot(), p),
                colors: self.colors.update(self.slot(), c),
                total: self.total + 1,
                open: self.open + 1,
                ..self
            }
        } else {
            self
        }
    }

    /// The state after closing the in-progress group: its length is appended
    /// to the closed list — a zero-length closed group is acceptable — and
    /// the open count restarts.
    pub open spec fn close(self) -> AccView<C> {
        AccView { closed: self.closed.push(self.open), open: 0, ..self }
    }

    /// How many leading buffer slots hold live data: the total, clamped to
    /// capacity once wrapped.
    pub open spec fn draw_limit(self) -> nat {
        if self.total <= self.capacity {
            self.total
        } else {
            self.capacity
        }
    }
}

/// The state after submitting a whole sequence of (position, color) points,
/// in order.
pub open spec fn submit_all<C>(v: AccView<C>, ps: Seq<(Vec2, C)>) -> AccView<C>
    decreases ps.len(),
{
    if ps.len() == 0 {
        v
    } else {
        submit_all(v, ps.drop_last()).submit_with(ps.last().0, ps.last().1)
    }
}

/// One submission preserves well-formedness.
pub proof fn lemma_submit_wf<C>(v: AccView<C>, p: Vec2, c: C)
    requires
        v.wf(),
    ensures
        v.submit_with(p, c).wf(),
{
    if v.accepts() {
        if v.capacity > 0 {
            assert(0 <= (v.total as int) % (v.capacity as int) < v.capacity as int);
        }
    }
}

/// Any run of submissions preserves well-formedness, the configuration and
/// the closed-group record.
pub proof fn lemma_submit_all_wf<C>(v: AccView<C>, ps: Seq<(Vec2, C)>)
    requires
        v.wf(),
    ensures
        submit_all(v, ps).wf(),
        submit_all(v, ps).wrapping == v.wrapping,
        submit_all(v, ps).capacity == v.capacity,
        submit_all(v, ps).closed == v.closed,
    decreases ps.len(),
{
    if ps.len() > 0 {
        lemma_submit_all_wf(v, ps.drop_last());
        lemma_submit_wf(submit_all(v, ps.drop_last()), ps.last().0, ps.last().1);
    }
}

/// Submitting a concatenation is submitting the parts in turn.
pub proof fn lemma_submit_all_app<C>(v: AccView<C>, ps: Seq<(Vec2, C)>, qs: Seq<(Vec2, C)>)
    ensures
        submit_all(v, ps + qs) == submit_all(submit_all(v, ps), qs),
    decreases qs.len(),
{
    if qs.len() == 0 {
        assert(ps + qs =~= ps);
    } else {
        lemma_submit_all_app(v, ps, qs.drop_last());
        assert((ps + qs).drop_last() =~= ps + qs.drop_last());
        assert((ps + qs).last() == qs.last());
    }
}

/// Capacity bound of the non-wrapping policy: once the total has reached
/// capacity, any further run of submissions is a no-op — the counters and
/// both buffers, previously written contents included, are left exactly as
/// they were.
pub proof fn lemma_full_nonwrap_unchanged<C>(v: AccView<C>, ps: Seq<(Vec2, C)>)
    requires
        v.wf(),
        !v.wrapping,
        v.total == v.capacity,
    ensures
        submit_all(v, ps) == v,
    decreases ps.len(),
{
    if ps.len() > 0 {
        lemma_full_nonwrap_unchanged(v, ps.drop_last());
    }
}

/// Total growth of the non-wrapping policy: a run of submissions raises the
/// total by the run's length, clamped to capacity.
pub proof fn lemma_nonwrap_total<C>(v: AccView<C>, ps: Seq<(Vec2, C)>)
    requires
        v.wf(),
        !v.wrapping,
    ensures
        submit_all(v, ps).total == if v.total + ps.len() <= v.capacity {
            v.total + ps.len()
        } else {
            v.capacity as nat
        },
    decreases ps.len(),
{
    if ps.len() > 0 {
        lemma_nonwrap_total(v, ps.drop_last());
        lemma_submit_all_wf(v, ps.drop_last());
        lemma_submit_all_wf(v, ps);
    }
}

/// Capacity bound of the non-wrapping policy, in full: a run at least as
/// long as the remaining room fills the accumulator exactly to capacity,
/// and everything past the filling prefix — every submission beyond
/// capacity — is a no-op that alters nothing, previously written buffer
/// contents included.
pub proof fn lemma_capacity_bound<C>(v: AccView<C>, ps: Seq<(Vec2, C)>)
    requires
        v.wf(),
        !v.wrapping,
        v.total + ps.len() >= v.capacity,
    ensures
        submit_all(v, ps).total == v.capacity,
        submit_all(v, ps) == submit_all(v, ps.take(v.capacity - v.total)),
{
    let room = v.capacity - v.total;
    let first = ps.take(room);
    let rest = ps.skip(room);
    assert(ps =~= first + rest);
    lemma_submit_all_app(v, first, rest);
    lemma_nonwrap_total(v, first);
    lemma_submit_all_wf(v, first);
    lemma_full_nonwrap_unchanged(submit_all(v, first), rest);
}

/// A wrapping run that fits between the current cursor and the end of the
/// buffer writes its points consecutively from the cursor's slot, leaves
/// every other slot untouched, and raises the total by its length.
pub proof fn lemma_wrap_run<C>(v: AccView<C>, ps: Seq<(Vec2, C)>)
    requires
        v.wf(),
        v.wrapping,
        (v.total as int) % (v.capacity as int) + ps.len() <= v.capacity,
    ensures
        submit_all(v, ps).total == v.total + ps.len(),
        submit_all(v, ps).closed == v.closed,
        submit_all(v, ps).open == v.open + ps.len(),
        submit_all(v, ps).wrapping == v.wrapping,
        submit_all(v, ps).capacity == v.capacity,
        forall|j: int|
            (v.total as int) % (v.capacity as int) <= j < (v.total as int) % (v.capacity as int)
                + ps.len() ==> submit_all(v, ps).positions[j] == ps[j - (v.total as int) % (
            v.capacity as int)].0 && submit_all(v, ps).colors[j] == ps[j - (v.total as int) % (
            v.capacity as int)].1,
        forall|j: int|
            0 <= j < v.capacity && !((v.total as int) % (v.capacity as int) <= j < (
            v.total as int) % (v.capacity as int) + ps.len()) ==> submit_all(v, ps).positions[j]
                == v.positions[j] && submit_all(v, ps).colors[j] == v.colors[j],
    decreases ps.len(),
{
    let cap = v.capacity as int;
    let base = (v.total as int) % cap;
    vstd::arithmetic::div_mod::lemma_mod_bound(v.total as int, cap);
    if ps.len() > 0 {
        lemma_wrap_run(v, ps.drop_last());
        lemma_submit_all_wf(v, ps.drop_last());
        let w = submit_all(v, ps.drop_last());
        let k = ps.len() - 1;
        assert(w.total == v.total + k);
        vstd::arithmetic::div_mod::lemma_fundamental_div_mod(v.total as int, cap);
        let q = (v.total as int) / cap;
        assert(w.total as int == q * cap + (base + k)) by {
            assert(v.total as int == cap * q + base);
            assert(cap * q == q * cap) by (nonlinear_arith);
        }
        vstd::arithmetic::div_mod::lemma_fundamental_div_mod_converse(
            w.total as int,
            cap,
            q,
            base + k,
        );
        if w.total < v.capacity {
            vstd::arithmetic::div_mod::lemma_div_pos_is_pos(v.total as int, cap);
            assert(q == 0) by (nonlinear_arith)
                requires
                    q >= 0,
                    q * cap + (base + k) < cap,
                    base >= 0,
                    k >= 0,
                    cap > 0,
            ;
            assert(q * cap == 0) by (nonlinear_arith)
                requires
                    q == 0,
            ;
            assert(w.slot() == base + k);
        } else {
            assert(w.slot() == base + k);
        }
        assert(submit_all(v, ps) == w.submit_with(ps.last().0, ps.last().1));
        assert forall|j: int| base <= j < base + ps.len() implies submit_all(v, ps).positions[j]
            == ps[j - base].0 && submit_all(v, ps).colors[j] == ps[j - base].1 by {
            if j < base + k {
                assert(w.positions[j] == ps.drop_last()[j - base].0);
                assert(w.colors[j] == ps.drop_last()[j - base].1);
                assert(ps.drop_last()[j - base] == ps[j - base]);
            } else {
                assert(j == base + k);
                assert(submit_all(v, ps).positions[j] == ps.last().0);
                assert(submit_all(v, ps).colors[j] == ps.last().1);
            }
        }
    }
}

/// Wraparound of the wrapping policy: submitting `capacity + m` points into
/// a fresh wrapping accumulator, `0 < m < capacity`, leaves the first `m`
/// slots holding the newest `m` points, the remaining slots holding the
/// points that landed there in the first pass, the total at `capacity + m`,
/// and the live draw length clamped to capacity.
pub proof fn lemma_wraparound<C>(v: AccView<C>, ps: Seq<(Vec2, C)>)
    requires
        v.wf(),
        v.wrapping,
        v.total == 0,
        v.capacity < ps.len() < 2 * v.capacity,
    ensures
        submit_all(v, ps).total == ps.len(),
        forall|j: int|
            0 <= j < ps.len() - v.capacity ==> submit_all(v, ps).positions[j] == ps[
                v.capacity + j
            ].0 && submit_all(v, ps).colors[j] == ps[v.capacity + j].1,
        forall|j: int|
            ps.len() - v.capacity <= j < v.capacity ==> submit_all(v, ps).positions[j] == ps[j].0
                && submit_all(v, ps).colors[j] == ps[j].1,
        submit_all(v, ps).draw_limit() == v.capacity,
{
    let cap = v.capacity as int;
    let first = ps.take(cap);
    let rest = ps.skip(cap);
    assert(ps =~= first + rest);
    lemma_submit_all_app(v, first, rest);
    assert((v.total as int) % cap == 0) by {
        vstd::arithmetic::div_mod::lemma_small_mod(0, cap as nat);
    }
    lemma_wrap_run(v, first);
    let w = submit_all(v, first);
    assert(w.total == cap);
    assert((w.total as int) % cap == 0) by {
        vstd::arithmetic::div_mod::lemma_mod_self_0(cap);
    }
    lemma_submit_all_wf(v, first);
    lemma_wrap_run(w, rest);
    assert(submit_all(v, ps) == submit_all(w, rest));
    assert forall|j: int| 0 <= j < ps.len() - cap implies submit_all(v, ps).positions[j] == ps[
        cap + j
    ].0 && submit_all(v, ps).colors[j] == ps[cap + j].1 by {
        assert(submit_all(w, rest).positions[j] == rest[j].0);
        assert(submit_all(w, rest).colors[j] == rest[j].1);
        assert(rest[j] == ps[cap + j]);
    }
    assert forall|j: int| ps.len() - cap <= j < cap implies submit_all(v, ps).positions[j] == ps[
        j
    ].0 && submit_all(v, ps).colors[j] == ps[j].1 by {
        assert(submit_all(w, rest).positions[j] == w.positions[j]);
        assert(submit_all(w, rest).colors[j] == w.colors[j]);
        assert(w.positions[j] == first[j].0);
        assert(w.colors[j] == first[j].1);
        assert(first[j] == ps[j]);
    }
}

/// The stateful accumulator: pre-allocated position and color buffers plus
/// the group counters, mutated only by submissions and group closes.
#[verifier::reject_recursive_types(C)]
pub struct VertexAccumulator<C> {
    wrapping: bool,
    capacity: usize,
    positions: Vec<Vec2>,
    colors: Vec<C>,
    total_count: usize,
    closed_groups: Vec<usize>,
    open_group_length: usize,
}

impl<C> View for VertexAccumulator<C> {
    type V = AccView<C>;

    closed spec fn view(&self) -> AccView<C> {
        AccView {
            wrapping: self.wrapping,
            capacity: self.capacity as nat,
            positions: self.positions@,
            colors: self.colors@,
            total: self.total_count as nat,
            closed: self.closed_groups@.map_values(|g: usize| g as nat),
            open: self.open_group_length as nat,
        }
    }
}

impl<C: Copy> VertexAccumulator<C> {
    /// Creates an accumulator of the given fixed capacity and capacity
    /// policy, both buffers pre-filled with the given initial values.
    pub fn new(capacity: usize, wrapping: bool, fill_position: Vec2, fill_color: C) -> (acc: Self)
        requires
            wrapping ==> capacity >= 1,
        ensures
            acc@.wf(),
            acc@.wrapping == wrapping,
            acc@.capacity == capacity,
            acc@.total == 0,
            acc@.open == 0,
            acc@.closed == Seq::<nat>::empty(),
            forall|i: int| 0 <= i < capacity ==> acc@.positions[i] == fill_position,
            forall|i: int| 0 <= i < capacity ==> acc@.colors[i] == fill_color,
    {
        let mut positions: Vec<Vec2> = Vec::new();
        let mut colors: Vec<C> = Vec::new();
        let mut i: usize = 0;
        while i < capacity
            invariant
                i <= capacity,
                positions@.len() == i,
                colors@.len() == i,
                forall|j: int| 0 <= j < i ==> positions@[j] == fill_position,
                forall|j: int| 0 <= j < i ==> colors@[j] == fill_color,
            decreases capacity - i,
        {
            positions.push(fill_position);
            colors.push(fill_color);
            i = i + 1;
        }
        let acc = VertexAccumulator {
            wrapping,
            capacity,
            positions,
            colors,
            total_count: 0,
            closed_groups: Vec::new(),
            open_group_length: 0,
        };
        proof {
            assert(acc@.closed =~= Seq::<nat>::empty());
        }
        acc
    }
}

impl<C> VertexAccumulator<C> {
    /// Submits one point. Accepted, it returns the slot the point was
    /// written to and lengthens the in-progress group; rejected — the
    /// non-wrapping accumulator is full — it returns nothing and is a
    /// silent no-op, by design.
    pub fn submit(&mut self, position: Vec2, color: C) -> (off: Option<usize>)
        requires
            old(self)@.wf(),
            old(self)@.total < usize::MAX,
        ensures
            final(self)@ == old(self)@.submit_with(position, color),
            final(self)@.wf(),
            off == if old(self)@.accepts() {
                Some(old(self)@.slot() as usize)
            } else {
                None::<usize>
            },
    {
        proof {
            lemma_submit_wf(old(self)@, position, color);
        }
        if !self.wrapping && self.total_count == self.capacity {
            return None;
        }
        let slot: usize = if self.total_count < self.capacity {
            self.total_count
        } else {
            self.total_count % self.capacity
        };
        self.positions.set(slot, position);
        self.colors.set(slot, color);
        self.total_count = self.total_count + 1;
        proof {
            assert(group_sum(old(self)@.closed) >= 0) by {
                lemma_prefix_sum_mono(old(self)@.closed, 0, old(self)@.closed.len() as int);
            }
        }
        self.open_group_length = self.open_group_length + 1;
        proof {
            assert(self@ =~= old(self)@.submit_with(position, color));
        }
        Some(slot)
    }

    /// Closes the in-progress group: appends its length to the closed list
    /// and restarts the open count. Safe to call with an empty open group;
    /// that records a zero-length group, which draws nothing.
    pub fn close_group(&mut self)
        requires
            old(self)@.wf(),
        ensures
            final(self)@ == old(self)@.close(),
            final(self)@.wf(),
    {
        let ghost before = self@;
        self.closed_groups.push(self.open_group_length);
        self.open_group_length = 0;
        proof {
            assert(self@.closed =~= before.closed.push(before.open));
            assert(self@ =~= before.close());
            lemma_prefix_sum_agree(self@.closed, before.closed, before.closed.len() as int);
        }
    }

    /// How many leading buffer slots hold live data: the total submitted,
    /// clamped to capacity once the buffer has wrapped.
    pub fn draw_count(&self) -> (n: usize)
        ensures
            n as nat == self@.draw_limit(),
    {
        if self.total_count <= self.capacity {
            self.total_count
        } else {
            self.capacity
        }
    }

    /// The current draw plan: one polygon-fan entry per closed group, laid
    /// out consecutively from offset zero in completion order, then one
    /// trailing entry for the in-progress group whose kind is derived from
    /// its current length. Recomputed on every call, never cached.
    pub fn current_draw_plan(&self) -> (plan: Vec<DrawEntry>)
        requires
            self@.wf(),
        ensures
            plan@.len() == self@.closed.len() + 1,
            forall|i: int|
                0 <= i < self@.closed.len() ==> (#[trigger] plan@[i]).kind
                    == PrimitiveKind::PolygonFan && plan@[i].first as int == prefix_sum(
                    self@.closed,
                    i,
                ) && plan@[i].count as int == self@.closed[i],
            plan@[plan@.len() - 1].kind == kind_for(self@.open as int),
            plan@[plan@.len() - 1].first as int == group_sum(self@.closed),
            plan@[plan@.len() - 1].count as nat == self@.open,
    {
        let mut plan: Vec<DrawEntry> = Vec::new();
        let mut start: usize = 0;
        let mut i: usize = 0;
        let n = self.closed_groups.len();
        while i < n
            invariant
                self@.wf(),
                n == self@.closed.len(),
                i <= n,
                plan@.len() == i,
                start as int == prefix_sum(self@.closed, i as int),
                forall|j: int|
                    0 <= j < i ==> (#[trigger] plan@[j]).kind == PrimitiveKind::PolygonFan
                        && plan@[j].first as int == prefix_sum(self@.closed, j) && plan@[j].count
                        as int == self@.closed[j],
            decreases n - i,
        {
            let count = self.closed_groups[i];
            proof {
                lemma_prefix_sum_mono(self@.closed, i + 1, self@.closed.len() as int);
            }
            plan.push(DrawEntry { kind: PrimitiveKind::PolygonFan, first: start, count });
            start = start + count;
            i = i + 1;
        }
        let trailing = DrawEntry {
            kind: primitive_for(self.open_group_length),
            first: start,
            count: self.open_group_length,
        };
        plan.push(trailing);
        plan
    }

    /// The fixed capacity chosen at construction.
    pub fn capacity(&self) -> (n: usize)
        ensures
            n as nat == self@.capacity,
    {
        self.capacity
    }

    /// Whether this accumulator overwrites the oldest slots once full.
    pub fn wrapping(&self) -> (w: bool)
        ensures
            w == self@.wrapping,
    {
        self.wrapping
    }

    /// Number of vertices ever submitted and accepted.
    pub fn total_count(&self) -> (n: usize)
        ensures
            n as nat == self@.total,
    {
        self.total_count
    }

    /// Vertex count of the in-progress group.
    pub fn open_group_length(&self) -> (n: usize)
        ensures
            n as nat == self@.open,
    {
        self.open_group_length
    }

    /// The lengths of the completed groups, in completion order.
    pub fn closed_groups(&self) -> (groups: &Vec<usize>)
        ensures
            groups@.len() == self@.closed.len(),
            forall|i: int| 0 <= i < groups@.len() ==> groups@[i] as nat == self@.closed[i],
    {
        &self.closed_groups
    }

    /// The position buffer.
    pub fn positions(&self) -> (buf: &Vec<Vec2>)
        ensures
            buf@ == self@.positions,
    {
        &self.positions
    }

    /// The color buffer.
    pub fn colors(&self) -> (buf: &Vec<C>)
        ensures
            buf@ == self@.colors,
    {
        &self.colors
    }
}

impl VertexAccumulator<Vec3> {
    /// Submits one point with its color given as a `#rrggbb` string, as the
    /// polygon editor's pointer handler receives it. A malformed color
    /// drops the submission entirely: the position is not written either
    /// and no counter moves — submission is all-or-nothing.
    pub fn submit_hex(&mut self, position: Vec2, hex: &str) -> (off: Option<usize>)
        requires
            old(self)@.wf(),
            old(self)@.total < usize::MAX,
        ensures
            final(self)@.wf(),
            is_hex_color(hex@) ==> final(self)@ == old(self)@.submit_with(
                position,
                hex_color(hex@),
            ) && off == if old(self)@.accepts() {
                Some(old(self)@.slot() as usize)
            } else {
                None::<usize>
            },
            !is_hex_color(hex@) ==> final(self)@ == old(self)@ && off == None::<usize>,
    {
        match hex_to_rgb(hex) {
            Some(color) => self.submit(position, color),
            None => None,
        }
    }
}

} // verus!
