//! Render phases: per-view queues of draw candidates that are sorted once per
//! frame and then emitted into a pass with redundant rebinds elided.
use crate::bind_group::BindGroupId;
use crate::clear::Operations;
use vstd::prelude::*;

verus! {

/// The direction in which a phase type orders its items by sort key.
#[derive(Clone, Copy, Debug, PartialEq, Eq, Structural)]
pub enum SortOrder {
    /// Smallest key first (front to back).
    Ascending,
    /// Largest key first (back to front).
    Descending,
}

/// The draw strategy chosen for an item when it was queued.
#[derive(Clone, Copy, Debug, PartialEq, Eq, Structural)]
pub enum DrawFunction {
    Opaque,
    Batched,
    Instanced,
}

/// One candidate draw of a frame.
#[derive(Clone, Copy, Debug, PartialEq, Eq, Structural)]
pub struct PhaseItem {
    /// The drawable whose render data the draw reads.
    pub entity: u32,
    pub sort_key: u64,
    pub pipeline: u64,
    pub bind_group: BindGroupId,
    pub draw_function: DrawFunction,
}

/// A sub-rectangle of the render target, in pixels.
#[derive(Clone, Copy, Debug, PartialEq, Eq, Structural)]
pub struct Viewport {
    pub x: u32,
    pub y: u32,
    pub width: u32,
    pub height: u32,
}

/// The name a pass is opened under.
#[derive(Clone, Copy, Debug, PartialEq, Eq, Structural)]
pub enum PassLabel {
    MainPass2d,
    ResetViewportPass2d,
}

/// One operation recorded on the command-encoding surface.
#[derive(Clone, Copy, Debug, PartialEq, Eq, Structural)]
pub enum RenderCommand {
    /// Opens a pass with one color attachment on the target and no depth or
    /// stencil attachment.
    BeginPass { label: PassLabel, target: u32, ops: Operations },
    SetViewport(Viewport),
    SetPipeline(u64),
    SetBindGroup(BindGroupId),
    Draw { entity: u32, function: DrawFunction },
    EndPass,
}

/// The ways emission can be refused.
#[derive(Clone, Copy, Debug, PartialEq, Eq, Structural)]
pub enum PhaseError {
    /// The phase was changed after its last sort, or never sorted.
    NotSorted,
}

/// Whether key `a` comes strictly before key `b` under `order`.
pub open spec fn precedes(order: SortOrder, a: u64, b: u64) -> bool {
    match order {
        SortOrder::Ascending => a < b,
        SortOrder::Descending => a > b,
    }
}

/// Where a stable insertion puts `x` into the ordered `s`: after every item
/// that `x` does not strictly precede.
pub open spec fn insert_pos(s: Seq<PhaseItem>, x: PhaseItem, order: SortOrder) -> nat
    decreases s.len(),
{
    if s.len() == 0 {
        0
    } else if precedes(order, x.sort_key, s.last().sort_key) {
        insert_pos(s.drop_last(), x, order)
    } else {
        s.len()
    }
}

pub open spec fn insert_sorted(s: Seq<PhaseItem>, x: PhaseItem, order: SortOrder) -> Seq<PhaseItem> {
    s.insert(insert_pos(s, x, order) as int, x)
}

/// The stable sort of `s` by sort key under `order`.
pub open spec fn sorted_items(s: Seq<PhaseItem>, order: SortOrder) -> Seq<PhaseItem>
    decreases s.len(),
{
    if s.len() == 0 {
        s
    } else {
        insert_sorted(sorted_items(s.drop_last(), order), s.last(), order)
    }
}

/// No item is strictly preceded by a later one.
pub open spec fn is_ordered(s: Seq<PhaseItem>, order: SortOrder) -> bool {
    forall|i: int, j: int|
        0 <= i < j < s.len() ==> !precedes(order, #[trigger] s[j].sort_key, #[trigger] s[i].sort_key)
}

/// The items of `s` whose sort key is `k`, in their order in `s`.
pub open spec fn with_key(s: Seq<PhaseItem>, k: u64) -> Seq<PhaseItem> {
    s.filter(|x: PhaseItem| x.sort_key == k)
}

/// The last item among the first `n` of `items` whose render data exists.
pub open spec fn prev_drawn(items: Seq<PhaseItem>, live: Seq<u32>, n: int) -> Option<PhaseItem>
    decreases n,
{
    if n <= 0 {
        None
    } else if live.contains(items[n - 1].entity) {
        Some(items[n - 1])
    } else {
        prev_drawn(items, live, n - 1)
    }
}

/// The commands that draw `item` after `prev` was drawn: the pipeline and the
/// bind group are bound only where they differ from those of `prev`.
pub open spec fn commands_for(item: PhaseItem, prev: Option<PhaseItem>) -> Seq<RenderCommand> {
    let pipe: Seq<RenderCommand> = match prev {
        Some(p) if p.pipeline == item.pipeline => seq![],
        _ => seq![RenderCommand::SetPipeline(item.pipeline)],
    };
    let group: Seq<RenderCommand> = match prev {
        Some(p) if p.bind_group == item.bind_group => seq![],
        _ => seq![RenderCommand::SetBindGroup(item.bind_group)],
    };
    pipe + group + seq![RenderCommand::Draw { entity: item.entity, function: item.draw_function }]
}

/// The commands that emitting the first `n` of `items` records, skipping
/// items whose render data is gone.
pub open spec fn emitted(items: Seq<PhaseItem>, live: Seq<u32>, n: int) -> Seq<RenderCommand>
    decreases n,
{
    if n <= 0 {
        seq![]
    } else if live.contains(items[n - 1].entity) {
        emitted(items, live, n - 1) + commands_for(items[n - 1], prev_drawn(items, live, n - 1))
    } else {
        emitted(items, live, n - 1)
    }
}

/// Whether key `a` comes strictly before key `b` under `order`.
pub(crate) fn key_precedes(order: SortOrder, a: u64, b: u64) -> (r: bool)
    ensures
        r == precedes(order, a, b),
{
    match order {
        SortOrder::Ascending => a < b,
        SortOrder::Descending => a > b,
    }
}

/// Whether `e` occurs in `v`.
pub(crate) fn contains(v: &Vec<u32>, e: u32) -> (r: bool)
    ensures
        r == v@.contains(e),
{
    let mut i: usize = 0;
    while i < v.len()
        invariant
            i <= v@.len(),
            forall|k: int| 0 <= k < i ==> v@[k] != e,
        decreases v@.len() - i,
    {
        if v[i] == e {
            return true;
        }
        i = i + 1;
    }
    false
}

proof fn lemma_insert_pos(s: Seq<PhaseItem>, x: PhaseItem, order: SortOrder)
    ensures
        insert_pos(s, x, order) <= s.len(),
        forall|k: int|
            insert_pos(s, x, order) <= k < s.len() ==> precedes(order, x.sort_key, #[trigger] s[k].sort_key),
        insert_pos(s, x, order) > 0 ==> !precedes(order, x.sort_key, s[insert_pos(s, x, order) - 1].sort_key),
    decreases s.len(),
{
    if s.len() > 0 && precedes(order, x.sort_key, s.last().sort_key) {
        let init = s.drop_last();
        lemma_insert_pos(init, x, order);
        let p = insert_pos(s, x, order) as int;
        assert forall|k: int| p <= k < s.len() implies precedes(order, x.sort_key, #[trigger] s[k].sort_key) by {
            if k < s.len() - 1 {
                assert(init[k] == s[k]);
            }
        }
    }
}

proof fn lemma_insert_sorted_ordered(s: Seq<PhaseItem>, x: PhaseItem, order: SortOrder)
    requires
        is_ordered(s, order),
    ensures
        is_ordered(insert_sorted(s, x, order), order),
{
    lemma_insert_pos(s, x, order);
    let p = insert_pos(s, x, order) as int;
    let r = insert_sorted(s, x, order);
    assert forall|i: int, j: int| 0 <= i < j < r.len() implies !precedes(
        order,
        #[trigger] r[j].sort_key,
        #[trigger] r[i].sort_key,
    ) by {
        if i < p && j == p {
            if i < p - 1 {
                assert(!precedes(order, s[p - 1].sort_key, s[i].sort_key));
            }
            assert(!precedes(order, x.sort_key, s[p - 1].sort_key));
        } else if i == p && j > p {
            assert(precedes(order, x.sort_key, s[j - 1].sort_key));
        } else if i < p && j > p {
            assert(!precedes(order, s[j - 1].sort_key, s[i].sort_key));
        } else if i > p {
            assert(!precedes(order, s[j - 1].sort_key, s[i - 1].sort_key));
        } else {
            assert(!precedes(order, s[j].sort_key, s[i].sort_key));
        }
    }
}

proof fn lemma_insert_sorted_multiset(s: Seq<PhaseItem>, x: PhaseItem, order: SortOrder)
    ensures
        insert_sorted(s, x, order).to_multiset() == s.to_multiset().insert(x),
{
    broadcast use vstd::seq_lib::group_seq_properties;
    broadcast use vstd::multiset::group_multiset_axioms;

    lemma_insert_pos(s, x, order);
    let p = insert_pos(s, x, order) as int;
    let r = insert_sorted(s, x, order);
    assert(r.remove(p) =~= s);
    assert(r.contains(x)) by {
        assert(r[p] == x);
    }
    assert(r.to_multiset() =~= s.to_multiset().insert(x));
}

/// What keeping only the items of key `k` does to a one-item sequence.
proof fn lemma_with_key_single(x: PhaseItem, k: u64)
    ensures
        with_key(seq![x], k) == if x.sort_key == k {
            seq![x]
        } else {
            seq![]
        },
{
    reveal_with_fuel(Seq::filter, 2);
    assert(seq![x].drop_last() =~= Seq::<PhaseItem>::empty());
    if x.sort_key == k {
        assert(with_key(seq![x], k) =~= seq![x]);
    } else {
        assert(with_key(seq![x], k) =~= seq![]);
    }
}

proof fn lemma_insert_sorted_with_key(s: Seq<PhaseItem>, x: PhaseItem, order: SortOrder, k: u64)
    ensures
        with_key(insert_sorted(s, x, order), k) == if x.sort_key == k {
            with_key(s, k).push(x)
        } else {
            with_key(s, k)
        },
{
    lemma_insert_pos(s, x, order);
    let p = insert_pos(s, x, order) as int;
    let r = insert_sorted(s, x, order);
    let head = s.take(p);
    let tail = s.skip(p);
    assert(s =~= head + tail);
    assert(r =~= head + seq![x] + tail);
    let f = |y: PhaseItem| y.sort_key == k;
    Seq::filter_distributes_over_add(head, tail, f);
    Seq::filter_distributes_over_add(head + seq![x], tail, f);
    Seq::filter_distributes_over_add(head, seq![x], f);
    lemma_with_key_single(x, k);
    if x.sort_key == k {
        assert forall|t: int| 0 <= t < tail.len() implies !f(#[trigger] tail[t]) by {
            assert(tail[t] == s[p + t]);
            assert(precedes(order, x.sort_key, s[p + t].sort_key));
        }
        tail.lemma_all_neg_filter_empty(f);
        assert(with_key(r, k) =~= with_key(s, k).push(x));
    } else {
        assert(with_key(r, k) =~= with_key(s, k));
    }
}

/// Sorting orders a phase's items by key in the direction of its phase type,
/// keeps every item, and keeps items of equal key in the order they were
/// inserted in.
pub proof fn lemma_sort_is_stable_and_ordered(s: Seq<PhaseItem>, order: SortOrder)
    ensures
        is_ordered(sorted_items(s, order), order),
        sorted_items(s, order).to_multiset() == s.to_multiset(),
        forall|k: u64| #[trigger] with_key(sorted_items(s, order), k) == with_key(s, k),
    decreases s.len(),
{
    broadcast use vstd::seq_lib::group_seq_properties;

    if s.len() > 0 {
        let init = s.drop_last();
        lemma_sort_is_stable_and_ordered(init, order);
        lemma_insert_sorted_ordered(sorted_items(init, order), s.last(), order);
        lemma_insert_sorted_multiset(sorted_items(init, order), s.last(), order);
        assert(s =~= init.push(s.last()));
        assert forall|k: u64| #[trigger] with_key(sorted_items(s, order), k) == with_key(s, k) by {
            let f = |y: PhaseItem| y.sort_key == k;
            lemma_insert_sorted_with_key(sorted_items(init, order), s.last(), order, k);
            Seq::filter_distributes_over_add(init, seq![s.last()], f);
            lemma_with_key_single(s.last(), k);
            assert(init + seq![s.last()] =~= s);
            if s.last().sort_key == k {
                assert(with_key(s, k) =~= with_key(init, k).push(s.last()));
            } else {
                assert(with_key(s, k) =~= with_key(init, k));
            }
        }
    }
}

/// Sorting a sequence that is already in order changes nothing.
pub proof fn lemma_sort_of_ordered(s: Seq<PhaseItem>, order: SortOrder)
    requires
        is_ordered(s, order),
    ensures
        sorted_items(s, order) == s,
    decreases s.len(),
{
    if s.len() > 0 {
        let init = s.drop_last();
        assert(is_ordered(init, order)) by {
            assert forall|i: int, j: int| 0 <= i < j < init.len() implies !precedes(
                order,
                #[trigger] init[j].sort_key,
                #[trigger] init[i].sort_key,
            ) by {
                assert(init[j] == s[j] && init[i] == s[i]);
            }
        }
        lemma_sort_of_ordered(init, order);
        if init.len() > 0 {
            assert(!precedes(order, s[s.len() - 1].sort_key, s[s.len() - 2].sort_key));
        }
        assert(init.insert(init.len() as int, s.last()) =~= s);
    }
}

/// Sorting again, with nothing inserted in between, changes nothing.
pub proof fn lemma_sort_idempotent(s: Seq<PhaseItem>, order: SortOrder)
    ensures
        sorted_items(sorted_items(s, order), order) == sorted_items(s, order),
{
    lemma_sort_is_stable_and_ordered(s, order);
    lemma_sort_of_ordered(sorted_items(s, order), order);
}

/// Two adjacent drawn items with the same pipeline and bind group are bound
/// once: the second records its draw and nothing else.
pub proof fn lemma_adjacent_items_bind_once(items: Seq<PhaseItem>, live: Seq<u32>, i: int)
    requires
        1 <= i < items.len(),
        live.contains(items[i - 1].entity),
        live.contains(items[i].entity),
        items[i - 1].pipeline == items[i].pipeline,
        items[i - 1].bind_group == items[i].bind_group,
    ensures
        emitted(items, live, i + 1) == emitted(items, live, i) + seq![
            RenderCommand::Draw { entity: items[i].entity, function: items[i].draw_function },
        ],
{
    assert(prev_drawn(items, live, i) == Some(items[i - 1]));
    assert(commands_for(items[i], Some(items[i - 1])) =~= seq![
        RenderCommand::Draw { entity: items[i].entity, function: items[i].draw_function },
    ]);
}

/// What emission records for the first `m` items stays at the front of what
/// it records for more of them.
pub proof fn lemma_emitted_prefix(items: Seq<PhaseItem>, live: Seq<u32>, m: int, n: int)
    requires
        0 <= m <= n,
    ensures
        emitted(items, live, m).len() <= emitted(items, live, n).len(),
        emitted(items, live, n).take(emitted(items, live, m).len() as int) == emitted(items, live, m),
    decreases n - m,
{
    if m < n {
        lemma_emitted_prefix(items, live, m, n - 1);
        let a = emitted(items, live, m);
        let b = emitted(items, live, n - 1);
        let c = emitted(items, live, n);
        assert(c.take(b.len() as int) =~= b);
        assert(c.take(a.len() as int) =~= b.take(a.len() as int));
    } else {
        assert(emitted(items, live, n).take(emitted(items, live, n).len() as int) =~= emitted(items, live, n));
    }
}

/// The entities of the draws among `cmds`, in order.
pub open spec fn draw_entities(cmds: Seq<RenderCommand>) -> Seq<u32>
    decreases cmds.len(),
{
    if cmds.len() == 0 {
        seq![]
    } else {
        match cmds.last() {
            RenderCommand::Draw { entity, .. } => draw_entities(cmds.drop_last()).push(entity),
            _ => draw_entities(cmds.drop_last()),
        }
    }
}

/// The items among the first `n` of `items` whose render data exists.
pub open spec fn drawn(items: Seq<PhaseItem>, live: Seq<u32>, n: int) -> Seq<PhaseItem>
    decreases n,
{
    if n <= 0 {
        seq![]
    } else if live.contains(items[n - 1].entity) {
        drawn(items, live, n - 1).push(items[n - 1])
    } else {
        drawn(items, live, n - 1)
    }
}

pub proof fn lemma_draw_entities_concat(a: Seq<RenderCommand>, b: Seq<RenderCommand>)
    ensures
        draw_entities(a + b) == draw_entities(a) + draw_entities(b),
    decreases b.len(),
{
    if b.len() == 0 {
        assert(a + b =~= a);
        assert(draw_entities(a) + draw_entities(b) =~= draw_entities(a));
    } else {
        lemma_draw_entities_concat(a, b.drop_last());
        assert((a + b).drop_last() =~= a + b.drop_last());
        assert((a + b).last() == b.last());
        match b.last() {
            RenderCommand::Draw { entity, .. } => {
                assert(draw_entities(a) + draw_entities(b) =~= (draw_entities(a) + draw_entities(
                    b.drop_last(),
                )).push(entity));
            },
            _ => {},
        }
    }
}

/// Commands other than draws contribute no drawn entity.
pub proof fn lemma_no_draws(cmds: Seq<RenderCommand>)
    requires
        forall|i: int| 0 <= i < cmds.len() ==> !(#[trigger] cmds[i] is Draw),
    ensures
        draw_entities(cmds) == Seq::<u32>::empty(),
    decreases cmds.len(),
{
    if cmds.len() > 0 {
        assert(!(cmds[cmds.len() - 1] is Draw));
        lemma_no_draws(cmds.drop_last());
    }
}

/// The draws that emission records are those of the items whose render data
/// exists, in the order of the items.
pub proof fn lemma_emitted_draws(items: Seq<PhaseItem>, live: Seq<u32>, n: int)
    requires
        n <= items.len(),
    ensures
        draw_entities(emitted(items, live, n)) == drawn(items, live, n).map_values(|x: PhaseItem| x.entity),
    decreases n,
{
    if n > 0 {
        lemma_emitted_draws(items, live, n - 1);
        if live.contains(items[n - 1].entity) {
            let item = items[n - 1];
            let c = commands_for(item, prev_drawn(items, live, n - 1));
            let draw = seq![RenderCommand::Draw { entity: item.entity, function: item.draw_function }];
            let binds = c.take(c.len() - 1);
            assert(c =~= binds + draw);
            lemma_no_draws(binds);
            lemma_draw_entities_concat(binds, draw);
            assert(draw.drop_last() =~= Seq::<RenderCommand>::empty());
            assert(draw_entities(draw) =~= seq![item.entity]);
            lemma_draw_entities_concat(emitted(items, live, n - 1), c);
            assert(drawn(items, live, n).map_values(|x: PhaseItem| x.entity) =~= drawn(items, live, n - 1).map_values(
                |x: PhaseItem| x.entity,
            ).push(item.entity));
        }
    }
}

proof fn lemma_drawn_from_prefix(items: Seq<PhaseItem>, live: Seq<u32>, n: int)
    requires
        n <= items.len(),
    ensures
        forall|a: int|
            0 <= a < drawn(items, live, n).len() ==> exists|k: int|
                0 <= k < n && #[trigger] drawn(items, live, n)[a] == items[k],
    decreases n,
{
    if n > 0 {
        lemma_drawn_from_prefix(items, live, n - 1);
        let d = drawn(items, live, n);
        assert forall|a: int| 0 <= a < d.len() implies exists|k: int| 0 <= k < n && #[trigger] d[a] == items[k] by {
            if a < drawn(items, live, n - 1).len() {
                assert(d[a] == drawn(items, live, n - 1)[a]);
                let k = choose|k: int| 0 <= k < n - 1 && drawn(items, live, n - 1)[a] == items[k];
                assert(d[a] == items[k]);
            } else {
                assert(d[a] == items[n - 1]);
            }
        }
    }
}

/// The items drawn from an ordered sequence are themselves in order.
pub proof fn lemma_drawn_ordered(items: Seq<PhaseItem>, live: Seq<u32>, n: int, order: SortOrder)
    requires
        n <= items.len(),
        is_ordered(items, order),
    ensures
        is_ordered(drawn(items, live, n), order),
    decreases n,
{
    if n > 0 {
        lemma_drawn_ordered(items, live, n - 1, order);
        lemma_drawn_from_prefix(items, live, n - 1);
        let p = drawn(items, live, n - 1);
        let d = drawn(items, live, n);
        if live.contains(items[n - 1].entity) {
            assert forall|i: int, j: int| 0 <= i < j < d.len() implies !precedes(
                order,
                #[trigger] d[j].sort_key,
                #[trigger] d[i].sort_key,
            ) by {
                if j < p.len() {
                    assert(d[j] == p[j] && d[i] == p[i]);
                } else {
                    let k = choose|k: int| 0 <= k < n - 1 && p[i] == items[k];
                    assert(d[i] == items[k]);
                    assert(!precedes(order, items[n - 1].sort_key, items[k].sort_key));
                }
            }
        }
    }
}

/// The draw candidates of one view and phase type for one frame.
pub struct RenderPhase {
    items: Vec<PhaseItem>,
    order: SortOrder,
    sorted: bool,
}

impl RenderPhase {
    /// A phase marked sorted holds its items in order.
    #[verifier::type_invariant]
    spec fn sorted_means_ordered(&self) -> bool {
        self.sorted ==> is_ordered(self.items@, self.order)
    }

    /// The items, in their current order.
    pub closed spec fn spec_items(&self) -> Seq<PhaseItem> {
        self.items@
    }

    /// The ordering policy of the phase type.
    pub closed spec fn spec_order(&self) -> SortOrder {
        self.order
    }

    /// Whether the phase was sorted after its last change.
    pub closed spec fn spec_sorted(&self) -> bool {
        self.sorted
    }

    /// An empty phase with the given ordering policy.
    pub fn new(order: SortOrder) -> (r: RenderPhase)
        ensures
            r.spec_items() == Seq::<PhaseItem>::empty(),
            r.spec_order() == order,
            !r.spec_sorted(),
            r.spec_sorted() ==> is_ordered(r.spec_items(), r.spec_order()),
    {
        RenderPhase { items: Vec::new(), order, sorted: false }
    }

    /// Appends an item; the phase must be sorted again before emission.
    pub fn insert(&mut self, item: PhaseItem)
        ensures
            final(self).spec_items() == old(self).spec_items().push(item),
            final(self).spec_order() == old(self).spec_order(),
            !final(self).spec_sorted(),
            final(self).spec_sorted() ==> is_ordered(final(self).spec_items(), final(self).spec_order()),
    {
        self.sorted = false;
        let mut items: Vec<PhaseItem> = Vec::new();
        std::mem::swap(&mut self.items, &mut items);
        items.push(item);
        std::mem::swap(&mut self.items, &mut items);
    }

    /// Removes every item, keeping the allocation for the next frame.
    pub fn clear(&mut self)
        ensures
            final(self).spec_items() == Seq::<PhaseItem>::empty(),
            final(self).spec_order() == old(self).spec_order(),
            !final(self).spec_sorted(),
            final(self).spec_sorted() ==> is_ordered(final(self).spec_items(), final(self).spec_order()),
    {
        self.sorted = false;
        let mut items: Vec<PhaseItem> = Vec::new();
        std::mem::swap(&mut self.items, &mut items);
        items.clear();
        std::mem::swap(&mut self.items, &mut items);
    }

    pub fn len(&self) -> (r: usize)
        ensures
            r == self.spec_items().len(),
    {
        self.items.len()
    }

    pub fn order(&self) -> (r: SortOrder)
        ensures
            r == self.spec_order(),
    {
        self.order
    }

    /// Whether the phase was sorted after its last change; a sorted phase
    /// holds its items in the order of its phase type.
    pub fn is_sorted(&self) -> (r: bool)
        ensures
            r == self.spec_sorted(),
            r ==> is_ordered(self.spec_items(), self.spec_order()),
    {
        proof {
            use_type_invariant(self);
        }
        self.sorted
    }

    /// Stable sort by sort key in the direction of the phase type.
    pub fn sort(&mut self)
        ensures
            final(self).spec_items() == sorted_items(old(self).spec_items(), old(self).spec_order()),
            final(self).spec_order() == old(self).spec_order(),
            final(self).spec_sorted(),
            is_ordered(final(self).spec_items(), final(self).spec_order()),
            final(self).spec_items().to_multiset() == old(self).spec_items().to_multiset(),
            forall|k: u64| #[trigger] with_key(final(self).spec_items(), k) == with_key(old(self).spec_items(), k),
    {
        proof {
            lemma_sort_is_stable_and_ordered(self.items@, self.order);
        }
        let order = self.order;
        let n = self.items.len();
        let mut out: Vec<PhaseItem> = Vec::new();
        let mut i: usize = 0;
        while i < n
            invariant
                i <= n,
                n == self.items@.len(),
                order == self.order,
                out@ == sorted_items(self.items@.take(i as int), order),
            decreases n - i,
        {
            let x = self.items[i];
            let mut j: usize = out.len();
            proof {
                assert(out@.take(j as int) =~= out@);
            }
            while j > 0 && key_precedes(order, x.sort_key, out[j - 1].sort_key)
                invariant
                    j <= out@.len(),
                    insert_pos(out@.take(j as int), x, order) == insert_pos(out@, x, order),
                decreases j,
            {
                proof {
                    assert(out@.take(j as int).drop_last() =~= out@.take(j - 1));
                }
                j = j - 1;
            }
            proof {
                assert(self.items@.take(i + 1).drop_last() =~= self.items@.take(i as int));
            }
            out.insert(j, x);
            i = i + 1;
        }
        proof {
            assert(self.items@.take(n as int) =~= self.items@);
        }
        self.sorted = false;
        self.items = out;
        self.sorted = true;
    }

    /// Records the draws of the sorted phase into `out`, skipping items whose
    /// entity has no render data in `live`, and binding a pipeline or bind
    /// group only where it differs from that of the item drawn before.
    pub fn emit(&self, live: &Vec<u32>, out: &mut Vec<RenderCommand>) -> (r: Result<(), PhaseError>)
        ensures
            self.spec_sorted() ==> r is Ok && final(out)@ == old(out)@ + emitted(
                self.spec_items(),
                live@,
                self.spec_items().len() as int,
            ),
            !self.spec_sorted() ==> r == Err::<(), PhaseError>(PhaseError::NotSorted) && final(out)@
                == old(out)@,
    {
        if !self.sorted {
            return Err(PhaseError::NotSorted);
        }
        let ghost start = out@;
        let mut prev: Option<PhaseItem> = None;
        let mut i: usize = 0;
        while i < self.items.len()
            invariant
                i <= self.items@.len(),
                prev == prev_drawn(self.items@, live@, i as int),
                out@ == start + emitted(self.items@, live@, i as int),
            decreases self.items@.len() - i,
        {
            let item = self.items[i];
            if contains(live, item.entity) {
                let same_pipeline = match prev {
                    Some(p) => p.pipeline == item.pipeline,
                    None => false,
                };
                let same_group = match prev {
                    Some(p) => p.bind_group == item.bind_group,
                    None => false,
                };
                if !same_pipeline {
                    out.push(RenderCommand::SetPipeline(item.pipeline));
                }
                if !same_group {
                    out.push(RenderCommand::SetBindGroup(item.bind_group));
                }
                out.push(RenderCommand::Draw { entity: item.entity, function: item.draw_function });
                proof {
                    let c = commands_for(item, prev);
                    assert(out@ =~= start + emitted(self.items@, live@, i as int) + c);
                }
                prev = Some(item);
            }
            i = i + 1;
        }
        Ok(())
    }

    /// The item at `i` in the current order.
    pub fn get(&self, i: usize) -> (r: PhaseItem)
        requires
            i < self.spec_items().len(),
        ensures
            r == self.spec_items()[i as int],
    {
        self.items[i]
    }
}

} // verus!
