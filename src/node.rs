//! The main 2d pass node of the render graph: it reads its view from an input
//! slot, finds the view's render data and records one render pass.
use crate::clear::{load_op_of, resolve_load_op, ClearColor, ClearColorConfig, Color, LoadOp, Operations};
use crate::phase::{
    commands_for, lemma_sort_idempotent, prev_drawn, sorted_items,
    draw_entities, drawn, emitted, is_ordered, lemma_draw_entities_concat, lemma_drawn_ordered,
    lemma_adjacent_items_bind_once, lemma_emitted_draws, lemma_emitted_prefix, lemma_no_draws, PassLabel, PhaseError, PhaseItem, RenderCommand, RenderPhase,
    Viewport,
};
use vstd::prelude::*;

verus! {

/// The type of value a slot carries.
#[derive(Clone, Copy, Debug, PartialEq, Eq, Structural)]
pub enum SlotType {
    Entity,
    Buffer,
    TextureView,
    Sampler,
}

/// A value bound to a slot by the graph driver.
#[derive(Clone, Copy, Debug, PartialEq, Eq, Structural)]
pub enum SlotValue {
    Entity(u32),
    Buffer(u64),
    TextureView(u64),
    Sampler(u64),
}

pub open spec fn type_of(v: SlotValue) -> SlotType {
    match v {
        SlotValue::Entity(_) => SlotType::Entity,
        SlotValue::Buffer(_) => SlotType::Buffer,
        SlotValue::TextureView(_) => SlotType::TextureView,
        SlotValue::Sampler(_) => SlotType::Sampler,
    }
}

/// A named, typed input that a node declares.
#[derive(Clone, Copy, Debug)]
pub struct SlotInfo {
    pub name: &'static str,
    pub slot_type: SlotType,
}

impl SlotInfo {
    pub fn new(name: &'static str, slot_type: SlotType) -> (r: SlotInfo)
        ensures
            r.name == name,
            r.slot_type == slot_type,
    {
        SlotInfo { name, slot_type }
    }
}

/// Wiring errors in resolving an input slot.
#[derive(Clone, Copy, Debug, PartialEq, Eq, Structural)]
pub enum InputSlotError {
    /// No value was bound to the slot at this index.
    MissingInput(usize),
    /// The bound value has another type than the slot declares.
    MismatchedSlotType { index: usize, expected: SlotType, actual: SlotType },
}

/// Why a node run failed. All are structural errors, for the driver to report.
#[derive(Clone, Copy, Debug, PartialEq, Eq, Structural)]
pub enum NodeRunError {
    InputSlot(InputSlotError),
    /// The view's phase was not sorted after its last change.
    Phase(PhaseError),
}

/// The inputs that the driver bound for one invocation of a node, by slot
/// index.
#[derive(Clone, Debug)]
pub struct RenderGraphContext {
    pub inputs: Vec<Option<SlotValue>>,
}

/// What resolving the entity slot at `index` gives.
pub open spec fn input_entity(inputs: Seq<Option<SlotValue>>, index: int) -> Result<u32, InputSlotError> {
    if index < 0 || index >= inputs.len() || inputs[index] is None {
        Err(InputSlotError::MissingInput(index as usize))
    } else {
        match inputs[index].unwrap() {
            SlotValue::Entity(e) => Ok(e),
            v => Err(
                InputSlotError::MismatchedSlotType {
                    index: index as usize,
                    expected: SlotType::Entity,
                    actual: type_of(v),
                },
            ),
        }
    }
}

impl RenderGraphContext {
    /// Resolves the entity bound to the slot at `index`.
    pub fn get_input_entity(&self, index: usize) -> (r: Result<u32, InputSlotError>)
        ensures
            r == input_entity(self.inputs@, index as int),
    {
        if index >= self.inputs.len() {
            return Err(InputSlotError::MissingInput(index));
        }
        match self.inputs[index] {
            None => Err(InputSlotError::MissingInput(index)),
            Some(SlotValue::Entity(e)) => Ok(e),
            Some(SlotValue::Buffer(_)) => Err(
                InputSlotError::MismatchedSlotType { index, expected: SlotType::Entity, actual: SlotType::Buffer },
            ),
            Some(SlotValue::TextureView(_)) => Err(
                InputSlotError::MismatchedSlotType {
                    index,
                    expected: SlotType::Entity,
                    actual: SlotType::TextureView,
                },
            ),
            Some(SlotValue::Sampler(_)) => Err(
                InputSlotError::MismatchedSlotType { index, expected: SlotType::Entity, actual: SlotType::Sampler },
            ),
        }
    }
}

/// The render data extracted for one 2d view.
pub struct ViewData {
    pub entity: u32,
    /// The sub-rectangle the camera draws into, if it has one.
    pub viewport: Option<Viewport>,
    /// The render target the pass writes to.
    pub target: u32,
    pub clear_color: ClearColorConfig,
    pub transparent_phase: RenderPhase,
}

/// The render world as the node reads it.
pub struct RenderWorld {
    pub clear_color: ClearColor,
    pub views: Vec<ViewData>,
    /// The entities whose render data exists this frame.
    pub live_entities: Vec<u32>,
    /// Whether the backend keeps a custom viewport across passes, so that a
    /// pass with a custom viewport must be followed by one that resets it.
    pub viewport_reset_quirk: bool,
}

/// The command-encoding surface a node records into.
pub struct GpuContext {
    pub commands: Vec<RenderCommand>,
}

impl GpuContext {
    pub fn new() -> (r: GpuContext)
        ensures
            r.commands@ == Seq::<RenderCommand>::empty(),
    {
        GpuContext { commands: Vec::new() }
    }
}

/// The entities of `views`, in order.
pub open spec fn view_entities(views: Seq<ViewData>) -> Seq<u32> {
    views.map_values(|v: ViewData| v.entity)
}

/// The index of the first view of `views` at or after `i` for entity `e`.
pub open spec fn view_index_from(views: Seq<ViewData>, e: u32, i: int) -> Option<int>
    decreases views.len() - i,
{
    if i < 0 || i >= views.len() {
        None
    } else if views[i].entity == e {
        Some(i)
    } else {
        view_index_from(views, e, i + 1)
    }
}

/// The commands that set the viewport, if the camera has one.
pub open spec fn viewport_commands(viewport: Option<Viewport>) -> Seq<RenderCommand> {
    match viewport {
        Some(v) => seq![RenderCommand::SetViewport(v)],
        None => seq![],
    }
}

/// The commands of the main pass of `view`, followed by the pass that resets
/// the viewport where the backend needs it.
pub open spec fn main_pass_commands(
    view: ViewData,
    default_color: Color,
    live: Seq<u32>,
    reset_quirk: bool,
) -> Seq<RenderCommand> {
    let ops = Operations { load: load_op_of(view.clear_color, default_color), store: true };
    let items = view.transparent_phase.spec_items();
    let main = seq![RenderCommand::BeginPass { label: PassLabel::MainPass2d, target: view.target, ops }]
        + viewport_commands(view.viewport) + emitted(items, live, items.len() as int) + seq![
        RenderCommand::EndPass,
    ];
    if reset_quirk && view.viewport is Some {
        main + seq![
            RenderCommand::BeginPass {
                label: PassLabel::ResetViewportPass2d,
                target: view.target,
                ops: Operations { load: LoadOp::Load, store: true },
            },
            RenderCommand::EndPass,
        ]
    } else {
        main
    }
}

/// The draws of a main pass are those of the phase's items whose render data
/// exists, each once and in the phase's order; so when the phase is in order
/// (as a sorted phase is), the draws come in sort-key order, and items of
/// equal key in the order the phase holds them.
pub proof fn lemma_main_pass_draws(view: ViewData, default_color: Color, live: Seq<u32>, reset_quirk: bool)
    ensures
        draw_entities(main_pass_commands(view, default_color, live, reset_quirk)) == drawn(
            view.transparent_phase.spec_items(),
            live,
            view.transparent_phase.spec_items().len() as int,
        ).map_values(|x: PhaseItem| x.entity),
        is_ordered(view.transparent_phase.spec_items(), view.transparent_phase.spec_order()) ==> is_ordered(
            drawn(view.transparent_phase.spec_items(), live, view.transparent_phase.spec_items().len() as int),
            view.transparent_phase.spec_order(),
        ),
{
    let items = view.transparent_phase.spec_items();
    let n = items.len() as int;
    let ops = Operations { load: load_op_of(view.clear_color, default_color), store: true };
    let begin = seq![RenderCommand::BeginPass { label: PassLabel::MainPass2d, target: view.target, ops }];
    let vp = viewport_commands(view.viewport);
    let e = emitted(items, live, n);
    let end = seq![RenderCommand::EndPass];
    let reset = seq![
        RenderCommand::BeginPass {
            label: PassLabel::ResetViewportPass2d,
            target: view.target,
            ops: Operations { load: LoadOp::Load, store: true },
        },
        RenderCommand::EndPass,
    ];
    lemma_no_draws(begin);
    lemma_no_draws(vp);
    lemma_no_draws(end);
    lemma_no_draws(reset);
    lemma_emitted_draws(items, live, n);
    let head = begin + vp;
    lemma_draw_entities_concat(begin, vp);
    lemma_draw_entities_concat(head, e);
    lemma_draw_entities_concat(head + e, end);
    let main = head + e + end;
    lemma_draw_entities_concat(main, reset);
    assert(draw_entities(head) =~= Seq::<u32>::empty());
    assert(draw_entities(main) =~= draw_entities(e));
    assert(draw_entities(main + reset) =~= draw_entities(e));
    if is_ordered(items, view.transparent_phase.spec_order()) {
        lemma_drawn_ordered(items, live, n, view.transparent_phase.spec_order());
    }
}

/// In a main pass, two adjacent items of the phase that both have render data
/// and share pipeline and bind group are drawn back to back: the draw of the
/// second follows that of the first with no bind in between.
pub proof fn lemma_main_pass_no_rebind(
    view: ViewData,
    default_color: Color,
    live: Seq<u32>,
    reset_quirk: bool,
    i: int,
)
    requires
        1 <= i < view.transparent_phase.spec_items().len(),
        live.contains(view.transparent_phase.spec_items()[i - 1].entity),
        live.contains(view.transparent_phase.spec_items()[i].entity),
        view.transparent_phase.spec_items()[i - 1].pipeline == view.transparent_phase.spec_items()[i].pipeline,
        view.transparent_phase.spec_items()[i - 1].bind_group
            == view.transparent_phase.spec_items()[i].bind_group,
    ensures
        ({
            let items = view.transparent_phase.spec_items();
            let cmds = main_pass_commands(view, default_color, live, reset_quirk);
            let at = 1 + viewport_commands(view.viewport).len() + emitted(items, live, i).len();
            &&& at < cmds.len()
            &&& cmds[at - 1] == RenderCommand::Draw {
                entity: items[i - 1].entity,
                function: items[i - 1].draw_function,
            }
            &&& cmds[at as int] == RenderCommand::Draw { entity: items[i].entity, function: items[i].draw_function }
        }),
{
    let items = view.transparent_phase.spec_items();
    let n = items.len() as int;
    let cmds = main_pass_commands(view, default_color, live, reset_quirk);
    let off = 1 + viewport_commands(view.viewport).len();
    let ei = emitted(items, live, i);
    let ej = emitted(items, live, i + 1);
    let en = emitted(items, live, n);
    lemma_adjacent_items_bind_once(items, live, i);
    lemma_emitted_prefix(items, live, i + 1, n);
    let c = commands_for(items[i - 1], prev_drawn(items, live, i - 1));
    assert(ei == emitted(items, live, i - 1) + c);
    assert(ei.last() == c.last());
    assert(ej[ei.len() as int] == en[ei.len() as int]);
    assert(ej[ei.len() - 1] == en[ei.len() - 1]);
    assert(cmds[off + ei.len() - 1] == en[ei.len() - 1]);
    assert(cmds[(off + ei.len()) as int] == en[ei.len() as int]);
}

/// Sorting a phase a second time, with nothing inserted in between, leaves the
/// main pass as it was: same passes, binds and draws in the same order.
pub proof fn lemma_resort_keeps_main_pass(
    once: ViewData,
    twice: ViewData,
    s: Seq<PhaseItem>,
    default_color: Color,
    live: Seq<u32>,
    reset_quirk: bool,
)
    requires
        once.viewport == twice.viewport,
        once.target == twice.target,
        once.clear_color == twice.clear_color,
        once.transparent_phase.spec_items() == sorted_items(s, once.transparent_phase.spec_order()),
        twice.transparent_phase.spec_items() == sorted_items(
            sorted_items(s, once.transparent_phase.spec_order()),
            once.transparent_phase.spec_order(),
        ),
    ensures
        main_pass_commands(once, default_color, live, reset_quirk) == main_pass_commands(
            twice,
            default_color,
            live,
            reset_quirk,
        ),
{
    lemma_sort_idempotent(s, once.transparent_phase.spec_order());
}

/// The main pass opens with the camera's resolved load operation and stores
/// its result. A camera with a custom clear color clears to it, and a camera
/// that does not clear loads the existing contents; in both cases the pass is
/// the same whatever the process-wide clear color is.
pub proof fn lemma_main_pass_clear(view: ViewData, d1: Color, d2: Color, live: Seq<u32>, reset_quirk: bool)
    ensures
        main_pass_commands(view, d1, live, reset_quirk)[0] == (RenderCommand::BeginPass {
            label: PassLabel::MainPass2d,
            target: view.target,
            ops: Operations { load: load_op_of(view.clear_color, d1), store: true },
        }),
        (view.clear_color matches ClearColorConfig::Custom(c) ==> load_op_of(view.clear_color, d1) == LoadOp::Clear(c)),
        view.clear_color == ClearColorConfig::Preserve ==> load_op_of(view.clear_color, d1) == LoadOp::Load,
        view.clear_color != ClearColorConfig::Default ==> main_pass_commands(view, d1, live, reset_quirk)
            == main_pass_commands(view, d2, live, reset_quirk),
{
}

/// The node that draws the transparent 2d phase of a view.
pub struct MainPass2dNode {
    /// The view entities found at the last update.
    views: Vec<u32>,
    /// Whether a custom viewport must be reset by an extra pass.
    reset_viewport: bool,
}

impl MainPass2dNode {
    /// The name of the view input slot.
    pub const IN_VIEW: &'static str = "view";

    /// The view entities cached at the last update.
    pub closed spec fn spec_views(&self) -> Seq<u32> {
        self.views@
    }

    /// Whether the extra pass that resets a custom viewport is recorded.
    pub closed spec fn spec_reset_viewport(&self) -> bool {
        self.reset_viewport
    }

    /// The index in `world.views` of the render data that a run for `e` uses.
    pub open spec fn lookup(&self, world: &RenderWorld, e: u32) -> Option<int> {
        if self.spec_views().contains(e) {
            view_index_from(world.views@, e, 0)
        } else {
            None
        }
    }

    /// A node whose view cache is built from `world`, with the backend's
    /// viewport quirk fixed for its lifetime.
    pub fn new(world: &RenderWorld) -> (r: MainPass2dNode)
        ensures
            r.spec_views() == view_entities(world.views@),
            r.spec_reset_viewport() == world.viewport_reset_quirk,
    {
        MainPass2dNode { views: collect_view_entities(&world.views), reset_viewport: world.viewport_reset_quirk }
    }

    /// The slots the node reads: the view entity.
    pub fn input(&self) -> (r: Vec<SlotInfo>)
        ensures
            r@ == seq![SlotInfo { name: Self::IN_VIEW, slot_type: SlotType::Entity }],
    {
        let mut v: Vec<SlotInfo> = Vec::new();
        v.push(SlotInfo::new(Self::IN_VIEW, SlotType::Entity));
        proof {
            assert(v@ =~= seq![SlotInfo { name: Self::IN_VIEW, slot_type: SlotType::Entity }]);
        }
        v
    }

    /// Refreshes the view cache from the world.
    pub fn update(&mut self, world: &RenderWorld)
        ensures
            final(self).spec_views() == view_entities(world.views@),
            final(self).spec_reset_viewport() == old(self).spec_reset_viewport(),
    {
        self.views = collect_view_entities(&world.views);
    }

    /// Records the main 2d pass of the view bound to the input slot.
    ///
    /// An unbound or mistyped slot fails with its wiring error. A view with no
    /// render data records nothing and succeeds. An unsorted phase fails before
    /// any pass is opened. Otherwise one pass is opened, drawn and closed.
    pub fn run(&self, graph: &RenderGraphContext, gpu: &mut GpuContext, world: &RenderWorld) -> (r: Result<
        (),
        NodeRunError,
    >)
        ensures
            match input_entity(graph.inputs@, 0) {
                Err(e) => r == Err::<(), NodeRunError>(NodeRunError::InputSlot(e)) && final(gpu).commands@
                    == old(gpu).commands@,
                Ok(v) => match self.lookup(world, v) {
                    None => r is Ok && final(gpu).commands@ == old(gpu).commands@,
                    Some(i) => if !world.views@[i].transparent_phase.spec_sorted() {
                        r == Err::<(), NodeRunError>(NodeRunError::Phase(PhaseError::NotSorted))
                            && final(gpu).commands@ == old(gpu).commands@
                    } else {
                        r is Ok && is_ordered(
                            world.views@[i].transparent_phase.spec_items(),
                            world.views@[i].transparent_phase.spec_order(),
                        ) && final(gpu).commands@ == old(gpu).commands@ + main_pass_commands(
                            world.views@[i],
                            world.clear_color.0,
                            world.live_entities@,
                            self.spec_reset_viewport(),
                        )
                    },
                },
            },
    {
        let view_entity = match graph.get_input_entity(0) {
            Ok(e) => e,
            Err(e) => {
                return Err(NodeRunError::InputSlot(e));
            },
        };
        if !crate::phase::contains(&self.views, view_entity) {
            return Ok(());
        }
        let found = find_view(&world.views, view_entity);
        let i = match found {
            Some(i) => i,
            None => {
                return Ok(());
            },
        };
        let view = &world.views[i];
        if !view.transparent_phase.is_sorted() {
            return Err(NodeRunError::Phase(PhaseError::NotSorted));
        }
        let ghost start = gpu.commands@;
        let ops = Operations { load: resolve_load_op(view.clear_color, &world.clear_color), store: true };
        gpu.commands.push(RenderCommand::BeginPass { label: PassLabel::MainPass2d, target: view.target, ops });
        match view.viewport {
            Some(v) => gpu.commands.push(RenderCommand::SetViewport(v)),
            None => {},
        }
        let emitted_ok = view.transparent_phase.emit(&world.live_entities, &mut gpu.commands);
        gpu.commands.push(RenderCommand::EndPass);
        if self.reset_viewport && view.viewport.is_some() {
            gpu.commands.push(
                RenderCommand::BeginPass {
                    label: PassLabel::ResetViewportPass2d,
                    target: view.target,
                    ops: Operations { load: LoadOp::Load, store: true },
                },
            );
            gpu.commands.push(RenderCommand::EndPass);
        }
        proof {
            assert(emitted_ok is Ok);
            assert(gpu.commands@ =~= start + main_pass_commands(
                world.views@[i as int],
                world.clear_color.0,
                world.live_entities@,
                self.reset_viewport,
            ));
        }
        Ok(())
    }
}

/// The entities of `views`, in order.
fn collect_view_entities(views: &Vec<ViewData>) -> (r: Vec<u32>)
    ensures
        r@ == view_entities(views@),
{
    let mut r: Vec<u32> = Vec::new();
    let mut i: usize = 0;
    while i < views.len()
        invariant
            i <= views@.len(),
            r@ == view_entities(views@.take(i as int)),
        decreases views@.len() - i,
    {
        r.push(views[i].entity);
        proof {
            assert(view_entities(views@.take(i + 1)) =~= view_entities(views@.take(i as int)).push(
                views@[i as int].entity,
            ));
        }
        i = i + 1;
    }
    proof {
        assert(views@.take(views@.len() as int) =~= views@);
    }
    r
}

/// The index of the first view for entity `e`.
fn find_view(views: &Vec<ViewData>, e: u32) -> (r: Option<usize>)
    ensures
        match r {
            Some(i) => i < views@.len() && view_index_from(views@, e, 0) == Some(i as int),
            None => view_index_from(views@, e, 0) is None,
        },
{
    let mut i: usize = 0;
    while i < views.len()
        invariant
            i <= views@.len(),
            view_index_from(views@, e, 0) == view_index_from(views@, e, i as int),
        decreases views@.len() - i,
    {
        if views[i].entity == e {
            return Some(i);
        }
        i = i + 1;
    }
    None
}

} // verus!
