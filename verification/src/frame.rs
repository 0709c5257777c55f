//! One frame of the game loop as a sequence of dispatches: the systems in
//! the order of their registration, then the updates of the components that
//! do not draw, entity by entity in depth order, then the updates of the
//! components that draw, in the order in which they were met.
//!
//! The library decides what runs next; the caller runs it and asks again. The
//! scene may change between two steps: entities removed meanwhile are passed
//! over.

use vstd::prelude::*;
use crate::scene::{depth_order_of, live_in, Component, Entity, EntityId, Runtime};

verus! {

/// The part of a frame that is under way.
#[derive(Clone, Copy, Debug, PartialEq, Eq, Structural)]
pub enum Phase {
    /// The systems are being updated.
    Systems,
    /// The components that do not draw are being updated.
    Entities,
    /// The components that draw are being updated.
    Rendering,
    /// Nothing is left to run.
    Done,
}

/// What the caller is to run next.
#[derive(Clone, Copy, Debug, PartialEq, Eq, Structural)]
pub enum Step {
    /// The update callback of the system registered at this position.
    System(usize),
    /// The update callback of the component at position `component` of
    /// `entity`, a component that does not draw.
    Update { entity: EntityId, component: usize },
    /// The update callback of the component at position `component` of
    /// `entity`, a component that draws.
    Render { entity: EntityId, component: usize },
    /// The frame is over.
    Done,
}

/// The progress of one frame.
pub struct Frame {
    phase: Phase,
    systems_total: usize,
    next_system: usize,
    order: Vec<EntityId>,
    cursor: usize,
    ready: Vec<(EntityId, usize)>,
    next_ready: usize,
    queue: Vec<(EntityId, usize)>,
    next_render: usize,
    steps: Ghost<Seq<Step>>,
}

/// The progress of one frame, as mathematics.
pub struct FrameView {
    pub phase: Phase,
    /// The number of systems that this frame runs.
    pub systems_total: nat,
    /// The position of the system to run next.
    pub next_system: nat,
    /// The entities to visit, in depth order, as they were when the systems
    /// had run.
    pub order: Seq<EntityId>,
    /// The position in `order` of the entity to visit next.
    pub cursor: nat,
    /// The components of the entity under visit that do not draw.
    pub ready: Seq<(EntityId, usize)>,
    /// The position in `ready` of the component to update next.
    pub next_ready: nat,
    /// The components that draw, of the entities visited so far.
    pub queue: Seq<(EntityId, usize)>,
    /// The position in `queue` of the component to update next.
    pub next_render: nat,
    /// Every step handed out so far, oldest first.
    pub steps: Seq<Step>,
}

impl View for Frame {
    type V = FrameView;

    closed spec fn view(&self) -> FrameView {
        FrameView {
            phase: self.phase,
            systems_total: self.systems_total as nat,
            next_system: self.next_system as nat,
            order: self.order@,
            cursor: self.cursor as nat,
            ready: self.ready@,
            next_ready: self.next_ready as nat,
            queue: self.queue@,
            next_render: self.next_render as nat,
            steps: self.steps@,
        }
    }
}

/// The place of a step in a frame: systems, updates, rendering, end.
pub open spec fn step_rank(step: Step) -> int {
    match step {
        Step::System(_) => 0,
        Step::Update { .. } => 1,
        Step::Render { .. } => 2,
        Step::Done => 3,
    }
}

/// The place of a phase in a frame.
pub open spec fn phase_rank(phase: Phase) -> int {
    match phase {
        Phase::Systems => 0,
        Phase::Entities => 1,
        Phase::Rendering => 2,
        Phase::Done => 3,
    }
}

impl FrameView {
    /// The positions lie within their lists, and the steps handed out so far
    /// never went back to an earlier part of the frame.
    pub open spec fn wf(self) -> bool {
        &&& self.next_system <= self.systems_total
        &&& self.cursor <= self.order.len()
        &&& self.next_ready <= self.ready.len()
        &&& self.next_render <= self.queue.len()
        &&& forall|i: int| 0 <= i < self.steps.len() ==> step_rank(#[trigger] self.steps[i]) <= phase_rank(self.phase)
        &&& forall|i: int, j: int| 0 <= i < j < self.steps.len()
                ==> step_rank(#[trigger] self.steps[i]) <= step_rank(#[trigger] self.steps[j])
    }

    /// The frame with one more step on record.
    pub open spec fn emit(self, step: Step) -> FrameView {
        FrameView { steps: self.steps.push(step), ..self }
    }
}

/// The test that picks, among the positions of a component list, those of
/// the components that have an update callback and that draw, or do not, as
/// `rendering` says.
pub open spec fn wanted(components: Seq<Component>, rendering: bool) -> spec_fn((EntityId, usize)) -> bool {
    |d: (EntityId, usize)| components[d.1 as int].has_update && components[d.1 as int].rendering == rendering
}

/// The first `n` positions of the component list of entity `id`.
pub open spec fn positions(id: EntityId, n: nat) -> Seq<(EntityId, usize)> {
    Seq::new(n, |k: int| (id, k as usize))
}

/// The components of entity `id` to dispatch in one pass, in the order of
/// their attachment.
pub open spec fn dispatches(id: EntityId, components: Seq<Component>, rendering: bool) -> Seq<(EntityId, usize)> {
    positions(id, components.len()).filter(wanted(components, rendering))
}

/// The frame after the visit of the next entity in its order: the components
/// of that entity that do not draw are ready to run, those that draw have
/// joined the queue. An entity that is no longer live contributes nothing.
pub open spec fn visit(slots: Seq<Option<Entity>>, f: FrameView) -> FrameView {
    let id = f.order[f.cursor as int];
    if live_in(slots, id as int) {
        let components = (slots[id as int]->0).components@;
        FrameView {
            cursor: f.cursor + 1,
            ready: dispatches(id, components, false),
            next_ready: 0,
            queue: f.queue + dispatches(id, components, true),
            ..f
        }
    } else {
        FrameView { cursor: f.cursor + 1, ready: Seq::empty(), next_ready: 0, ..f }
    }
}

/// The frame after as many visits as it takes to have a component ready, or
/// to run out of entities.
pub open spec fn settle(slots: Seq<Option<Entity>>, f: FrameView) -> FrameView
    decreases f.order.len() - f.cursor,
{
    if f.next_ready < f.ready.len() || f.cursor >= f.order.len() {
        f
    } else {
        settle(slots, visit(slots, f))
    }
}

/// The next step of the rendering pass.
pub open spec fn rendering_step(f: FrameView) -> (Step, FrameView) {
    if f.next_render < f.queue.len() {
        let d = f.queue[f.next_render as int];
        let step = Step::Render { entity: d.0, component: d.1 };
        (step, (FrameView { phase: Phase::Rendering, next_render: f.next_render + 1, ..f }).emit(step))
    } else {
        (Step::Done, (FrameView { phase: Phase::Done, ..f }).emit(Step::Done))
    }
}

/// The next step of the pass over the entities; the rendering pass begins
/// when no component is left that does not draw.
pub open spec fn entities_step(slots: Seq<Option<Entity>>, f: FrameView) -> (Step, FrameView) {
    let g = settle(slots, FrameView { phase: Phase::Entities, ..f });
    if g.next_ready < g.ready.len() {
        let d = g.ready[g.next_ready as int];
        let step = Step::Update { entity: d.0, component: d.1 };
        (step, (FrameView { next_ready: g.next_ready + 1, ..g }).emit(step))
    } else {
        rendering_step(g)
    }
}

/// The next step of a frame over the arena `slots`, and the frame after it.
/// The depth order is taken when the last system has run.
pub open spec fn frame_step(slots: Seq<Option<Entity>>, f: FrameView) -> (Step, FrameView) {
    match f.phase {
        Phase::Systems => if f.next_system < f.systems_total {
            let step = Step::System(f.next_system as usize);
            (step, (FrameView { next_system: f.next_system + 1, ..f }).emit(step))
        } else {
            entities_step(slots, FrameView { order: depth_order_of(slots), cursor: 0, ..f })
        },
        Phase::Entities => entities_step(slots, f),
        Phase::Rendering => rendering_step(f),
        Phase::Done => (Step::Done, f.emit(Step::Done)),
    }
}

/// A frame that has not run anything yet, over `systems` systems.
pub open spec fn fresh_frame(systems: nat) -> FrameView {
    FrameView {
        phase: Phase::Systems,
        systems_total: systems,
        next_system: 0,
        order: Seq::empty(),
        cursor: 0,
        ready: Seq::empty(),
        next_ready: 0,
        queue: Seq::empty(),
        next_render: 0,
        steps: Seq::empty(),
    }
}

/// In every frame, whatever the scene did between its steps, no component
/// that draws was updated before a system or a component that does not draw:
/// each rendering step on record comes after every system step and every
/// update step on record.
pub proof fn lemma_rendering_comes_last(f: FrameView, i: int, j: int)
    requires
        f.wf(),
        0 <= i < f.steps.len(),
        0 <= j < f.steps.len(),
        f.steps[i] is Render,
        f.steps[j] is Update || f.steps[j] is System,
    ensures
        j < i,
{
    if i < j {
        assert(step_rank(f.steps[i]) <= step_rank(f.steps[j]));
    }
}

impl Frame {
    /// The steps handed out so far.
    pub open spec fn steps(&self) -> Seq<Step> {
        self@.steps
    }

    /// The part of the frame that is under way.
    pub fn phase(&self) -> (r: Phase)
        ensures
            r == self@.phase,
    {
        self.phase
    }

    fn record(&mut self, step: Step)
        ensures
            final(self)@ == old(self)@.emit(step),
    {
        self.steps = Ghost(self.steps@.push(step));
    }
}

impl Runtime {
    /// Starts a frame; it will run the systems registered by now.
    pub fn begin_frame(&self) -> (frame: Frame)
        ensures
            frame@ == fresh_frame(self.system_count()),
            frame@.wf(),
    {
        Frame {
            phase: Phase::Systems,
            systems_total: self.systems(),
            next_system: 0,
            order: Vec::new(),
            cursor: 0,
            ready: Vec::new(),
            next_ready: 0,
            queue: Vec::new(),
            next_render: 0,
            steps: Ghost(Seq::empty()),
        }
    }

    /// Visits the next entity of the frame's order.
    fn visit_next(&self, frame: &mut Frame)
        requires
            old(frame)@.wf(),
            old(frame)@.cursor < old(frame)@.order.len(),
        ensures
            final(frame)@ == visit(self.slots(), old(frame)@),
            final(frame)@.wf(),
    {
        let id = frame.order[frame.cursor];
        let visited = frame.order.len();
        let mut ready: Vec<(EntityId, usize)> = Vec::new();
        let ghost queued = frame.queue@;
        match self.entity(id) {
            Some(e) => {
                let n = e.components.len();
                let ghost all = positions(id, n as nat);
                let mut k: usize = 0;
                proof {
                    reveal(Seq::filter);
                    assert(all.take(0) =~= Seq::<(EntityId, usize)>::empty());
                    assert(frame.queue@ =~= queued + all.take(0).filter(wanted(e.components@, true)));
                }
                while k < n
                    invariant
                        n == e.components@.len(),
                        k <= n,
                        all == positions(id, n as nat),
                        ready@ == all.take(k as int).filter(wanted(e.components@, false)),
                        frame.queue@ == queued + all.take(k as int).filter(wanted(e.components@, true)),
                        frame.phase == old(frame).phase,
                        frame.systems_total == old(frame).systems_total,
                        frame.next_system == old(frame).next_system,
                        frame.order == old(frame).order,
                        frame.cursor == old(frame).cursor,
                        frame.cursor < visited,
                        frame.next_render == old(frame).next_render,
                        frame.steps == old(frame).steps,
                    decreases n - k,
                {
                    proof {
                        reveal(Seq::filter);
                        let next = all.take(k + 1);
                        assert(next.drop_last() =~= all.take(k as int));
                        assert(next.last() == (id, k));
                    }
                    let c = &e.components[k];
                    if c.has_update {
                        if c.rendering {
                            frame.queue.push((id, k));
                        } else {
                            ready.push((id, k));
                        }
                    }
                    proof {
                        let next = all.take(k + 1);
                        let shown = all.take(k as int).filter(wanted(e.components@, true));
                        if wanted(e.components@, true)((id, k)) {
                            assert(frame.queue@ =~= queued + shown.push((id, k)));
                        }
                    }
                    k += 1;
                }
                proof {
                    assert(all.take(n as int) =~= all);
                }
            },
            None => {},
        }
        frame.ready = ready;
        frame.next_ready = 0;
        frame.cursor = frame.cursor + 1;
    }

    /// Hands out the next step of `frame` and advances the frame past it.
    ///
    /// The caller runs the callback that the step names, whatever its
    /// outcome, and calls again until the step is [`Step::Done`].
    pub fn update(&self, frame: &mut Frame) -> (step: Step)
        requires
            old(frame)@.wf(),
        ensures
            (step, final(frame)@) == frame_step(self.slots(), old(frame)@),
            final(frame)@.wf(),
            final(frame).steps() == old(frame).steps().push(step),
    {
        if frame.phase == Phase::Systems {
            if frame.next_system < frame.systems_total {
                let step = Step::System(frame.next_system);
                frame.next_system = frame.next_system + 1;
                frame.record(step);
                return step;
            }
            frame.order = self.depth_order();
            frame.cursor = 0;
            frame.phase = Phase::Entities;
        }
        if frame.phase == Phase::Entities {
            let ghost start = frame@;
            while frame.next_ready >= frame.ready.len() && frame.cursor < frame.order.len()
                invariant
                    frame@.wf(),
                    frame@.phase == Phase::Entities,
                    frame@.steps == start.steps,
                    settle(self.slots(), frame@) == settle(self.slots(), start),
                decreases frame@.order.len() - frame@.cursor,
            {
                self.visit_next(frame);
            }
            if frame.next_ready < frame.ready.len() {
                let d = frame.ready[frame.next_ready];
                let step = Step::Update { entity: d.0, component: d.1 };
                frame.next_ready = frame.next_ready + 1;
                frame.record(step);
                return step;
            }
            frame.phase = Phase::Rendering;
        }
        if frame.phase == Phase::Rendering {
            if frame.next_render < frame.queue.len() {
                let d = frame.queue[frame.next_render];
                let step = Step::Render { entity: d.0, component: d.1 };
                frame.next_render = frame.next_render + 1;
                frame.record(step);
                return step;
            }
            frame.phase = Phase::Done;
        }
        frame.record(Step::Done);
        Step::Done
    }
}

} // verus!
