//! The schedule of the integrator: in what order a ray, the points it meets and the rays
//! reflected from them are dealt with, and when each of them is done.
//!
//! The light that arrives along a ray is what the lamp sends straight to the point the ray
//! meets, plus what arrives there along rays reflected from it, each of which is traced in
//! the same way with one bounce less to spend. A [`Tracer`] unrolls that recursion onto a
//! stack of its own. It only decides what happens next: it asks its driver for one
//! [`Action`] at a time and is told the outcome as an [`Event`]. What the driver sums up
//! along the way, the colors, never passes through here.

use vstd::prelude::*;

verus! {

/// Points of the lamp drawn for each point that a ray meets.
pub const LIGHT_SAMPLES_COUNT: i32 = 4;

/// Rays reflected from each point that a ray meets.
pub const REFLECT_SAMPLES_COUNT: i32 = 4;

/// What a tracer asks of its driver.
#[derive(Clone, Copy, Debug, PartialEq, Eq, Structural)]
pub enum Action {
    /// Find what the ray in hand meets first, and report [`Event::Hit`] or [`Event::Miss`].
    /// A point that it meets goes on top of the driver's stack.
    Intersect,
    /// The ray in hand gets the background color.
    Background,
    /// Draw a point of the lamp, and count its light for the point on top of the stack if
    /// nothing stands between the two.
    Light,
    /// Reflect a ray from the point on top of the stack. It becomes the ray in hand.
    Reflect,
    /// The point on top of the stack has all its samples: the ray that met it gets their
    /// sum, and the point leaves the stack.
    Compose,
    /// The first ray has its color.
    Finish,
}

/// What a driver reports to its tracer.
#[derive(Clone, Copy, Debug, PartialEq, Eq, Structural)]
pub enum Event {
    /// The ray in hand meets a surface.
    Hit,
    /// The ray in hand meets nothing.
    Miss,
    /// The action asked for is done.
    Done,
}

/// A point that a ray met and that still waits for samples, as mathematical integers.
pub struct FrameState {
    /// Bounces that the ray that met the point could still spend, at least one.
    pub depth: int,
    /// Points of the lamp drawn so far.
    pub lights: int,
    /// Rays reflected so far.
    pub bounces: int,
}

/// The state of a tracer as mathematical values.
pub struct TracerState {
    /// Bounces that the first ray could spend.
    pub budget: int,
    /// Bounces that the ray in hand can still spend.
    pub depth: int,
    /// The points that wait for samples, the latest last.
    pub frames: Seq<FrameState>,
    /// What the driver was asked last, and has not reported on yet.
    pub pending: Action,
}

impl FrameState {
    /// Whether the counts of a frame are in range.
    pub open spec fn wf(self) -> bool {
        &&& self.depth >= 1
        &&& 0 <= self.lights <= LIGHT_SAMPLES_COUNT
        &&& 0 <= self.bounces <= REFLECT_SAMPLES_COUNT
    }

    /// Whether a ray reflected from this point is in hand or under way: the point has all
    /// its light and at least one ray reflected.
    pub open spec fn waits_for_a_ray(self) -> bool {
        self.lights == LIGHT_SAMPLES_COUNT && self.bounces >= 1
    }
}

impl TracerState {
    /// The state before anything is done for a first ray that can spend `depth` bounces:
    /// a ray with none to spend is not even intersected.
    pub open spec fn start(depth: int) -> TracerState {
        TracerState {
            budget: depth,
            depth: depth,
            frames: Seq::empty(),
            pending: if depth <= 0 {
                Action::Background
            } else {
                Action::Intersect
            },
        }
    }

    /// Whether `event` is a report on what is pending.
    pub open spec fn expects(self, event: Event) -> bool {
        match self.pending {
            Action::Intersect => event == Event::Hit || event == Event::Miss,
            Action::Finish => false,
            _ => event == Event::Done,
        }
    }

    /// What is due once the ray in hand has its color: the end if no point waits for it,
    /// else the next reflected ray of the point on top, or its sum when it has had them all.
    pub open spec fn after_answer(frames: Seq<FrameState>) -> Action {
        if frames.len() == 0 {
            Action::Finish
        } else if frames.last().bounces < REFLECT_SAMPLES_COUNT {
            Action::Reflect
        } else {
            Action::Compose
        }
    }

    /// The state after the driver reports `event`. A report that does not fit what is
    /// pending changes nothing.
    pub open spec fn step(self, event: Event) -> TracerState {
        if !self.expects(event) {
            self
        } else {
            match self.pending {
                Action::Intersect => if event == Event::Hit {
                    TracerState {
                        budget: self.budget,
                        depth: self.depth,
                        frames: self.frames.push(
                            FrameState { depth: self.depth, lights: 0, bounces: 0 },
                        ),
                        pending: Action::Light,
                    }
                } else {
                    TracerState {
                        budget: self.budget,
                        depth: self.depth,
                        frames: self.frames,
                        pending: Action::Background,
                    }
                },
                Action::Background => TracerState {
                    budget: self.budget,
                    depth: self.depth,
                    frames: self.frames,
                    pending: Self::after_answer(self.frames),
                },
                Action::Light => {
                    let top = self.frames.last();
                    TracerState {
                        budget: self.budget,
                        depth: self.depth,
                        frames: self.frames.drop_last().push(
                            FrameState {
                                depth: top.depth,
                                lights: top.lights + 1,
                                bounces: top.bounces,
                            },
                        ),
                        pending: if top.lights + 1 < LIGHT_SAMPLES_COUNT {
                            Action::Light
                        } else {
                            Action::Reflect
                        },
                    }
                },
                Action::Reflect => {
                    let top = self.frames.last();
                    TracerState {
                        budget: self.budget,
                        depth: top.depth - 1,
                        frames: self.frames.drop_last().push(
                            FrameState {
                                depth: top.depth,
                                lights: top.lights,
                                bounces: top.bounces + 1,
                            },
                        ),
                        pending: if top.depth - 1 <= 0 {
                            Action::Background
                        } else {
                            Action::Intersect
                        },
                    }
                },
                Action::Compose => TracerState {
                    budget: self.budget,
                    depth: self.depth,
                    frames: self.frames.drop_last(),
                    pending: Self::after_answer(self.frames.drop_last()),
                },
                Action::Finish => self,
            }
        }
    }

    /// Whether the state is one that a tracer can be in.
    ///
    /// Each point on the stack was met by a ray with one bounce less to spend than the one
    /// before it, starting from the budget. Every point but the top one waits for a ray
    /// reflected from it. What is pending fits the top of the stack: light while the top
    /// point lacks light, then reflected rays, then the sum; a ray in hand is the first one,
    /// or one reflected from the top point.
    pub open spec fn wf(self) -> bool {
        &&& forall|i: int|
            0 <= i < self.frames.len() ==> (#[trigger] self.frames[i]).wf() && self.frames[i].depth
                == self.budget - i
        &&& forall|i: int|
            0 <= i < self.frames.len() - 1 ==> (#[trigger] self.frames[i]).waits_for_a_ray()
        &&& match self.pending {
            Action::Intersect => self.depth >= 1 && self.ray_in_hand(),
            Action::Background => self.ray_in_hand(),
            Action::Light => self.frames.len() > 0 && self.frames.last().lights
                < LIGHT_SAMPLES_COUNT && self.frames.last().bounces == 0,
            Action::Reflect => self.frames.len() > 0 && self.frames.last().lights
                == LIGHT_SAMPLES_COUNT && self.frames.last().bounces < REFLECT_SAMPLES_COUNT,
            Action::Compose => self.frames.len() > 0 && self.frames.last().lights
                == LIGHT_SAMPLES_COUNT && self.frames.last().bounces == REFLECT_SAMPLES_COUNT,
            Action::Finish => self.frames.len() == 0,
        }
    }

    /// Whether the ray in hand is the first ray, or one reflected from the point on top of
    /// the stack.
    pub open spec fn ray_in_hand(self) -> bool {
        if self.frames.len() == 0 {
            self.depth == self.budget
        } else {
            self.frames.last().waits_for_a_ray() && self.depth == self.frames.last().depth - 1
        }
    }
}

/// A point on the stack of a tracer.
struct Frame {
    depth: i32,
    lights: i32,
    bounces: i32,
}

impl View for Frame {
    type V = FrameState;

    closed spec fn view(&self) -> FrameState {
        FrameState {
            depth: self.depth as int,
            lights: self.lights as int,
            bounces: self.bounces as int,
        }
    }
}

/// The schedule of one first ray: what its driver is asked next, and the points that wait
/// for samples.
pub struct Tracer {
    budget: i32,
    depth: i32,
    frames: Vec<Frame>,
    pending: Action,
}

impl View for Tracer {
    type V = TracerState;

    closed spec fn view(&self) -> TracerState {
        TracerState {
            budget: self.budget as int,
            depth: self.depth as int,
            frames: self.frames@.map_values(|frame: Frame| frame@),
            pending: self.pending,
        }
    }
}

impl Tracer {
    #[verifier::type_invariant]
    spec fn inv(self) -> bool {
        self@.wf()
    }

    /// A tracer for a first ray that can spend `depth` bounces.
    pub fn new(depth: i32) -> (tracer: Tracer)
        ensures
            tracer@ == TracerState::start(depth as int),
            tracer@.wf(),
            depth <= 0 ==> tracer@.pending == Action::Background,
    {
        let pending = if depth <= 0 {
            Action::Background
        } else {
            Action::Intersect
        };
        let frames: Vec<Frame> = Vec::new();
        assert(frames@.map_values(|frame: Frame| frame@) =~= Seq::empty());
        Tracer { budget: depth, depth, frames, pending }
    }

    /// What the driver is asked to do now.
    pub fn action(&self) -> (action: Action)
        ensures
            action == self@.pending,
    {
        self.pending
    }

    /// How many points wait for samples.
    pub fn points(&self) -> (count: usize)
        ensures
            count == self@.frames.len(),
            self@.budget <= 0 ==> count == 0,
            count <= self@.budget || count == 0,
    {
        proof {
            use_type_invariant(self);
            lemma_stack_bounded(self@);
        }
        self.frames.len()
    }

    /// Whether `event` is a report on what the driver is asked to do now.
    pub fn expects(&self, event: Event) -> (fits: bool)
        ensures
            fits == self@.expects(event),
    {
        match self.pending {
            Action::Intersect => event == Event::Hit || event == Event::Miss,
            Action::Finish => false,
            _ => event == Event::Done,
        }
    }

    /// Takes the driver's report on what was asked, and moves on to what is asked next.
    /// A report that does not fit what was asked is passed over.
    pub fn step(self, event: Event) -> (next: Tracer)
        ensures
            next@ == self@.step(event),
            next@.wf(),
            self@.expects(event) ==> next@.remaining() < self@.remaining(),
    {
        proof {
            use_type_invariant(&self);
            lemma_step_wf(self@, event);
            lemma_step_decreases(self@, event);
        }
        if !self.expects(event) {
            return self;
        }
        let ghost after = self@.step(event);
        let Tracer { budget, mut depth, mut frames, mut pending } = self;
        match pending {
            Action::Intersect => {
                if event == Event::Hit {
                    frames.push(Frame { depth, lights: 0, bounces: 0 });
                    pending = Action::Light;
                } else {
                    pending = Action::Background;
                }
            },
            Action::Background => {
                pending = after_answer(&frames);
            },
            Action::Light => {
                let top = frames.pop().unwrap();
                let lights: i32 = top.lights + 1;
                frames.push(Frame { depth: top.depth, lights, bounces: top.bounces });
                pending = if lights < LIGHT_SAMPLES_COUNT {
                    Action::Light
                } else {
                    Action::Reflect
                };
            },
            Action::Reflect => {
                let top = frames.pop().unwrap();
                let bounces: i32 = top.bounces + 1;
                frames.push(Frame { depth: top.depth, lights: top.lights, bounces });
                depth = top.depth - 1;
                pending = if depth <= 0 {
                    Action::Background
                } else {
                    Action::Intersect
                };
            },
            Action::Compose => {
                frames.pop();
                pending = after_answer(&frames);
            },
            Action::Finish => {},
        }
        assert(frames@.map_values(|frame: Frame| frame@) =~= after.frames);
        Tracer { budget, depth, frames, pending }
    }
}

/// What is due once the ray in hand has its color.
fn after_answer(frames: &Vec<Frame>) -> (action: Action)
    ensures
        action == TracerState::after_answer(frames@.map_values(|frame: Frame| frame@)),
{
    if frames.len() == 0 {
        Action::Finish
    } else if frames[frames.len() - 1].bounces < REFLECT_SAMPLES_COUNT {
        Action::Reflect
    } else {
        Action::Compose
    }
}

/// The most reports that it takes to give a ray its color when it can spend `depth` bounces:
/// one for a ray with none to spend; else one for what it meets, one for each point of the
/// lamp, one for each reflected ray besides what that ray takes itself, and one for the sum.
pub open spec fn ray_cost(depth: int) -> nat
    decreases depth,
{
    if depth <= 0 {
        1
    } else {
        (2 + LIGHT_SAMPLES_COUNT + REFLECT_SAMPLES_COUNT * (1 + ray_cost(depth - 1))) as nat
    }
}

/// The most reports that a point on the stack still takes: its missing light, its missing
/// reflected rays with all that they take, and its sum.
pub open spec fn frame_cost(frame: FrameState) -> nat {
    ((LIGHT_SAMPLES_COUNT - frame.lights) + (REFLECT_SAMPLES_COUNT - frame.bounces) * (1
        + ray_cost(frame.depth - 1)) + 1) as nat
}

/// The most reports that the points of a stack still take, all together.
pub open spec fn stack_cost(frames: Seq<FrameState>) -> nat
    decreases frames.len(),
{
    if frames.len() == 0 {
        0
    } else {
        stack_cost(frames.drop_last()) + frame_cost(frames.last())
    }
}

impl TracerState {
    /// The most reports that the tracer still takes before it asks to finish.
    pub open spec fn remaining(self) -> nat {
        stack_cost(self.frames) + match self.pending {
            Action::Intersect => ray_cost(self.depth),
            Action::Background => 1,
            _ => 0,
        }
    }
}

/// A tracer starts in a state that it can be in, with no more to do than one ray of its
/// budget takes.
pub proof fn lemma_start(depth: int)
    ensures
        TracerState::start(depth).wf(),
        TracerState::start(depth).remaining() == ray_cost(depth),
{
    assert(stack_cost(Seq::<FrameState>::empty()) == 0);
}

/// A report leaves a tracer in a state that it can be in.
pub proof fn lemma_step_wf(state: TracerState, event: Event)
    requires
        state.wf(),
    ensures
        state.step(event).wf(),
{
    let next = state.step(event);
    if state.expects(event) {
        match state.pending {
            Action::Intersect => {
                if event == Event::Hit {
                    assert(state.ray_in_hand());
                    assert forall|i: int| 0 <= i < next.frames.len() implies (
                    #[trigger] next.frames[i]).wf() && next.frames[i].depth == next.budget - i by {
                        if i < state.frames.len() {
                            assert(next.frames[i] == state.frames[i]);
                        }
                    }
                    assert forall|i: int| 0 <= i < next.frames.len() - 1 implies (
                    #[trigger] next.frames[i]).waits_for_a_ray() by {
                        assert(next.frames[i] == state.frames[i]);
                        if i == state.frames.len() - 1 {
                            assert(state.frames[i] == state.frames.last());
                        }
                    }
                }
            },
            Action::Background => {},
            Action::Light | Action::Reflect => {
                assert forall|i: int| 0 <= i < next.frames.len() implies (
                #[trigger] next.frames[i]).wf() && next.frames[i].depth == next.budget - i by {
                    if i < state.frames.len() - 1 {
                        assert(next.frames[i] == state.frames[i]);
                    } else {
                        assert(state.frames[i] == state.frames.last());
                    }
                }
                assert forall|i: int| 0 <= i < next.frames.len() - 1 implies (
                #[trigger] next.frames[i]).waits_for_a_ray() by {
                    assert(next.frames[i] == state.frames[i]);
                }
            },
            Action::Compose => {
                assert forall|i: int| 0 <= i < next.frames.len() implies (
                #[trigger] next.frames[i]).wf() && next.frames[i].depth == next.budget - i by {
                    assert(next.frames[i] == state.frames[i]);
                }
                assert forall|i: int| 0 <= i < next.frames.len() - 1 implies (
                #[trigger] next.frames[i]).waits_for_a_ray() by {
                    assert(next.frames[i] == state.frames[i]);
                }
                if next.frames.len() > 0 {
                    let below = next.frames.len() - 1;
                    assert(next.frames.last() == state.frames[below]);
                    assert(state.frames[below].waits_for_a_ray());
                    assert(state.frames[below].wf());
                }
            },
            Action::Finish => {},
        }
    }
}

/// The stack never grows beyond the budget: no more points wait at once than the first ray
/// can spend bounces, and none at all where it can spend none.
pub proof fn lemma_stack_bounded(state: TracerState)
    requires
        state.wf(),
    ensures
        state.budget <= 0 ==> state.frames.len() == 0,
        state.frames.len() <= state.budget || state.frames.len() == 0,
{
    if state.frames.len() > 0 {
        let top = state.frames.len() - 1;
        assert(state.frames[top].wf());
    }
}

/// A first ray with no bounce to spend is never intersected, whatever the world holds and
/// whatever the driver reports: the tracer asks for the background color, and then to
/// finish.
pub proof fn lemma_spent_ray_gets_background(state: TracerState, event: Event)
    requires
        state.wf(),
        state.budget <= 0,
    ensures
        TracerState::start(state.budget).pending == Action::Background,
        state.pending == Action::Background || state.pending == Action::Finish,
        state.frames.len() == 0,
        state.pending == Action::Background && event == Event::Done ==> state.step(event).pending
            == Action::Finish,
{
    lemma_stack_bounded(state);
}

/// Every report that fits what is pending brings the end nearer, and only a tracer that asks
/// to finish has nothing left to do. So a driver that reports what it is asked reaches
/// the end after no more than `ray_cost(budget)` reports.
pub proof fn lemma_step_decreases(state: TracerState, event: Event)
    requires
        state.wf(),
    ensures
        state.expects(event) ==> state.step(event).remaining() < state.remaining(),
        state.remaining() == 0 <==> state.pending == Action::Finish,
{
    let next = state.step(event);
    assert(stack_cost(Seq::<FrameState>::empty()) == 0);
    if state.frames.len() > 0 {
        assert(frame_cost(state.frames.last()) >= 1) by {
            let top = state.frames.len() - 1;
            assert(state.frames[top].wf());
            lemma_frame_cost_positive(state.frames.last());
        }
    }
    if state.expects(event) {
        match state.pending {
            Action::Intersect => {
                if event == Event::Hit {
                    let frame = FrameState { depth: state.depth, lights: 0, bounces: 0 };
                    assert(next.frames.drop_last() =~= state.frames);
                    assert(next.frames.last() == frame);
                    assert(frame_cost(frame) + 1 == ray_cost(state.depth));
                }
            },
            Action::Background => {},
            Action::Light => {
                let top = state.frames.last();
                assert(next.frames.drop_last() =~= state.frames.drop_last());
                assert(frame_cost(next.frames.last()) + 1 == frame_cost(top));
            },
            Action::Reflect => {
                let top = state.frames.last();
                let rest = ray_cost(top.depth - 1) as int;
                assert(next.frames.drop_last() =~= state.frames.drop_last());
                assert((REFLECT_SAMPLES_COUNT - top.bounces) * (1 + rest) == (REFLECT_SAMPLES_COUNT
                    - (top.bounces + 1)) * (1 + rest) + (1 + rest)) by (nonlinear_arith);
                assert(frame_cost(next.frames.last()) + 1 + rest == frame_cost(top)) by {
                    assert((REFLECT_SAMPLES_COUNT - (top.bounces + 1)) * (1 + rest) >= 0)
                        by (nonlinear_arith)
                        requires
                            top.bounces + 1 <= REFLECT_SAMPLES_COUNT,
                            rest >= 0,
                    ;
                }
            },
            Action::Compose => {
                let top = state.frames.last();
                assert((REFLECT_SAMPLES_COUNT - top.bounces) * (1 + ray_cost(top.depth - 1)) == 0)
                    by (nonlinear_arith)
                    requires
                        top.bounces == REFLECT_SAMPLES_COUNT,
                ;
            },
            Action::Finish => {},
        }
    }
}

/// A point on the stack always has at least its sum left to take.
proof fn lemma_frame_cost_positive(frame: FrameState)
    requires
        frame.wf(),
    ensures
        frame_cost(frame) >= 1,
{
    assert((REFLECT_SAMPLES_COUNT - frame.bounces) * (1 + ray_cost(frame.depth - 1)) >= 0)
        by (nonlinear_arith)
        requires
            frame.bounces <= REFLECT_SAMPLES_COUNT,
    ;
}

} // verus!
