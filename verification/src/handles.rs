//! The four draggable handles and their hover and drag state machine.

use vstd::prelude::*;
use crate::geometry::{Point, Segment};

verus! {

/// A draggable control point: a centre and the radius of the disc around it
/// that reacts to the pointer.
#[derive(Clone, Copy, Debug, PartialEq, Eq, Structural)]
pub struct Handle {
    pub position: Point,
    pub radius: u32,
}

/// What the host reports of the pointer for one frame, with the position
/// already in world coordinates.
#[derive(Clone, Copy, Debug, PartialEq, Eq, Structural)]
pub struct PointerState {
    pub position: Point,
    /// The primary button is held during this frame.
    pub button_down: bool,
    /// The primary button went from held to free in this frame.
    pub button_released: bool,
}

/// The state of one handle during a frame.
#[derive(Clone, Copy, Debug, PartialEq, Eq, Structural)]
pub enum HandleState {
    Idle,
    Hovered,
    Dragging,
}

/// The colour role a handle is drawn with. The host maps each role to a
/// colour of its palette.
#[derive(Clone, Copy, Debug, PartialEq, Eq, Structural)]
pub enum HandleColor {
    Default,
    Hover,
    Active,
}

/// Where and how to draw one handle.
#[derive(Clone, Copy, Debug, PartialEq, Eq, Structural)]
pub struct HandleRender {
    pub position: Point,
    pub color: HandleColor,
}

impl Handle {
    /// The pointer is on the handle when its distance to the centre is at
    /// most the radius; the rim counts.
    pub open spec fn spec_contains(self, p: Point) -> bool {
        p.spec_distance_squared(self.position) <= self.radius * self.radius
    }

    /// A handle centred at `(center_x, center_y)`.
    pub fn new(center_x: i32, center_y: i32, radius: u32) -> (h: Handle)
        ensures
            h == (Handle { position: Point { x: center_x, y: center_y }, radius }),
    {
        Handle { position: Point { x: center_x, y: center_y }, radius }
    }

    /// The hit test: whether the pointer at `p` is on the handle.
    pub fn contains(&self, p: Point) -> (hit: bool)
        ensures
            hit == self.spec_contains(p),
    {
        let r: u128 = self.radius as u128;
        assert(r * r <= 0xffff_ffff * 0xffff_ffff) by (nonlinear_arith)
            requires
                0 <= r <= 0xffff_ffff,
        ;
        p.distance_squared(&self.position) <= r * r
    }
}

impl HandleState {
    /// Dragging comes before hovering, and hovering before idle.
    pub open spec fn spec_select(dragged: bool, hovered: bool) -> HandleState {
        if dragged {
            HandleState::Dragging
        } else if hovered {
            HandleState::Hovered
        } else {
            HandleState::Idle
        }
    }

    /// The state of a handle, given whether it is being dragged and whether
    /// the pointer is on it.
    pub fn select(dragged: bool, hovered: bool) -> (state: HandleState)
        ensures
            state == Self::spec_select(dragged, hovered),
    {
        if dragged {
            HandleState::Dragging
        } else if hovered {
            HandleState::Hovered
        } else {
            HandleState::Idle
        }
    }

    /// Dragging shows the active colour, hovering the hover colour, and an
    /// idle handle the default one.
    pub open spec fn spec_color(self) -> HandleColor {
        match self {
            HandleState::Dragging => HandleColor::Active,
            HandleState::Hovered => HandleColor::Hover,
            HandleState::Idle => HandleColor::Default,
        }
    }

    /// The colour role that shows this state.
    pub fn color(self) -> (c: HandleColor)
        ensures
            c == self.spec_color(),
    {
        match self {
            HandleState::Dragging => HandleColor::Active,
            HandleState::Hovered => HandleColor::Hover,
            HandleState::Idle => HandleColor::Default,
        }
    }
}

/// The mathematical content of a handle set: the four handles in order, and
/// the index of the one being dragged, if any.
pub struct HandleSetModel {
    pub handles: Seq<Handle>,
    pub dragging: Option<int>,
}

impl HandleSetModel {
    /// There are four handles, all of one radius, and the drag index, if
    /// there is one, names one of them.
    pub open spec fn wf(self) -> bool {
        &&& self.handles.len() == 4
        &&& forall|i: int| 0 <= i < 4 ==> (#[trigger] self.handles[i]).radius == self.radius()
        &&& self.dragging matches Some(k) ==> 0 <= k < 4
    }

    /// The radius that all handles share.
    pub open spec fn radius(self) -> u32 {
        self.handles[0].radius
    }

    /// The centres of the four handles: the control points of the curve.
    pub open spec fn positions(self) -> Seq<Point> {
        Seq::new(4, |i: int| self.handles[i].position)
    }

    /// The two edges of the control polygon that are drawn: from the first
    /// handle to the second, and from the third to the fourth.
    pub open spec fn polygon(self) -> Seq<Segment> {
        seq![
            Segment { start: self.handles[0].position, end: self.handles[1].position },
            Segment { start: self.handles[2].position, end: self.handles[3].position },
        ]
    }

    /// Whether the pointer is on handle `i`.
    pub open spec fn hovered(self, i: int, pointer: Point) -> bool {
        self.handles[i].spec_contains(pointer)
    }

    /// The state of handle `i` while the pointer is at `pointer`: dragging
    /// comes before hovering, hovering before idle.
    pub open spec fn state(self, i: int, pointer: Point) -> HandleState {
        HandleState::spec_select(self.dragging == Some(i), self.hovered(i, pointer))
    }

    /// The states of the four handles while the pointer is at `pointer`.
    pub open spec fn states(self, pointer: Point) -> Seq<HandleState> {
        Seq::new(4, |i: int| self.state(i, pointer))
    }

    /// The lowest index in `from..to` whose handle is under the pointer.
    pub open spec fn first_hovered(self, pointer: Point, from: int, to: int) -> Option<int>
        decreases to - from,
    {
        if to <= from {
            None
        } else {
            match self.first_hovered(pointer, from, to - 1) {
                Some(j) => Some(j),
                None => if self.hovered(to - 1, pointer) {
                    Some(to - 1)
                } else {
                    None
                },
            }
        }
    }

    /// What `first_hovered` finds is in range and under the pointer, and no
    /// handle of the range before it is; where it finds nothing, no handle of
    /// the range is under the pointer.
    pub proof fn lemma_first_hovered(self, pointer: Point, from: int, to: int)
        ensures
            match self.first_hovered(pointer, from, to) {
                Some(j) => {
                    &&& from <= j < to
                    &&& self.hovered(j, pointer)
                    &&& forall|k: int| from <= k < j ==> !self.hovered(k, pointer)
                },
                None => forall|k: int| from <= k < to ==> !self.hovered(k, pointer),
            },
        decreases to - from,
    {
        if to > from {
            self.lemma_first_hovered(pointer, from, to - 1);
        }
    }

    /// The drag index once the handles `0..n` have been visited in a frame.
    ///
    /// A drag in progress lasts until its handle is visited on a frame with a
    /// release. While no drag is in progress and the button is held, the
    /// first visited handle under the pointer begins one. A handle that was
    /// released in this frame cannot begin again in it, nor can one before it.
    pub open spec fn dragging_after(self, input: PointerState, n: int) -> Option<int> {
        match self.dragging {
            Some(k) => if n <= k || !input.button_released {
                Some(k)
            } else if input.button_down {
                self.first_hovered(input.position, k + 1, n)
            } else {
                None
            },
            None => if input.button_down {
                self.first_hovered(input.position, 0, n)
            } else {
                None
            },
        }
    }

    /// Handle `i` after the frame: the dragged handle sits at the pointer,
    /// every other handle stays where it was.
    pub open spec fn handle_after(self, input: PointerState, i: int) -> Handle {
        if self.dragging == Some(i) {
            Handle { position: input.position, radius: self.handles[i].radius }
        } else {
            self.handles[i]
        }
    }

    /// The handle set after one frame with the given pointer state.
    pub open spec fn step(self, input: PointerState) -> HandleSetModel {
        HandleSetModel {
            handles: Seq::new(4, |i: int| self.handle_after(input, i)),
            dragging: self.dragging_after(input, 4),
        }
    }

    /// What is drawn for the frame: each handle at its position after the
    /// frame, in the colour of the state it had when the frame began.
    pub open spec fn renders(self, input: PointerState) -> Seq<HandleRender> {
        Seq::new(
            4,
            |i: int|
                HandleRender {
                    position: self.handle_after(input, i).position,
                    color: self.state(i, input.position).spec_color(),
                },
        )
    }
}

/// Where the four handles start for an axis of length `axis_length`.
pub open spec fn default_positions(axis_length: int) -> Seq<Point> {
    seq![
        Point { x: 0, y: 0 },
        Point { x: (axis_length / 4) as i32, y: (-(axis_length / 2)) as i32 },
        Point { x: (3 * axis_length / 4) as i32, y: (-(axis_length / 2)) as i32 },
        Point { x: axis_length as i32, y: (-axis_length) as i32 },
    ]
}

/// Four handles, of which at most one is being dragged.
#[derive(Debug)]
pub struct HandleSet {
    handles: [Handle; 4],
    dragging_index: Option<usize>,
}

impl View for HandleSet {
    type V = HandleSetModel;

    closed spec fn view(&self) -> HandleSetModel {
        HandleSetModel {
            handles: self.handles@,
            dragging: match self.dragging_index {
                Some(k) => Some(k as int),
                None => None,
            },
        }
    }
}

impl Clone for HandleSet {
    fn clone(&self) -> (copy: HandleSet)
        ensures
            copy@ == self@,
    {
        proof {
            use_type_invariant(self);
        }
        HandleSet { handles: self.handles, dragging_index: self.dragging_index }
    }
}

impl HandleSet {
    #[verifier::type_invariant]
    spec fn inv(self) -> bool {
        self@.wf()
    }

    /// Four idle handles of one radius at the given positions.
    pub fn new(positions: [Point; 4], radius: u32) -> (set: HandleSet)
        ensures
            set@.wf(),
            set@.positions() == positions@,
            set@.radius() == radius,
            set@.dragging is None,
    {
        let set = HandleSet {
            handles: [
                Handle { position: positions[0], radius },
                Handle { position: positions[1], radius },
                Handle { position: positions[2], radius },
                Handle { position: positions[3], radius },
            ],
            dragging_index: None,
        };
        assert(set@.positions() =~= positions@);
        set
    }

    /// The layout the editor starts with, for an axis of the given length:
    /// the curve runs from the origin to `(L, −L)`, pulled by `(L/4, −L/2)`
    /// and `(3L/4, −L/2)`. Fractions are cut off towards zero.
    pub fn default_layout(axis_length: u32, radius: u32) -> (set: HandleSet)
        requires
            axis_length <= i32::MAX,
        ensures
            set@.wf(),
            set@.positions() == default_positions(axis_length as int),
            set@.radius() == radius,
            set@.dragging is None,
    {
        let length: i32 = axis_length as i32;
        let quarter: i32 = (axis_length / 4) as i32;
        let half: i32 = (axis_length / 2) as i32;
        let three_quarters: i32 = (3 * (axis_length as u64) / 4) as i32;
        HandleSet::new(
            [
                Point { x: 0, y: 0 },
                Point { x: quarter, y: -half },
                Point { x: three_quarters, y: -half },
                Point { x: length, y: -length },
            ],
            radius,
        )
    }

    /// The index of the handle that is being dragged, if one is.
    pub fn dragging_index(&self) -> (index: Option<usize>)
        ensures
            self@.wf(),
            match index {
                Some(k) => self@.dragging == Some(k as int),
                None => self@.dragging is None,
            },
    {
        proof {
            use_type_invariant(self);
        }
        self.dragging_index
    }

    /// The four handles, in order.
    pub fn handles(&self) -> (handles: [Handle; 4])
        ensures
            handles@ == self@.handles,
    {
        self.handles
    }

    /// The radius that all four handles share.
    pub fn radius(&self) -> (radius: u32)
        ensures
            self@.wf(),
            radius == self@.radius(),
    {
        proof {
            use_type_invariant(self);
        }
        self.handles[0].radius
    }

    /// The state of each handle while the pointer is at `pointer`.
    pub fn states(&self, pointer: Point) -> (states: [HandleState; 4])
        ensures
            states@ == self@.states(pointer),
    {
        let states = [
            self.state_of(0, pointer),
            self.state_of(1, pointer),
            self.state_of(2, pointer),
            self.state_of(3, pointer),
        ];
        assert(states@ =~= self@.states(pointer));
        states
    }

    fn state_of(&self, index: usize, pointer: Point) -> (state: HandleState)
        requires
            index < 4,
        ensures
            state == self@.state(index as int, pointer),
    {
        HandleState::select(self.is_dragged(index), self.handles[index].contains(pointer))
    }

    fn is_dragged(&self, index: usize) -> (dragged: bool)
        ensures
            dragged == (self@.dragging == Some(index as int)),
    {
        match self.dragging_index {
            Some(k) => k == index,
            None => false,
        }
    }

    /// Advances the state machine by one frame.
    ///
    /// The handles are visited in index order. A handle that was being
    /// dragged when the frame began is moved to the pointer; if the button
    /// was released, its drag ends. While no drag is in progress and the
    /// button is held, the first visited handle under the pointer begins one.
    /// Returned are the four handles as they are to be drawn.
    pub fn update(&mut self, pointer: PointerState) -> (renders: [HandleRender; 4])
        ensures
            old(self)@.wf(),
            final(self)@.wf(),
            final(self)@ == old(self)@.step(pointer),
            renders@ == old(self)@.renders(pointer),
    {
        proof {
            use_type_invariant(&*self);
        }
        let ghost pre = self@;
        let mut renders = [HandleRender { position: pointer.position, color: HandleColor::Default };4];
        let mut idx: usize = 0;
        while idx < 4
            invariant
                idx <= 4,
                pre.wf(),
                self@.handles.len() == 4,
                forall|j: int| 0 <= j < idx ==> self@.handles[j] == pre.handle_after(pointer, j),
                forall|j: int| idx <= j < 4 ==> self@.handles[j] == pre.handles[j],
                self@.dragging == pre.dragging_after(pointer, idx as int),
                forall|j: int| 0 <= j < idx ==> renders@[j] == pre.renders(pointer)[j],
            decreases 4 - idx,
        {
            proof {
                use_type_invariant(&*self);
                pre.lemma_first_hovered(pointer.position, 0, idx as int);
                if pre.dragging is Some {
                    pre.lemma_first_hovered(pointer.position, pre.dragging->0 + 1, idx as int);
                }
            }
            let hovered = self.handles[idx].contains(pointer.position);
            let selected = self.is_dragged(idx);
            let state = HandleState::select(selected, hovered);
            if selected {
                self.handles[idx].position = pointer.position;
            }
            renders[idx] = HandleRender { position: self.handles[idx].position, color: state.color() };
            if self.dragging_index.is_none() && hovered && pointer.button_down {
                self.dragging_index = Some(idx);
            }
            if selected && pointer.button_released {
                self.dragging_index = None;
            }
            idx = idx + 1;
        }
        proof {
            use_type_invariant(&*self);
        }
        assert(self@.handles =~= pre.step(pointer).handles);
        assert(renders@ =~= pre.renders(pointer));
        renders
    }

    /// The four control points, in order: the curve runs from the first to
    /// the last, and the two in between pull it.
    pub fn control_points(&self) -> (points: [Point; 4])
        ensures
            points@ == self@.positions(),
    {
        let points = [
            self.handles[0].position,
            self.handles[1].position,
            self.handles[2].position,
            self.handles[3].position,
        ];
        assert(points@ =~= self@.positions());
        points
    }

    /// The two edges of the control polygon that are drawn, each from an
    /// end of the curve to the control point next to it. The edge between
    /// the two inner control points is not among them.
    pub fn control_polygon(&self) -> (edges: [Segment; 2])
        ensures
            edges@ == self@.polygon(),
    {
        let edges = [
            Segment { start: self.handles[0].position, end: self.handles[1].position },
            Segment { start: self.handles[2].position, end: self.handles[3].position },
        ];
        assert(edges@ =~= self@.polygon());
        edges
    }
}

} // verus!
