//! Laws of the handle state machine, over any run of frames.

use vstd::prelude::*;
use crate::geometry::Point;
use crate::handles::{Handle, HandleColor, HandleSetModel, PointerState};

verus! {

impl HandleSetModel {
    /// The handle set after the frames `inputs`, in order.
    pub open spec fn run(self, inputs: Seq<PointerState>) -> HandleSetModel
        decreases inputs.len(),
    {
        if inputs.len() == 0 {
            self
        } else {
            self.run(inputs.drop_last()).step(inputs.last())
        }
    }
}

/// A pointer exactly on the rim of a handle is on the handle.
pub proof fn lemma_rim_is_inside(h: Handle, p: Point)
    requires
        p.spec_distance_squared(h.position) == h.radius * h.radius,
    ensures
        h.spec_contains(p),
{
}

/// A frame leaves a well-formed handle set well-formed, and leaves the
/// radius of the handles as it was.
pub proof fn lemma_step_preserves_wf(m: HandleSetModel, input: PointerState)
    requires
        m.wf(),
    ensures
        m.step(input).wf(),
        m.step(input).radius() == m.radius(),
{
    m.lemma_first_hovered(input.position, 0, 4);
    if m.dragging is Some {
        m.lemma_first_hovered(input.position, m.dragging->0 + 1, 4);
    }
}

/// Whatever frames have passed, at most one handle is being dragged: two
/// handles that are both in the dragging state are the same handle.
pub proof fn lemma_at_most_one_dragging(
    m: HandleSetModel,
    inputs: Seq<PointerState>,
    pointer: Point,
    i: int,
    j: int,
)
    requires
        m.wf(),
        m.run(inputs).state(i, pointer) is Dragging,
        m.run(inputs).state(j, pointer) is Dragging,
    ensures
        m.run(inputs).wf(),
        i == j,
        0 <= i < 4,
{
    lemma_run_preserves_wf(m, inputs);
}

/// Any run of frames leaves a well-formed handle set well-formed: four
/// handles of the radius they began with, and a drag index, if there is
/// one, that names one of them.
pub proof fn lemma_run_preserves_wf(m: HandleSetModel, inputs: Seq<PointerState>)
    requires
        m.wf(),
    ensures
        m.run(inputs).wf(),
        m.run(inputs).radius() == m.radius(),
    decreases inputs.len(),
{
    if inputs.len() > 0 {
        lemma_run_preserves_wf(m, inputs.drop_last());
        lemma_step_preserves_wf(m.run(inputs.drop_last()), inputs.last());
    }
}

/// In every frame at most one handle is drawn in the active colour.
pub proof fn lemma_at_most_one_active(
    m: HandleSetModel,
    inputs: Seq<PointerState>,
    input: PointerState,
    i: int,
    j: int,
)
    requires
        m.wf(),
        0 <= i < 4,
        0 <= j < 4,
        m.run(inputs).renders(input)[i].color == HandleColor::Active,
        m.run(inputs).renders(input)[j].color == HandleColor::Active,
    ensures
        i == j,
{
}

/// A handle that is being dragged sits exactly at the pointer after the
/// frame, and no other handle has moved.
pub proof fn lemma_drag_snap(m: HandleSetModel, input: PointerState, i: int)
    requires
        m.wf(),
        0 <= i < 4,
    ensures
        m.state(i, input.position) is Dragging ==> m.step(input).handles[i].position
            == input.position,
        !(m.state(i, input.position) is Dragging) ==> m.step(input).handles[i] == m.handles[i],
{
}

/// While nothing is dragged and the button is held, the lowest handle under
/// the pointer begins a drag; with no handle under the pointer, or the
/// button free, nothing is dragged after the frame either.
pub proof fn lemma_drag_begins(m: HandleSetModel, input: PointerState)
    requires
        m.wf(),
        m.dragging is None,
    ensures
        match m.step(input).dragging {
            Some(k) => {
                &&& input.button_down
                &&& 0 <= k < 4
                &&& m.hovered(k, input.position)
                &&& forall|j: int| 0 <= j < k ==> !m.hovered(j, input.position)
            },
            None => !input.button_down || forall|j: int|
                0 <= j < 4 ==> !m.hovered(j, input.position),
        },
{
    m.lemma_first_hovered(input.position, 0, 4);
}

/// A drag goes on for as long as no release is seen. A release ends it: with
/// the button free nothing is dragged afterwards, and with the button held
/// the lowest handle under the pointer among those behind the released one
/// begins a drag of its own.
pub proof fn lemma_drag_ends(m: HandleSetModel, input: PointerState, k: int)
    requires
        m.wf(),
        m.dragging == Some(k),
    ensures
        !input.button_released ==> m.step(input).dragging == Some(k),
        input.button_released && !input.button_down ==> m.step(input).dragging is None,
        input.button_released && input.button_down ==> match m.step(input).dragging {
            Some(j) => {
                &&& k < j < 4
                &&& m.hovered(j, input.position)
                &&& forall|l: int| k < l < j ==> !m.hovered(l, input.position)
            },
            None => forall|l: int| k < l < 4 ==> !m.hovered(l, input.position),
        },
{
    m.lemma_first_hovered(input.position, k + 1, 4);
}

} // verus!
