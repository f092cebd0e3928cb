//! One frame of the editor: the handle update followed by a fresh sampling
//! of the curve, gathered as what the host has to draw.

use vstd::prelude::*;
use crate::curve::{is_sampling, sample, CurveSample};
use crate::geometry::Segment;
use crate::handles::{HandleRender, HandleSet, PointerState};

verus! {

/// Length of each of the two axes the editor shows.
pub const AXIS_LENGTH: u32 = 300;

/// Radius of every handle.
pub const HANDLE_RADIUS: u32 = 10;

/// Number of steps the curve is divided into for drawing.
pub const BEZIER_CURVE_RESOLUTION: u32 = 50;

/// Everything the host draws for one frame.
#[derive(Debug)]
pub struct Frame {
    /// The four handles, each with its position and colour.
    pub handles: [HandleRender; 4],
    /// The two edges of the control polygon.
    pub edges: [Segment; 2],
    /// The curve, as the points to mark along it.
    pub samples: Vec<CurveSample>,
}

impl HandleSet {
    /// The layout the editor starts with.
    pub fn initial() -> (set: HandleSet)
        ensures
            set@.wf(),
            set@.positions() == crate::handles::default_positions(AXIS_LENGTH as int),
            set@.radius() == HANDLE_RADIUS,
            set@.dragging is None,
    {
        HandleSet::default_layout(AXIS_LENGTH, HANDLE_RADIUS)
    }

    /// Runs one frame: the handles take the pointer state first, then the
    /// control polygon and the curve are read off the handles as they stand
    /// after that, so a handle that is being dragged takes the curve with it
    /// in the same frame.
    pub fn frame(&mut self, pointer: PointerState, resolution: u32) -> (frame: Frame)
        ensures
            final(self)@ == old(self)@.step(pointer),
            final(self)@.wf(),
            frame.handles@ == old(self)@.renders(pointer),
            frame.edges@ == final(self)@.polygon(),
            is_sampling(
                frame.samples@,
                final(self)@.handles[0].position,
                final(self)@.handles[1].position,
                final(self)@.handles[2].position,
                final(self)@.handles[3].position,
                resolution as int,
            ),
    {
        let handles = self.update(pointer);
        let points = self.control_points();
        let edges = self.control_polygon();
        let samples = sample(points[0], points[1], points[2], points[3], resolution);
        Frame { handles, edges, samples }
    }
}

} // verus!
