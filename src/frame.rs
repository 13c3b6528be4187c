//! The two buffers of the draw cycle: the frame being drawn and the one
//! last shown.

use vstd::prelude::*;
use crate::buffer::{blank_view, diff_upto, update_views, Buffer, Cell};
use crate::geometry::Rect;

verus! {

/// The frame being drawn and the frame last handed to the terminal.
pub struct Frames {
    pub current: Buffer,
    pub previous: Buffer,
}

impl Frames {
    pub open spec fn wf(&self) -> bool {
        self.current.wf() && self.previous.wf() && self.current.area == self.previous.area
    }

    /// Two blank frames over `area`.
    pub fn new(area: Rect) -> (r: Frames)
        requires
            area.wf(),
        ensures
            r.wf(),
            r.current.area == area,
            forall|k: int| 0 <= k < r.current.cells().len() ==> #[trigger] r.current.cells()[k] == blank_view(),
            forall|k: int| 0 <= k < r.previous.cells().len() ==> #[trigger] r.previous.cells()[k] == blank_view(),
    {
        Frames { current: Buffer::empty(area), previous: Buffer::empty(area) }
    }

    /// Starts a frame over `viewport`: the frame to draw is blank. When the
    /// viewport changed size or place, the last frame is forgotten too, so
    /// that everything is drawn again.
    pub fn begin(&mut self, viewport: Rect)
        requires
            old(self).wf(),
            viewport.wf(),
        ensures
            final(self).wf(),
            final(self).current.area == viewport,
            forall|k: int|
                0 <= k < final(self).current.cells().len() ==> #[trigger] final(self).current.cells()[k]
                    == blank_view(),
            old(self).current.area == viewport ==> final(self).previous == old(self).previous,
            old(self).current.area != viewport ==> forall|k: int|
                0 <= k < final(self).previous.cells().len() ==> #[trigger] final(self).previous.cells()[k]
                    == blank_view(),
    {
        if self.current.area != viewport {
            self.previous = Buffer::empty(viewport);
        }
        self.current = Buffer::empty(viewport);
    }

    /// Ends the frame: returns the cells that changed since the last frame,
    /// and keeps the drawn frame as the last one.
    pub fn finish(&mut self) -> (r: Vec<(u16, u16, Cell)>)
        requires
            old(self).wf(),
        ensures
            final(self).wf(),
            update_views(r@) == diff_upto(
                old(self).previous.cells(),
                old(self).current.cells(),
                old(self).current.area,
                old(self).current.cells().len() as int,
            ),
            final(self).previous == old(self).current,
            final(self).current.area == old(self).current.area,
    {
        let updates = self.current.diff(&self.previous);
        std::mem::swap(&mut self.current, &mut self.previous);
        self.current = Buffer::empty(self.previous.area);
        updates
    }
}

} // verus!
