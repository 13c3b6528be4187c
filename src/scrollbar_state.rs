//! Where a scrollbar is within its content.

use vstd::prelude::*;

verus! {

/// The scroll position within content of a given length.
#[derive(Debug, Clone, Copy, PartialEq, Eq, Hash, Structural)]
pub struct ScrollbarState {
    /// The total length of the scrollable content.
    pub content_length: usize,
    /// The current position within the content.
    pub position: usize,
    /// The length of content in the viewport; 0 means "the track's length".
    pub viewport_content_length: usize,
}

/// A scrolling direction.
#[derive(Debug, Clone, Copy, PartialEq, Eq, Hash, Structural)]
pub enum ScrollDirection {
    /// Usually downwards or rightwards.
    Forward,
    /// Usually upwards or leftwards.
    Backward,
}

impl Default for ScrollDirection {
    fn default() -> (r: ScrollDirection)
        ensures
            r == ScrollDirection::Forward,
    {
        ScrollDirection::Forward
    }
}

/// The last position within content of length `len`.
pub open spec fn last_position(len: usize) -> int {
    if len == 0 {
        0
    } else {
        len - 1
    }
}

impl Default for ScrollbarState {
    fn default() -> (r: ScrollbarState)
        ensures
            r == (ScrollbarState { content_length: 0, position: 0, viewport_content_length: 0 }),
    {
        ScrollbarState { content_length: 0, position: 0, viewport_content_length: 0 }
    }
}

impl ScrollbarState {
    /// A state at position 0 of content of the given length.
    pub fn new(content_length: usize) -> (r: ScrollbarState)
        ensures
            r == (ScrollbarState { content_length, position: 0, viewport_content_length: 0 }),
    {
        ScrollbarState { content_length, position: 0, viewport_content_length: 0 }
    }

    /// Sets the position.
    pub fn position(self, position: usize) -> (r: ScrollbarState)
        ensures
            r == (ScrollbarState { position, ..self }),
    {
        ScrollbarState { position, ..self }
    }

    /// Sets the content length.
    pub fn content_length(self, content_length: usize) -> (r: ScrollbarState)
        ensures
            r == (ScrollbarState { content_length, ..self }),
    {
        ScrollbarState { content_length, ..self }
    }

    /// Sets the length of content in the viewport.
    pub fn viewport_content_length(self, viewport_content_length: usize) -> (r: ScrollbarState)
        ensures
            r == (ScrollbarState { viewport_content_length, ..self }),
    {
        ScrollbarState { viewport_content_length, ..self }
    }

    /// Moves one step back, stopping at 0.
    pub fn prev(&mut self)
        ensures
            *final(self) == (ScrollbarState {
                position: if old(self).position == 0 {
                    0
                } else {
                    (old(self).position - 1) as usize
                },
                ..*old(self)
            }),
    {
        self.position = self.position.saturating_sub(1);
    }

    /// Moves one step forward, stopping at the last position.
    pub fn next(&mut self)
        ensures
            *final(self) == (ScrollbarState {
                position: if old(self).position + 1 <= last_position(old(self).content_length) {
                    (old(self).position + 1) as usize
                } else {
                    last_position(old(self).content_length) as usize
                },
                ..*old(self)
            }),
    {
        let step = self.position.saturating_add(1);
        let last = self.content_length.saturating_sub(1);
        self.position = if step <= last {
            step
        } else {
            last
        };
    }

    /// Moves to the start.
    pub fn first(&mut self)
        ensures
            *final(self) == (ScrollbarState { position: 0, ..*old(self) }),
    {
        self.position = 0;
    }

    /// Moves to the last position.
    pub fn last(&mut self)
        ensures
            *final(self) == (ScrollbarState {
                position: last_position(old(self).content_length) as usize,
                ..*old(self)
            }),
    {
        self.position = self.content_length.saturating_sub(1);
    }

    /// Moves one step in the given direction.
    pub fn scroll(&mut self, direction: ScrollDirection)
        ensures
            *final(self) == (ScrollbarState {
                position: match direction {
                    ScrollDirection::Forward => if old(self).position + 1 <= last_position(
                        old(self).content_length,
                    ) {
                        (old(self).position + 1) as usize
                    } else {
                        last_position(old(self).content_length) as usize
                    },
                    ScrollDirection::Backward => if old(self).position == 0 {
                        0
                    } else {
                        (old(self).position - 1) as usize
                    },
                },
                ..*old(self)
            }),
    {
        match direction {
            ScrollDirection::Forward => self.next(),
            ScrollDirection::Backward => self.prev(),
        }
    }
}

} // verus!
