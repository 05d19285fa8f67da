//! A virtualized table over a line list: it owns a scroll offset measured
//! from the bottom (the most recent line) and computes which slice of the
//! list is visible in a bordered area of a given height, without copying the
//! whole list. Drawing the slice is left to the caller.

use vstd::prelude::*;

verus! {

/// Scroll amount of a step: the explicit amount, or 1.
pub open spec fn scroll_amount(by: Option<usize>) -> int {
    match by {
        Some(n) => n as int,
        None => 1,
    }
}

/// Largest offset the table accepts while scrolling: the index of the oldest
/// line, or 0 when there are no lines. Rendering clamps further, to the
/// height at hand.
pub open spec fn top_offset(line_count: nat) -> int {
    if line_count == 0 {
        0
    } else {
        line_count - 1
    }
}

/// Rows inside a bordered area of height `h`: two rows are reserved for the
/// border.
pub open spec fn inner_height(h: u16) -> int {
    if h >= 2 {
        h - 2
    } else {
        0
    }
}

/// The scroll offset actually used for a render: re-clamped against the line
/// count and the height, so an offset left over from a longer list cannot
/// point past the end.
pub open spec fn clamped_start(offset: nat, line_count: nat, h: u16) -> int {
    vstd::math::min(offset as int, vstd::math::max(line_count - inner_height(h), 0))
}

/// First index of the visible window: the window covers
/// `[line_count - start - inner, line_count - start)`, clipped at 0, so that
/// offset 0 shows the newest lines and growing offsets walk toward the
/// oldest.
pub open spec fn window_low(offset: nat, line_count: nat, h: u16) -> int {
    vstd::math::max(
        line_count - clamped_start(offset, line_count, h) - inner_height(h),
        0,
    )
}

/// One-past-the-last index of the visible window.
pub open spec fn window_high(offset: nat, line_count: nat, h: u16) -> int {
    line_count - clamped_start(offset, line_count, h)
}

pub struct Table {
    pub y: usize,
    pub data: Vec<String>,
}

impl Table {
    pub fn new(data: Vec<String>) -> (r: Table)
        ensures
            r.y == 0,
            r.data == data,
    {
        Table { y: 0, data }
    }

    /// Scroll toward the newest lines: the offset shrinks by the given
    /// amount (default 1) and stops at 0.
    pub fn scroll_down(&mut self, by: Option<usize>)
        ensures
            final(self).y == vstd::math::max(old(self).y - scroll_amount(by), 0),
            final(self).data == old(self).data,
    {
        let amount = match by {
            Some(n) => n,
            None => 1,
        };
        self.y = self.y.saturating_sub(amount);
    }

    /// Scroll toward the oldest lines: the offset grows by the given amount
    /// (default 1) and stops at the index of the oldest line.
    pub fn scroll_up(&mut self, by: Option<usize>)
        ensures
            final(self).y == vstd::math::min(
                old(self).y + scroll_amount(by),
                top_offset(old(self).data@.len()),
            ),
            final(self).data == old(self).data,
    {
        let amount = match by {
            Some(n) => n,
            None => 1,
        };
        let top = if self.data.len() == 0 {
            0
        } else {
            self.data.len() - 1
        };
        let grown = self.y.saturating_add(amount);
        self.y = if grown < top {
            grown
        } else {
            top
        };
    }

    /// Bounds of the visible window for a render area of height `height`:
    /// the window has exactly `min(line count, height - 2)` lines, sits
    /// inside the list, and scrolls from the bottom upward as the offset
    /// grows.
    pub fn visible_bounds(&self, height: u16) -> (r: (usize, usize))
        ensures
            r.0 == window_low(self.y as nat, self.data@.len(), height),
            r.1 == window_high(self.y as nat, self.data@.len(), height),
            r.1 - r.0 == vstd::math::min(self.data@.len() as int, inner_height(height)),
            0 <= r.0 <= r.1 <= self.data@.len(),
    {
        let n = self.data.len();
        let inner: usize = if height >= 2 {
            (height - 2) as usize
        } else {
            0
        };
        let start = if self.y < n.saturating_sub(inner) {
            self.y
        } else {
            n.saturating_sub(inner)
        };
        let high = n - start;
        let low = high.saturating_sub(inner);
        (low, high)
    }

    /// A copy of exactly the visible window, oldest first, ready to be drawn
    /// top to bottom.
    pub fn visible_slice(&self, height: u16) -> (r: Vec<String>)
        ensures
            r@ == self.data@.subrange(
                window_low(self.y as nat, self.data@.len(), height),
                window_high(self.y as nat, self.data@.len(), height),
            ),
    {
        let (low, high) = self.visible_bounds(height);
        let mut out: Vec<String> = Vec::new();
        let mut i: usize = low;
        while i < high
            invariant
                low <= i <= high,
                high <= self.data@.len(),
                out@ =~= self.data@.subrange(low as int, i as int),
            decreases high - i,
        {
            out.push(self.data[i].clone());
            i = i + 1;
        }
        proof {
            assert(out@ =~= self.data@.subrange(low as int, high as int));
        }
        out
    }

    /// The row of the visible window (counted from its top) that carries
    /// the current-line emphasis: the row showing the line the scroll
    /// offset points at, counted from the newest line, whenever that line
    /// lies inside the window. Exactly one row is emphasized then —
    /// whatever the window's size, so a list shorter than the inner height
    /// still shows its current line.
    pub fn highlight_row(&self, height: u16) -> (r: Option<usize>)
        ensures
            ({
                let low = window_low(self.y as nat, self.data@.len(), height);
                let high = window_high(self.y as nat, self.data@.len(), height);
                let start = clamped_start(self.y as nat, self.data@.len(), height);
                let row = (high - low) - 1 - (self.y - start);
                if 0 <= row < high - low {
                    r == Some(row as usize)
                } else {
                    r is None
                }
            }),
    {
        let n = self.data.len();
        let inner: usize = if height >= 2 {
            (height - 2) as usize
        } else {
            0
        };
        let start = if self.y < n.saturating_sub(inner) {
            self.y
        } else {
            n.saturating_sub(inner)
        };
        let (low, high) = self.visible_bounds(height);
        let count = high - low;
        let delta = self.y - start;
        if delta < count {
            Some(count - 1 - delta)
        } else {
            None
        }
    }
}

/// The viewport invariant: whatever the scroll offset, the line count and
/// the area height, the visible window holds exactly
/// `min(line count, max(0, height - 2))` lines and lies inside the list.
pub proof fn lemma_viewport_window_in_bounds(offset: nat, line_count: nat, h: u16)
    ensures
        window_high(offset, line_count, h) - window_low(offset, line_count, h)
            == vstd::math::min(line_count as int, vstd::math::max(h - 2, 0)),
        0 <= window_low(offset, line_count, h),
        window_low(offset, line_count, h) <= window_high(offset, line_count, h),
        window_high(offset, line_count, h) <= line_count,
        0 <= clamped_start(offset, line_count, h) <= line_count,
{
}

} // verus!
