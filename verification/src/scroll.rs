//! Scrollbar bookkeeping: orientation, index range and thumb-position
//! arithmetic. The widget's elements and event wiring live with the host
//! application; this is the pure state behind them.
//!
//! A range is always kept in valid order: setting a degenerate range
//! (minimum above maximum) swaps the two bounds instead of silently
//! producing an inverted range.

use vstd::prelude::*;

verus! {

/// Which way a scrollbar runs.
#[derive(Clone, Copy, Debug, PartialEq, Eq, Structural)]
pub enum ScrollBarOrientation {
    Vertical,
    Horizontal,
}

impl ScrollBarOrientation {
    /// The orientation's display name.
    pub fn as_str(&self) -> (s: &'static str)
        ensures
            *self is Vertical ==> s@ == "Vertical"@,
            *self is Horizontal ==> s@ == "Horizontal"@,
    {
        match self {
            ScrollBarOrientation::Vertical => "Vertical",
            ScrollBarOrientation::Horizontal => "Horizontal",
        }
    }
}

/// Construction options for a scrollbar: an optional starting index and
/// an optional `(min, max)` index range.
pub struct ScrollBarOption {
    pub index: Option<u32>,
    pub range: Option<(u32, u32)>,
}

/// The pure state of one scrollbar.
pub struct ScrollBarState {
    pub orientation: ScrollBarOrientation,
    pub min: u32,
    pub max: u32,
    pub index: u32,
    pub content_size: u32,
    pub thumb_max: u32,
    pub increment: u32,
}

impl ScrollBarState {
    /// The range is in valid order and its size is representable.
    pub open spec fn wf(self) -> bool {
        &&& self.min <= self.max
        &&& self.max - self.min < u32::MAX
        &&& self.content_size == self.max - self.min + 1
    }

    /// A fresh vertical scrollbar. A missing range defaults to
    /// `(0, 100)`; a degenerate range is swapped into valid order; a
    /// missing index defaults to the range minimum.
    pub fn new(options: ScrollBarOption) -> (s: ScrollBarState)
        requires
            options.range matches Some(p) ==> -(u32::MAX as int) < p.0 - p.1 < u32::MAX,
        ensures
            s.wf(),
            s.orientation is Vertical,
            match options.range {
                Some(p) => (s.min == if p.0 <= p.1 {
                    p.0
                } else {
                    p.1
                }) && (s.max == if p.0 <= p.1 {
                    p.1
                } else {
                    p.0
                }),
                None => s.min == 0 && s.max == 100,
            },
            s.index == match options.index {
                Some(idx) => idx,
                None => 0,
            },
            s.thumb_max == 1,
            s.increment == 1,
    {
        let (min, max): (u32, u32) = match options.range {
            Some((a, b)) => if a <= b {
                (a, b)
            } else {
                (b, a)
            },
            None => (0, 100),
        };
        let index = match options.index {
            Some(idx) => idx,
            None => 0,
        };
        ScrollBarState {
            orientation: ScrollBarOrientation::Vertical,
            min,
            max,
            index,
            content_size: max - min + 1,
            thumb_max: 1,
            increment: 1,
        }
    }

    pub fn set_orientation(&mut self, orientation: ScrollBarOrientation)
        ensures
            final(self).orientation == orientation,
            final(self).min == old(self).min,
            final(self).max == old(self).max,
            final(self).index == old(self).index,
            final(self).content_size == old(self).content_size,
            final(self).thumb_max == old(self).thumb_max,
            final(self).increment == old(self).increment,
    {
        self.orientation = orientation;
    }

    pub fn get_orientation(&self) -> (o: &ScrollBarOrientation)
        ensures
            *o == self.orientation,
    {
        &self.orientation
    }

    pub fn get_range(&self) -> (r: (u32, u32))
        ensures
            r.0 == self.min,
            r.1 == self.max,
    {
        (self.min, self.max)
    }

    /// Set the index range. A degenerate request (`max` below `min`) is
    /// swapped into valid order, never stored inverted.
    pub fn set_range(&mut self, min: u32, max: u32)
        requires
            -(u32::MAX as int) < min - max < u32::MAX,
        ensures
            final(self).wf(),
            final(self).min == if min <= max {
                min
            } else {
                max
            },
            final(self).max == if min <= max {
                max
            } else {
                min
            },
            final(self).orientation == old(self).orientation,
            final(self).index == old(self).index,
            final(self).thumb_max == old(self).thumb_max,
            final(self).increment == old(self).increment,
    {
        let (lo, hi): (u32, u32) = if min <= max {
            (min, max)
        } else {
            (max, min)
        };
        self.min = lo;
        self.max = hi;
        self.content_size = hi - lo + 1;
    }

    /// The thumb's pixel position for the current state: how far the
    /// index sits into the range, offset by the thumb bound.
    pub fn scaled_position(&self) -> (px: u64)
        requires
            self.wf(),
            self.min <= self.index,
        ensures
            self.min < self.max ==> px == (self.index - self.min) as int / (self.max
                - self.min) as int + self.thumb_max,
            self.min == self.max ==> px == self.thumb_max,
    {
        if self.min < self.max {
            ((self.index - self.min) / (self.max - self.min)) as u64 + self.thumb_max as u64
        } else {
            self.thumb_max as u64
        }
    }

    /// Move to `idx`, clamped into the configured range, and report the
    /// thumb's new pixel position.
    pub fn set_index(&mut self, idx: u32) -> (px: u64)
        requires
            old(self).wf(),
        ensures
            final(self).wf(),
            final(self).index == if idx < old(self).min {
                old(self).min
            } else if idx > old(self).max {
                old(self).max
            } else {
                idx
            },
            final(self).orientation == old(self).orientation,
            final(self).min == old(self).min,
            final(self).max == old(self).max,
            final(self).thumb_max == old(self).thumb_max,
            final(self).increment == old(self).increment,
            px == final(self).scaled_spec(),
    {
        let clamped = if idx < self.min {
            self.min
        } else if idx > self.max {
            self.max
        } else {
            idx
        };
        self.set_scroll(clamped, None)
    }

    /// The thumb position `scaled_position` reports, as a spec value.
    pub open spec fn scaled_spec(self) -> int {
        if self.min < self.max {
            (self.index - self.min) as int / (self.max - self.min) as int + self.thumb_max
        } else {
            self.thumb_max as int
        }
    }

    /// Move to `idx` and report the thumb's pixel position: the given
    /// override if one is supplied, the computed position otherwise.
    pub fn set_scroll(&mut self, idx: u32, scaled: Option<u64>) -> (px: u64)
        requires
            old(self).wf(),
            old(self).min <= idx <= old(self).max,
        ensures
            final(self).wf(),
            final(self).index == idx,
            final(self).orientation == old(self).orientation,
            final(self).min == old(self).min,
            final(self).max == old(self).max,
            final(self).thumb_max == old(self).thumb_max,
            final(self).increment == old(self).increment,
            px == match scaled {
                Some(v) => v as int,
                None => final(self).scaled_spec(),
            },
    {
        self.index = idx;
        match scaled {
            Some(v) => v,
            None => self.scaled_position(),
        }
    }

    /// A wheel tick advances the index by five, saturating at the top of
    /// the index type.
    pub fn on_wheel(&mut self)
        ensures
            final(self).index == if old(self).index <= u32::MAX - 5 {
                old(self).index + 5
            } else {
                u32::MAX as int
            },
            final(self).orientation == old(self).orientation,
            final(self).min == old(self).min,
            final(self).max == old(self).max,
            final(self).content_size == old(self).content_size,
            final(self).thumb_max == old(self).thumb_max,
            final(self).increment == old(self).increment,
    {
        if self.index <= u32::MAX - 5 {
            self.index = self.index + 5;
        } else {
            self.index = u32::MAX;
        }
    }
}

} // verus!
