//! Milestone tiers of a lifetime total, measured in months of thirty days.

use vstd::prelude::*;

verus! {

/// Milliseconds in one month of thirty days.
pub const MONTH_MS: i64 = 2_592_000_000;

/// The seven milestone tiers, lowest first.
#[derive(Clone, Copy, Debug, PartialEq, Eq, Structural)]
pub enum Badge {
    White,
    Green,
    Blue,
    Orange,
    Red,
    Yellow,
    Star,
}

/// The tier of a lifetime total of `ms` milliseconds: the first tier whose
/// exclusive upper bound lies above `ms`, and the last tier where none does.
pub open spec fn badge_of(ms: int) -> Badge {
    if ms < 3 * MONTH_MS {
        Badge::White
    } else if ms < 6 * MONTH_MS {
        Badge::Green
    } else if ms < 12 * MONTH_MS {
        Badge::Blue
    } else if ms < 18 * MONTH_MS {
        Badge::Orange
    } else if ms < 24 * MONTH_MS {
        Badge::Red
    } else if ms < 36 * MONTH_MS {
        Badge::Yellow
    } else {
        Badge::Star
    }
}

/// The position of a tier in the order of the tiers, from 0 to 6.
pub open spec fn rank(b: Badge) -> int {
    match b {
        Badge::White => 0,
        Badge::Green => 1,
        Badge::Blue => 2,
        Badge::Orange => 3,
        Badge::Red => 4,
        Badge::Yellow => 5,
        Badge::Star => 6,
    }
}

/// The glyph that stands for a tier.
pub open spec fn glyph_of(b: Badge) -> Seq<char> {
    match b {
        Badge::White => "⚪"@,
        Badge::Green => "🟢"@,
        Badge::Blue => "🔵"@,
        Badge::Orange => "🟠"@,
        Badge::Red => "🔴"@,
        Badge::Yellow => "🟡"@,
        Badge::Star => "⭐"@,
    }
}

impl Badge {
    /// The tier of a lifetime total.
    pub fn of(ms: i64) -> (b: Badge)
        ensures
            b == badge_of(ms as int),
    {
        if ms < 3 * MONTH_MS {
            Badge::White
        } else if ms < 6 * MONTH_MS {
            Badge::Green
        } else if ms < 12 * MONTH_MS {
            Badge::Blue
        } else if ms < 18 * MONTH_MS {
            Badge::Orange
        } else if ms < 24 * MONTH_MS {
            Badge::Red
        } else if ms < 36 * MONTH_MS {
            Badge::Yellow
        } else {
            Badge::Star
        }
    }

    /// The glyph that stands for this tier.
    pub fn glyph(&self) -> (g: &'static str)
        ensures
            g@ == glyph_of(*self),
    {
        match self {
            Badge::White => "⚪",
            Badge::Green => "🟢",
            Badge::Blue => "🔵",
            Badge::Orange => "🟠",
            Badge::Red => "🔴",
            Badge::Yellow => "🟡",
            Badge::Star => "⭐",
        }
    }
}

/// The glyph of the tier that a lifetime total has reached.
pub fn get_badge(time: &i64) -> (glyph: String)
    ensures
        glyph@ == glyph_of(badge_of(*time as int)),
{
    String::from_str(Badge::of(*time).glyph())
}

/// A larger total never has a lower tier.
pub proof fn lemma_badge_monotonic(a: int, b: int)
    requires
        a <= b,
    ensures
        rank(badge_of(a)) <= rank(badge_of(b)),
{
}

} // verus!
