//! Display modes of the main screen: where descriptions are shown and how
//! the repository list is ordered.
use vstd::prelude::*;

verus! {

/// Where the descriptions of repositories are shown.
#[derive(Debug, Clone, Copy, PartialEq, Eq, Structural)]
pub enum DescDisplayMode {
    /// In the lower right pane, for the selected repository.
    RightPane,
    /// The one-line description in the repository list.
    LeftShort,
    /// Both descriptions in the repository list.
    LeftShortAndLong,
}

impl Default for DescDisplayMode {
    fn default() -> (r: Self)
        ensures
            r == DescDisplayMode::RightPane,
    {
        DescDisplayMode::RightPane
    }
}

/// The next mode in the cycle right pane, short, short and long.
pub open spec fn cycle_spec(m: DescDisplayMode) -> DescDisplayMode {
    match m {
        DescDisplayMode::RightPane => DescDisplayMode::LeftShort,
        DescDisplayMode::LeftShort => DescDisplayMode::LeftShortAndLong,
        DescDisplayMode::LeftShortAndLong => DescDisplayMode::RightPane,
    }
}

/// Cycling three times returns to the starting mode.
pub proof fn lemma_cycle_period(m: DescDisplayMode)
    ensures
        cycle_spec(cycle_spec(cycle_spec(m))) == m,
        cycle_spec(m) != m,
{
}

impl DescDisplayMode {
    /// The next mode: right pane, then short, then short and long, then
    /// right pane again.
    pub fn cycle(self) -> (r: Self)
        ensures
            r == cycle_spec(self),
    {
        match self {
            DescDisplayMode::RightPane => DescDisplayMode::LeftShort,
            DescDisplayMode::LeftShort => DescDisplayMode::LeftShortAndLong,
            DescDisplayMode::LeftShortAndLong => DescDisplayMode::RightPane,
        }
    }

    /// Whether the lower right pane shows the selected repository's
    /// descriptions.
    pub fn shows_right_desc_pane(self) -> (r: bool)
        ensures
            r == (self == DescDisplayMode::RightPane),
    {
        match self {
            DescDisplayMode::RightPane => true,
            _ => false,
        }
    }

    /// Whether the repository list shows one-line descriptions.
    pub fn shows_inline_short_desc(self) -> (r: bool)
        ensures
            r == (self != DescDisplayMode::RightPane),
    {
        match self {
            DescDisplayMode::RightPane => false,
            _ => true,
        }
    }

    /// Whether the repository list shows three-line descriptions.
    pub fn shows_inline_long_desc(self) -> (r: bool)
        ensures
            r == (self == DescDisplayMode::LeftShortAndLong),
    {
        match self {
            DescDisplayMode::LeftShortAndLong => true,
            _ => false,
        }
    }

    /// The status line shown after switching to this mode.
    pub fn status_message(self) -> (r: &'static str)
        ensures
            r@ == match self {
                DescDisplayMode::RightPane => "desc表示: 右下paneに1行/3行説明"@,
                DescDisplayMode::LeftShort => "desc表示: 左paneに1行説明"@,
                DescDisplayMode::LeftShortAndLong => "desc表示: 左paneに1行説明+3行説明"@,
            },
    {
        match self {
            DescDisplayMode::RightPane => "desc表示: 右下paneに1行/3行説明",
            DescDisplayMode::LeftShort => "desc表示: 左paneに1行説明",
            DescDisplayMode::LeftShortAndLong => "desc表示: 左paneに1行説明+3行説明",
        }
    }

    /// The debug log line written after switching to this mode.
    pub fn debug_log_message(self) -> (r: &'static str)
        ensures
            r@ == match self {
                DescDisplayMode::RightPane => "description display mode: right pane detail mode"@,
                DescDisplayMode::LeftShort => "description display mode: left pane short description"@,
                DescDisplayMode::LeftShortAndLong => "description display mode: left pane short and long descriptions"@,
            },
    {
        match self {
            DescDisplayMode::RightPane => "description display mode: right pane detail mode",
            DescDisplayMode::LeftShort => "description display mode: left pane short description",
            DescDisplayMode::LeftShortAndLong => "description display mode: left pane short and long descriptions",
        }
    }
}

/// How the repository list is ordered.
#[derive(Debug, Clone, Copy, PartialEq, Eq, Structural)]
pub enum SortMode {
    /// Newest created first.
    Created,
    /// Most recently updated first.
    Modified,
}

impl SortMode {
    /// The other order.
    pub fn toggle(self) -> (r: Self)
        ensures
            r != self,
    {
        match self {
            SortMode::Created => SortMode::Modified,
            SortMode::Modified => SortMode::Created,
        }
    }

    /// The order's name in the status line.
    pub fn label(self) -> (r: &'static str)
        ensures
            r@ == match self {
                SortMode::Created => "create"@,
                SortMode::Modified => "modify"@,
            },
    {
        match self {
            SortMode::Created => "create",
            SortMode::Modified => "modify",
        }
    }
}

} // verus!
