//! The fee categories and the names that callers give them.

use vstd::prelude::*;

verus! {

/// The pool that a fee is credited to.
#[derive(Clone, Copy, Debug, PartialEq, Eq, Structural)]
pub enum FeeCategory {
    Platform,
    Leaderboard,
    Creator,
}

/// The category that a name stands for, if it stands for one. Names are
/// matched exactly.
pub open spec fn category_named(name: Seq<char>) -> Option<FeeCategory> {
    if name == "platform"@ {
        Some(FeeCategory::Platform)
    } else if name == "leaderboard"@ {
        Some(FeeCategory::Leaderboard)
    } else if name == "creator"@ {
        Some(FeeCategory::Creator)
    } else {
        None
    }
}

/// Tells whether two pieces of text hold the same characters.
fn same_text(left: &str, right: &str) -> (same: bool)
    ensures
        same == (left@ == right@),
{
    let a = left.to_owned();
    let b = right.to_owned();
    a == b
}

impl FeeCategory {
    /// The name under which callers ask for this category.
    pub open spec fn spec_name(self) -> Seq<char> {
        match self {
            FeeCategory::Platform => "platform"@,
            FeeCategory::Leaderboard => "leaderboard"@,
            FeeCategory::Creator => "creator"@,
        }
    }

    /// The name under which callers ask for this category. The category is
    /// found again under it.
    pub fn name(self) -> (name: &'static str)
        ensures
            name@ == self.spec_name(),
            category_named(name@) == Some(self),
    {
        proof {
            lemma_name_round_trip(self);
        }
        match self {
            FeeCategory::Platform => "platform",
            FeeCategory::Leaderboard => "leaderboard",
            FeeCategory::Creator => "creator",
        }
    }

    /// Resolves a name to its category, or to `None` when no category has
    /// that name.
    pub fn from_name(name: &str) -> (category: Option<FeeCategory>)
        ensures
            category == category_named(name@),
    {
        if same_text(name, "platform") {
            Some(FeeCategory::Platform)
        } else if same_text(name, "leaderboard") {
            Some(FeeCategory::Leaderboard)
        } else if same_text(name, "creator") {
            Some(FeeCategory::Creator)
        } else {
            None
        }
    }
}

/// Every category is found again under its own name: no two categories
/// share one.
pub proof fn lemma_name_round_trip(category: FeeCategory)
    ensures
        category_named(category.spec_name()) == Some(category),
{
    reveal_strlit("platform");
    reveal_strlit("leaderboard");
    reveal_strlit("creator");
    assert("platform"@.len() == 8);
    assert("leaderboard"@.len() == 11);
    assert("creator"@.len() == 7);
}

} // verus!
