//! Lints, their levels, and how the level of a lint is settled.

use vstd::prelude::*;

verus! {

/// Index of a lint in the lint registry.
#[derive(Debug, Clone, Copy, PartialEq, Eq, Hash, PartialOrd, Ord, Structural)]
pub struct Lint(pub u32);

/// Index of an item of the item tree, whatever kind of item it is.
#[derive(Debug, Clone, Copy, PartialEq, Eq, Hash, Structural)]
pub struct ErasedItemTreeId(pub u32);

/// What is done about a lint that fires.
#[derive(Debug, Clone, Copy, PartialEq, Eq, Hash, Structural)]
pub enum LintLevel {
    Deny,
    Warn,
    Allow,
}

impl LintLevel {
    /// The name of the attribute that sets this level.
    pub open spec fn attr_name(self) -> Seq<char> {
        match self {
            LintLevel::Deny => "openvaf_deny"@,
            LintLevel::Warn => "openvaf_warn"@,
            LintLevel::Allow => "openvaf_allow"@,
        }
    }

    /// The name of the attribute that sets this level.
    pub fn attr(&self) -> (name: &'static str)
        ensures
            name@ == self.attr_name(),
    {
        match self {
            LintLevel::Deny => "openvaf_deny",
            LintLevel::Warn => "openvaf_warn",
            LintLevel::Allow => "openvaf_allow",
        }
    }
}

/// Where the level of a lint comes from at one place of a model: the
/// overwrite that the item at that place declares, and the item around it.
#[derive(Debug, Clone, Copy, PartialEq, Eq, Structural)]
pub struct LintSrc {
    pub overwrite: Option<LintLevel>,
    pub item_tree: Option<ErasedItemTreeId>,
}

/// The level at which a lint is reported, and whether that is the default
/// level of the lint.
///
/// An overwrite that an enclosing item declares wins over an overwrite for
/// the whole file, and that over the default.
pub fn lint_lvl<Level>(
    overwrite: Option<Level>,
    global_overwrite: Option<Level>,
    default_lvl: Level,
) -> (res: (Level, bool))
    ensures
        res == match (overwrite, global_overwrite) {
            (Some(lvl), _) => (lvl, false),
            (None, Some(lvl)) => (lvl, false),
            (None, None) => (default_lvl, true),
        },
{
    if let Some(lvl) = overwrite {
        return (lvl, false);
    }
    if let Some(lvl) = global_overwrite {
        return (lvl, false);
    }
    (default_lvl, true)
}

} // verus!
