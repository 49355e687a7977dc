//! The attributes by which a model sets the level of a lint.
//!
//! An item of a model may carry the attributes `openvaf_allow`,
//! `openvaf_warn` and `openvaf_deny`.  The value of such an attribute names
//! one lint, as a string, or several, as an array of strings.
//! [`LintAttrs::resolve`] turns the attributes of one item into the
//! overwrites that the item declares and reports what is wrong with them.

use vstd::prelude::*;
use ahash::AHashMap;
use ahash::RandomState;
use crate::lints::ErasedItemTreeId;
use crate::lints::Lint;
use crate::lints::LintLevel;
use crate::lints::LintSrc;
use crate::overwrites::plain_levels;
use crate::overwrites::plain_levels_get;
use crate::overwrites::ranged_levels;
use crate::overwrites::ranged_levels_insert;
use crate::overwrites::ranged_levels_into_levels;
use crate::overwrites::ranged_levels_new;
use crate::span::TextRange;

verus! {

/// `==` on `str`: whether the two strings hold the same characters.
#[verifier::external_body]
fn str_eq(left: &str, right: &str) -> (equal: bool)
    ensures
        equal == (left@ == right@),
{
    left == right
}

/// `str::contains` with the pattern `"::"`: whether two colons stand side by
/// side somewhere in `name`.
#[verifier::external_body]
fn has_path_separator(name: &str) -> (found: bool)
    ensures
        found == names_plugin_lint(name@),
{
    name.contains("::")
}

/// Whether `name` is the name of a lint of a plugin: such names hold `::`
/// between the name of the plugin and that of the lint.
pub open spec fn names_plugin_lint(name: Seq<char>) -> bool {
    exists|i: int| 0 <= i < name.len() - 1 && #[trigger] name[i] == ':' && name[i + 1] == ':'
}

/// The level that an attribute of the name `name` sets, if it sets one.
pub open spec fn level_of_attr(name: Seq<char>) -> Option<LintLevel> {
    if name == "openvaf_allow"@ {
        Some(LintLevel::Allow)
    } else if name == "openvaf_warn"@ {
        Some(LintLevel::Warn)
    } else if name == "openvaf_deny"@ {
        Some(LintLevel::Deny)
    } else {
        None
    }
}

/// The level that an attribute of the name `name` sets, if it sets one.
pub fn attr_level(name: &str) -> (level: Option<LintLevel>)
    ensures
        level == level_of_attr(name@),
{
    if str_eq(name, "openvaf_allow") {
        Some(LintLevel::Allow)
    } else if str_eq(name, "openvaf_warn") {
        Some(LintLevel::Warn)
    } else if str_eq(name, "openvaf_deny") {
        Some(LintLevel::Deny)
    } else {
        None
    }
}

/// Whether `attr` is the name of an attribute that sets the level of a lint:
/// `openvaf_allow`, `openvaf_warn` or `openvaf_deny`.
pub fn is_openvaf_attr(attr: &str) -> (known: bool)
    ensures
        known == level_of_attr(attr@).is_some(),
{
    attr_level(attr).is_some()
}

/// A literal in the value of an attribute.
#[derive(Debug, Clone, PartialEq, Eq)]
pub enum Literal {
    /// A string, without its quotes and escapes, and the lint that the lint
    /// registry knows by that name.
    String { value: String, lint: Option<Lint>, range: TextRange },
    /// Any other literal.
    Other { range: TextRange },
}

/// An element of an array in the value of an attribute.
#[derive(Debug, Clone, PartialEq, Eq)]
pub enum Element {
    Literal(Literal),
    /// Any other expression.
    Other { range: TextRange },
}

/// The value of an attribute.
#[derive(Debug, Clone, PartialEq, Eq)]
pub enum Expr {
    Literal(Literal),
    ArrayExpr(Vec<Element>),
    /// Any other expression.
    Other { range: TextRange },
}

/// One attribute of an item.
#[derive(Debug, Clone, PartialEq, Eq)]
pub struct Attr {
    pub name: Option<String>,
    pub val: Option<Expr>,
    pub range: TextRange,
}

/// What is wrong with an attribute.
#[derive(Debug, Clone, PartialEq, Eq)]
pub enum AttrDiagnostic {
    /// No lint has the name `lint`.
    UnkownLint { range: TextRange, lint: String },
    /// The lint `name` is given a level at `new` though it was already given
    /// one at `old`.
    LintOverwrite { old: TextRange, new: TextRange, name: String },
    /// The attribute `attr` lists something that is no string.
    ExpectedLiteral { range: TextRange, attr: &'static str },
    /// The value of the attribute `attr` is neither a string nor an array, or
    /// is missing.
    ExpectedArrayOrLiteral { range: TextRange, attr: &'static str },
}

/// An [`AttrDiagnostic`] with its strings as sequences of characters.
pub enum AttrDiagnosticView {
    UnkownLint { range: TextRange, lint: Seq<char> },
    LintOverwrite { old: TextRange, new: TextRange, name: Seq<char> },
    ExpectedLiteral { range: TextRange, attr: Seq<char> },
    ExpectedArrayOrLiteral { range: TextRange, attr: Seq<char> },
}

impl View for AttrDiagnostic {
    type V = AttrDiagnosticView;

    open spec fn view(&self) -> AttrDiagnosticView {
        match *self {
            AttrDiagnostic::UnkownLint { range, lint } => AttrDiagnosticView::UnkownLint {
                range,
                lint: lint@,
            },
            AttrDiagnostic::LintOverwrite { old, new, name } => AttrDiagnosticView::LintOverwrite {
                old,
                new,
                name: name@,
            },
            AttrDiagnostic::ExpectedLiteral { range, attr } => AttrDiagnosticView::ExpectedLiteral {
                range,
                attr: attr@,
            },
            AttrDiagnostic::ExpectedArrayOrLiteral {
                range,
                attr,
            } => AttrDiagnosticView::ExpectedArrayOrLiteral { range, attr: attr@ },
        }
    }
}

/// The diagnostics of a list, each as its view.
pub open spec fn diagnostics_view(err: Seq<AttrDiagnostic>) -> Seq<AttrDiagnosticView> {
    err.map_values(|diagnostic: AttrDiagnostic| diagnostic@)
}

/// How far the attributes of an item are resolved: the overwrites seen so
/// far, each with the place it was declared at, and the diagnostics.
pub struct Resolution {
    pub overwrites: Map<u32, (LintLevel, TextRange)>,
    pub diagnostics: Seq<AttrDiagnosticView>,
}

impl Resolution {
    /// Before the first attribute: no overwrites, and the diagnostics that
    /// were there already.
    pub open spec fn start(diagnostics: Seq<AttrDiagnosticView>) -> Resolution {
        Resolution { overwrites: Map::empty(), diagnostics }
    }

    /// The level that each lint with an overwrite is given.
    pub open spec fn levels(self) -> Map<u32, LintLevel> {
        self.overwrites.map_values(|overwrite: (LintLevel, TextRange)| overwrite.0)
    }

    /// With one more diagnostic.
    pub open spec fn report(self, diagnostic: AttrDiagnosticView) -> Resolution {
        Resolution { diagnostics: self.diagnostics.push(diagnostic), ..self }
    }

    /// After a literal in the value of an attribute that sets `lvl`.
    ///
    /// A string that names a lint gives the lint the level; where the lint
    /// already had one from these attributes, that is reported.  A string
    /// that names no lint is reported, unless it has the form of the name of
    /// a plugin's lint: the plugin may just not be in use.  Any other literal
    /// is reported.
    pub open spec fn insert_lint(self, lit: Literal, lvl: LintLevel) -> Resolution {
        match lit {
            Literal::String { value, lint: Some(lint), range } => {
                let inserted = Resolution {
                    overwrites: self.overwrites.insert(lint.0, (lvl, range)),
                    ..self
                };
                if self.overwrites.contains_key(lint.0) {
                    inserted.report(
                        AttrDiagnosticView::LintOverwrite {
                            old: self.overwrites[lint.0].1,
                            new: range,
                            name: value@,
                        },
                    )
                } else {
                    inserted
                }
            },
            Literal::String { value, lint: None, range } => {
                if names_plugin_lint(value@) {
                    self
                } else {
                    self.report(AttrDiagnosticView::UnkownLint { range, lint: value@ })
                }
            },
            Literal::Other { range } => self.report(
                AttrDiagnosticView::ExpectedLiteral { range, attr: lvl.attr_name() },
            ),
        }
    }

    /// After one element of an array in the value of an attribute that sets
    /// `lvl`: a literal counts, anything else is reported.
    pub open spec fn insert_element(self, expr: Element, lvl: LintLevel) -> Resolution {
        match expr {
            Element::Literal(lit) => self.insert_lint(lit, lvl),
            Element::Other { range } => self.report(
                AttrDiagnosticView::ExpectedLiteral { range, attr: lvl.attr_name() },
            ),
        }
    }

    /// After the elements `exprs` of an array, in their order.
    pub open spec fn insert_elements(self, exprs: Seq<Element>, lvl: LintLevel) -> Resolution
        decreases exprs.len(),
    {
        if exprs.len() == 0 {
            self
        } else {
            self.insert_elements(exprs.drop_last(), lvl).insert_element(exprs.last(), lvl)
        }
    }

    /// After one attribute.  An attribute that sets no level is passed over.
    /// The value of one that does is a string, or an array whose elements are
    /// looked at one by one; any other value, and a missing one, is reported.
    pub open spec fn resolve_attr(self, attr: Attr) -> Resolution {
        match attr.name {
            Some(name) => match level_of_attr(name@) {
                Some(lvl) => match attr.val {
                    Some(Expr::Literal(lit)) => match lit {
                        Literal::String { .. } => self.insert_lint(lit, lvl),
                        Literal::Other { range } => self.report(
                            AttrDiagnosticView::ExpectedArrayOrLiteral {
                                range,
                                attr: lvl.attr_name(),
                            },
                        ),
                    },
                    Some(Expr::ArrayExpr(exprs)) => self.insert_elements(exprs@, lvl),
                    Some(Expr::Other { range }) => self.report(
                        AttrDiagnosticView::ExpectedArrayOrLiteral { range, attr: lvl.attr_name() },
                    ),
                    None => self.report(
                        AttrDiagnosticView::ExpectedArrayOrLiteral {
                            range: attr.range,
                            attr: lvl.attr_name(),
                        },
                    ),
                },
                None => self,
            },
            None => self,
        }
    }

    /// After the attributes `attrs`, in their order.
    pub open spec fn resolve_attrs(self, attrs: Seq<Attr>) -> Resolution
        decreases attrs.len(),
    {
        if attrs.len() == 0 {
            self
        } else {
            self.resolve_attrs(attrs.drop_last()).resolve_attr(attrs.last())
        }
    }
}

/// Taking in a literal only ever adds diagnostics, and gives a level to no
/// lint but the one that the literal names.
pub proof fn lemma_insert_lint_adds(before: Resolution, lit: Literal, lvl: LintLevel)
    ensures
        before.diagnostics.is_prefix_of(before.insert_lint(lit, lvl).diagnostics),
        lit matches Literal::String { lint: Some(lint), .. } ==> before.insert_lint(
            lit,
            lvl,
        ).levels() == before.levels().insert(lint.0, lvl),
        !(lit matches Literal::String { lint: Some(_), .. }) ==> before.insert_lint(
            lit,
            lvl,
        ).overwrites == before.overwrites,
{
    if let Literal::String { lint: Some(lint), .. } = lit {
        assert(before.insert_lint(lit, lvl).levels() =~= before.levels().insert(lint.0, lvl));
    }
}

/// Taking in the elements of an array only ever adds diagnostics.
pub proof fn lemma_insert_elements_adds(before: Resolution, exprs: Seq<Element>, lvl: LintLevel)
    ensures
        before.diagnostics.is_prefix_of(before.insert_elements(exprs, lvl).diagnostics),
    decreases exprs.len(),
{
    if exprs.len() > 0 {
        let front = before.insert_elements(exprs.drop_last(), lvl);
        lemma_insert_elements_adds(before, exprs.drop_last(), lvl);
        if let Element::Literal(lit) = exprs.last() {
            lemma_insert_lint_adds(front, lit, lvl);
        }
    }
}

/// Resolving attributes only ever adds diagnostics: those that were there
/// stay, in their order, in front of the new ones.
pub proof fn lemma_resolve_attrs_adds(before: Resolution, attrs: Seq<Attr>)
    ensures
        before.diagnostics.is_prefix_of(before.resolve_attrs(attrs).diagnostics),
    decreases attrs.len(),
{
    if attrs.len() > 0 {
        let front = before.resolve_attrs(attrs.drop_last());
        lemma_resolve_attrs_adds(before, attrs.drop_last());
        let attr = attrs.last();
        if let Some(name) = attr.name {
            if let Some(lvl) = level_of_attr(name@) {
                match attr.val {
                    Some(Expr::Literal(lit)) => {
                        lemma_insert_lint_adds(front, lit, lvl);
                    },
                    Some(Expr::ArrayExpr(exprs)) => {
                        lemma_insert_elements_adds(front, exprs@, lvl);
                    },
                    _ => {},
                }
            }
        }
    }
}

/// The overwrites of lint levels that one item of a model declares.
#[derive(Debug, Default, Clone, PartialEq, Eq)]
pub struct LintAttrs {
    overwrites: AHashMap<u32, LintLevel, RandomState>,
    parent: Option<ErasedItemTreeId>,
}

/// Adds `diagnostic` to `err`.
fn report(err: &mut Vec<AttrDiagnostic>, diagnostic: AttrDiagnostic)
    ensures
        diagnostics_view(final(err)@) == diagnostics_view(old(err)@).push(diagnostic@),
{
    err.push(diagnostic);
    assert(diagnostics_view(err@) =~= diagnostics_view(old(err)@).push(diagnostic@));
}

/// Takes in a literal in the value of an attribute that sets `lvl`.
fn insert_lint(
    lit: &Literal,
    err: &mut Vec<AttrDiagnostic>,
    overwrites: &mut AHashMap<u32, (LintLevel, TextRange), RandomState>,
    lvl: LintLevel,
)
    ensures
        ranged_levels(*final(overwrites)) == resolution(*old(overwrites), old(err)@).insert_lint(
            *lit,
            lvl,
        ).overwrites,
        diagnostics_view(final(err)@) == resolution(*old(overwrites), old(err)@).insert_lint(
            *lit,
            lvl,
        ).diagnostics,
{
    match lit {
        Literal::String { value, lint, range } => {
            let lint = if let Some(lint) = lint {
                *lint
            } else {
                if !has_path_separator(value.as_str()) {
                    // the lints of a plugin that is not in use are fine
                    report(err, AttrDiagnostic::UnkownLint { range: *range, lint: value.clone() });
                }
                return ;
            };
            if let Some((_, old)) = ranged_levels_insert(overwrites, lint.0, (lvl, *range)) {
                report(
                    err,
                    AttrDiagnostic::LintOverwrite { old, new: *range, name: value.clone() },
                );
            }
        },
        Literal::Other { range } => report(
            err,
            AttrDiagnostic::ExpectedLiteral { range: *range, attr: lvl.attr() },
        ),
    }
}

/// What has been resolved when `overwrites` and `err` hold what they hold.
pub open spec fn resolution(
    overwrites: AHashMap<u32, (LintLevel, TextRange), RandomState>,
    err: Seq<AttrDiagnostic>,
) -> Resolution {
    Resolution { overwrites: ranged_levels(overwrites), diagnostics: diagnostics_view(err) }
}

impl LintAttrs {
    /// The level that each lint with an overwrite is given, by the index of
    /// the lint.
    pub closed spec fn overwrites(&self) -> Map<u32, LintLevel> {
        plain_levels(self.overwrites)
    }

    /// The item around the one that declares the overwrites.
    pub closed spec fn parent_item(&self) -> Option<ErasedItemTreeId> {
        self.parent
    }

    /// No overwrites.
    pub fn empty(parent: Option<ErasedItemTreeId>) -> (attrs: LintAttrs)
        ensures
            attrs.overwrites() == Map::<u32, LintLevel>::empty(),
            attrs.parent_item() == parent,
    {
        let overwrites = ranged_levels_into_levels(ranged_levels_new());
        assert(plain_levels(overwrites) =~= Map::<u32, LintLevel>::empty());
        LintAttrs { parent, overwrites }
    }

    /// The overwrites that the attributes `attrs` of an item declare.  What
    /// is wrong with the attributes is added to `err`.
    ///
    /// The attributes are taken in their order and the lints that one
    /// attribute names in theirs; the level that a lint is given last is the
    /// one it has.
    pub fn resolve(
        parent: Option<ErasedItemTreeId>,
        attrs: &Vec<Attr>,
        err: &mut Vec<AttrDiagnostic>,
    ) -> (res: LintAttrs)
        ensures
            res.parent_item() == parent,
            res.overwrites() == Resolution::start(diagnostics_view(old(err)@)).resolve_attrs(
                attrs@,
            ).levels(),
            diagnostics_view(final(err)@) == Resolution::start(
                diagnostics_view(old(err)@),
            ).resolve_attrs(attrs@).diagnostics,
            diagnostics_view(old(err)@).is_prefix_of(diagnostics_view(final(err)@)),
    {
        let ghost start = Resolution::start(diagnostics_view(err@));
        proof {
            lemma_resolve_attrs_adds(start, attrs@);
        }
        let mut overwrites = ranged_levels_new();
        assert(ranged_levels(overwrites) =~= Map::<u32, (LintLevel, TextRange)>::empty());
        let mut i: usize = 0;
        while i < attrs.len()
            invariant
                i <= attrs@.len(),
                resolution(overwrites, err@) == start.resolve_attrs(attrs@.take(i as int)),
            decreases attrs@.len() - i,
        {
            let attr = &attrs[i];
            let ghost before = resolution(overwrites, err@);
            let lvl = match &attr.name {
                Some(name) => attr_level(name.as_str()),
                None => None,
            };
            if let Some(lvl) = lvl {
                match &attr.val {
                    Some(Expr::Literal(lit)) => {
                        match lit {
                            Literal::String { .. } => {
                                insert_lint(lit, err, &mut overwrites, lvl);
                            },
                            Literal::Other { range } => {
                                report(
                                    err,
                                    AttrDiagnostic::ExpectedArrayOrLiteral {
                                        range: *range,
                                        attr: lvl.attr(),
                                    },
                                );
                            },
                        }
                    },
                    Some(Expr::ArrayExpr(exprs)) => {
                        let mut k: usize = 0;
                        while k < exprs.len()
                            invariant
                                k <= exprs@.len(),
                                resolution(overwrites, err@) == before.insert_elements(
                                    exprs@.take(k as int),
                                    lvl,
                                ),
                            decreases exprs@.len() - k,
                        {
                            match &exprs[k] {
                                Element::Literal(lit) => {
                                    insert_lint(lit, err, &mut overwrites, lvl);
                                },
                                Element::Other { range } => {
                                    report(
                                        err,
                                        AttrDiagnostic::ExpectedLiteral {
                                            range: *range,
                                            attr: lvl.attr(),
                                        },
                                    );
                                },
                            }
                            k += 1;
                            proof {
                                assert(exprs@.take(k as int).drop_last() == exprs@.take(k - 1));
                            }
                        }
                        proof {
                            assert(exprs@.take(exprs@.len() as int) == exprs@);
                        }
                    },
                    Some(Expr::Other { range }) => {
                        report(
                            err,
                            AttrDiagnostic::ExpectedArrayOrLiteral {
                                range: *range,
                                attr: lvl.attr(),
                            },
                        );
                    },
                    None => {
                        report(
                            err,
                            AttrDiagnostic::ExpectedArrayOrLiteral {
                                range: attr.range,
                                attr: lvl.attr(),
                            },
                        );
                    },
                }
            }
            i += 1;
            proof {
                assert(attrs@.take(i as int).drop_last() == attrs@.take(i - 1));
                assert(resolution(overwrites, err@) == before.resolve_attr(attrs@[i - 1]));
            }
        }
        proof {
            assert(attrs@.take(attrs@.len() as int) == attrs@);
        }
        LintAttrs { parent, overwrites: ranged_levels_into_levels(overwrites) }
    }

    /// Where the level of `lint` comes from at the item.
    pub fn lint_src(&self, lint: Lint) -> (src: LintSrc)
        ensures
            src.overwrite == self.overwrites().get(lint.0),
            src.item_tree == self.parent_item(),
    {
        LintSrc { overwrite: self.level(lint), item_tree: self.parent() }
    }

    /// The level that the item gives `lint`, if it gives it one.
    pub fn level(&self, lint: Lint) -> (level: Option<LintLevel>)
        ensures
            level == self.overwrites().get(lint.0),
    {
        plain_levels_get(&self.overwrites, lint.0)
    }

    /// The item around the one that declares the overwrites.
    pub fn parent(&self) -> (parent: Option<ErasedItemTreeId>)
        ensures
            parent == self.parent_item(),
    {
        self.parent
    }
}

} // verus!
