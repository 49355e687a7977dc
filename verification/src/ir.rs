//! Nodes of the intermediate representation.

use vstd::prelude::*;
use core::ops::Range;
use crate::ids::AttributeId;
use crate::ids::ExpressionId;
use crate::span::Ident;
use crate::span::Span;

verus! {

/// A node of the representation: whatever it holds, and where it came from.
#[derive(Clone, Copy, Debug)]
pub struct Node<T> {
    pub source: Span,
    pub contents: T,
}

impl<T> Node<T> {
    pub fn new(contents: T, source: Span) -> (node: Self)
        ensures
            node.contents == contents,
            node.source == source,
    {
        Self { contents, source }
    }
}

impl<T: Copy> Node<T> {
    /// A node at the same place with other contents.
    pub fn copy_as<X>(self, contents: X) -> (node: Node<X>)
        ensures
            node.source == self.source,
            node.contents == contents,
    {
        Node { source: self.source, contents }
    }
}

impl<T: Clone> Node<T> {
    /// A node at the same place with other contents.
    pub fn clone_as<X>(&self, contents: X) -> (node: Node<X>)
        ensures
            node.source == self.source,
            node.contents == contents,
    {
        Node { source: self.source, contents }
    }
}

/// One attribute: its name and, where it has one, its value.
#[derive(Copy, Clone, Debug)]
pub struct Attribute {
    pub name: Ident,
    pub value: Option<ExpressionId>,
}

/// The attributes of one object: `len` consecutive ids from `start` on.
#[derive(Clone, Copy, Debug, PartialEq, Structural)]
pub struct Attributes {
    pub start: AttributeId,
    pub len: u8,
}

impl Attributes {
    /// The ids from `start` up to, not including, `end`.  An object has fewer
    /// than 255 attributes.
    pub fn new(start: AttributeId, end: AttributeId) -> (attributes: Self)
        requires
            start.0 <= end.0,
            end.0 - start.0 < 255,
        ensures
            attributes.start == start,
            attributes.len == end.0 - start.0,
    {
        let len = end.index() - start.index();
        Self { start, len: len as u8 }
    }

    /// The ids as a range.
    #[inline]
    pub fn as_range(&self) -> (range: Range<AttributeId>)
        requires
            self.start.0 + self.len <= AttributeId::MAX_INDEX,
        ensures
            range.start == self.start,
            range.end.0 == self.start.0 + self.len,
    {
        self.start..self.end()
    }

    /// The id after the last one.
    #[inline]
    pub fn end(&self) -> (end: AttributeId)
        requires
            self.start.0 + self.len <= AttributeId::MAX_INDEX,
        ensures
            end.0 == self.start.0 + self.len,
    {
        self.start + (self.len as usize)
    }

    /// No attributes.
    pub fn empty() -> (attributes: Self)
        ensures
            attributes.start.0 == 0,
            attributes.len == 0,
    {
        Self { start: AttributeId::from_raw_unchecked(0), len: 0 }
    }
}

impl Attributes {
    /// The ids one by one, in ascending order.
    pub fn ids(&self) -> (ids: Vec<AttributeId>)
        requires
            self.start.0 + self.len <= AttributeId::MAX_INDEX,
        ensures
            ids@.len() == self.len,
            forall|i: int| 0 <= i < self.len ==> (#[trigger] ids@[i]).0 == self.start.0 + i,
    {
        let mut ids: Vec<AttributeId> = Vec::with_capacity(self.len as usize);
        let mut offset: usize = 0;
        while offset < self.len as usize
            invariant
                offset <= self.len,
                self.start.0 + self.len <= AttributeId::MAX_INDEX,
                ids@.len() == offset,
                forall|i: int| 0 <= i < offset ==> (#[trigger] ids@[i]).0 == self.start.0 + i,
            decreases self.len - offset,
        {
            ids.push(self.start + offset);
            offset += 1;
        }
        ids
    }
}

impl Default for Attributes {
    fn default() -> (attributes: Self)
        ensures
            attributes.start.0 == 0,
            attributes.len == 0,
    {
        Self::empty()
    }
}

/// A node that also carries the attributes it was declared with.
#[derive(Clone, Copy, Debug)]
pub struct AttributeNode<T> {
    pub attributes: Attributes,
    pub source: Span,
    pub contents: T,
}

impl<T: Copy + Clone> AttributeNode<T> {
    /// The same node with `f` applied to its contents.
    #[inline]
    pub fn copy_with<X: Clone>(self, f: impl FnOnce(T) -> X) -> (node: AttributeNode<X>)
        requires
            f.requires((self.contents,)),
        ensures
            node.attributes == self.attributes,
            node.source == self.source,
            f.ensures((self.contents,), node.contents),
    {
        AttributeNode {
            attributes: self.attributes,
            source: self.source,
            contents: f(self.contents),
        }
    }

    /// The same node with other contents.
    #[inline]
    pub fn copy_as<X: Clone>(self, contents: X) -> (node: AttributeNode<X>)
        ensures
            node.attributes == self.attributes,
            node.source == self.source,
            node.contents == contents,
    {
        AttributeNode { attributes: self.attributes, source: self.source, contents }
    }
}

impl<T> AttributeNode<T> {
    /// The same node with `f` applied to its contents.
    #[inline]
    pub fn map_with<X>(&self, f: impl FnOnce(&T) -> X) -> (node: AttributeNode<X>)
        requires
            f.requires((&self.contents,)),
        ensures
            node.attributes == self.attributes,
            node.source == self.source,
            f.ensures((&self.contents,), node.contents),
    {
        AttributeNode {
            attributes: self.attributes,
            source: self.source,
            contents: f(&self.contents),
        }
    }

    /// The same node with other contents.
    #[inline]
    pub fn map<X>(&self, contents: X) -> (node: AttributeNode<X>)
        ensures
            node.attributes == self.attributes,
            node.source == self.source,
            node.contents == contents,
    {
        AttributeNode { attributes: self.attributes, source: self.source, contents }
    }
}

#[derive(Copy, Clone, Debug)]
pub enum BuiltInFunctionCall1p {
    Sqrt,
    Exp(bool),
    Ln,
    Log,
    Abs,
    Floor,
    Ceil,
    Sin,
    Cos,
    Tan,
    ArcSin,
    ArcCos,
    ArcTan,
    SinH,
    CosH,
    TanH,
    ArcSinH,
    ArcCosH,
    ArcTanH,
}

#[derive(Copy, Clone, Debug)]
pub enum BuiltInFunctionCall2p {
    Pow,
    Hypot,
    Min,
    Max,
    ArcTan2,
}

#[derive(Copy, Clone, Debug)]
pub enum NoiseSource<Expr, Table> {
    White(Expr),
    Flicker(Expr, Expr),
    Table(Table),
    TableLog(Table),
}

impl<Expr, Table> NoiseSource<Expr, Table> {
    /// What `fold` owes its two functions: each is called on the parts of its
    /// kind, in the order in which the source holds them.
    pub open spec fn foldable<NewExpr, NewTable, FE: FnMut(Expr) -> NewExpr, FT: FnMut(
        Table,
    ) -> NewTable>(self, fold_expr: FE, fold_table: FT) -> bool {
        match self {
            NoiseSource::White(expr) => fold_expr.requires((expr,)),
            NoiseSource::Flicker(expr1, expr2) => fold_expr.requires((expr1,))
                && fold_expr.requires((expr2,)),
            NoiseSource::Table(table) => fold_table.requires((table,)),
            NoiseSource::TableLog(table) => fold_table.requires((table,)),
        }
    }

    /// Whether `folded` is `self` with each part replaced by a result of the
    /// function of its kind.
    pub open spec fn folds_to<NewExpr, NewTable, FE: FnMut(Expr) -> NewExpr, FT: FnMut(
        Table,
    ) -> NewTable>(
        self,
        fold_expr: FE,
        fold_table: FT,
        folded: NoiseSource<NewExpr, NewTable>,
    ) -> bool {
        match (self, folded) {
            (NoiseSource::White(expr), NoiseSource::White(new)) => fold_expr.ensures((expr,), new),
            (NoiseSource::Flicker(expr1, expr2), NoiseSource::Flicker(new1, new2)) => {
                fold_expr.ensures((expr1,), new1) && fold_expr.ensures((expr2,), new2)
            },
            (NoiseSource::Table(table), NoiseSource::Table(new)) => fold_table.ensures(
                (table,),
                new,
            ),
            (NoiseSource::TableLog(table), NoiseSource::TableLog(new)) => fold_table.ensures(
                (table,),
                new,
            ),
            _ => false,
        }
    }

    /// The same kind of source with every expression folded by `fold_expr`
    /// and every table by `fold_table`.
    pub fn fold<NewExpr, NewTable>(
        self,
        mut fold_expr: impl FnMut(Expr) -> NewExpr,
        mut fold_table: impl FnMut(Table) -> NewTable,
    ) -> (folded: NoiseSource<NewExpr, NewTable>)
        requires
            self.foldable(fold_expr, fold_table),
        ensures
            self.folds_to(fold_expr, fold_table, folded),
    {
        match self {
            NoiseSource::White(expr) => NoiseSource::White(fold_expr(expr)),
            NoiseSource::Flicker(expr1, expr2) => {
                NoiseSource::Flicker(fold_expr(expr1), fold_expr(expr2))
            },
            NoiseSource::Table(table) => NoiseSource::Table(fold_table(table)),
            NoiseSource::TableLog(table) => NoiseSource::TableLog(fold_table(table)),
        }
    }
}

#[derive(Clone, Debug)]
pub enum SystemFunctionCall<RealExpr, StrExpr, Port, Parameter> {
    Temperature,
    Vt(Option<RealExpr>),
    Simparam(StrExpr, Option<RealExpr>),
    SimparamStr(StrExpr),
    PortConnected(Port),
    ParameterGiven(Parameter),
}

#[derive(Clone, Debug, Copy)]
pub enum DisplayTaskKind {
    Convergence(bool),
    Debug,
}

/// One end of a range of parameter values.
#[derive(Clone, Copy, Debug, PartialEq)]
pub struct NumericalParameterRangeBound<T> {
    pub inclusive: bool,
    pub bound: T,
}

impl<T: Copy> NumericalParameterRangeBound<T> {
    /// Whether `mapped` is what a call of `f` on the bound may give: the
    /// bound with a result of `f` in place of its value, or nothing where `f`
    /// gave nothing.
    pub open spec fn maps_to<N, F: FnMut(T) -> Option<N>>(
        self,
        f: F,
        mapped: Option<NumericalParameterRangeBound<N>>,
    ) -> bool {
        match mapped {
            Some(bound) => bound.inclusive == self.inclusive && f.ensures(
                (self.bound,),
                Some(bound.bound),
            ),
            None => f.ensures((self.bound,), None),
        }
    }

    /// The same bound with `f` applied to its value.
    pub fn copy_with<N>(self, f: impl FnOnce(T) -> N) -> (bound: NumericalParameterRangeBound<N>)
        requires
            f.requires((self.bound,)),
        ensures
            bound.inclusive == self.inclusive,
            f.ensures((self.bound,), bound.bound),
    {
        NumericalParameterRangeBound { inclusive: self.inclusive, bound: f(self.bound) }
    }

    /// The same bound with `f` applied to its value.
    pub fn copy_with_ref<N>(self, f: &mut impl FnMut(T) -> N) -> (bound:
        NumericalParameterRangeBound<N>)
        requires
            (*old(f)).requires((self.bound,)),
        ensures
            bound.inclusive == self.inclusive,
            (*old(f)).ensures((self.bound,), bound.bound),
            *final(f) == *old(f),
    {
        broadcast use vstd::function::group_function_axioms;

        NumericalParameterRangeBound { inclusive: self.inclusive, bound: f(self.bound) }
    }

    /// The same bound with `f` applied to its value; nothing where `f` gives
    /// nothing.
    pub fn try_copy_with<N>(self, f: impl FnOnce(T) -> Option<N>) -> (bound: Option<
        NumericalParameterRangeBound<N>,
    >)
        requires
            f.requires((self.bound,)),
        ensures
            match bound {
                Some(bound) => bound.inclusive == self.inclusive && f.ensures(
                    (self.bound,),
                    Some(bound.bound),
                ),
                None => f.ensures((self.bound,), None),
            },
    {
        Some(NumericalParameterRangeBound { inclusive: self.inclusive, bound: f(self.bound)? })
    }

    /// The same bound with `f` applied to its value; nothing where `f` gives
    /// nothing.
    pub fn try_copy_with_ref<N>(self, f: &mut impl FnMut(T) -> Option<N>) -> (bound: Option<
        NumericalParameterRangeBound<N>,
    >)
        requires
            (*old(f)).requires((self.bound,)),
        ensures
            self.maps_to(*old(f), bound),
            *final(f) == *old(f),
    {
        broadcast use vstd::function::group_function_axioms;

        Some(NumericalParameterRangeBound { inclusive: self.inclusive, bound: f(self.bound)? })
    }
}

/// `Clone` for `core::ops::Range`, which the derived `Clone` of
/// [`NumericalParameterRangeExclude`] calls.  Nothing is claimed of its result.
pub assume_specification<Idx: Clone>[ <std::ops::Range<Idx> as Clone>::clone ](
    source: &std::ops::Range<Idx>,
) -> (res: std::ops::Range<Idx>)
;

/// What a parameter may not be: one value, or any value of a range.
#[derive(Clone, Debug, PartialEq)]
pub enum NumericalParameterRangeExclude<T> {
    Value(T),
    Range(Range<NumericalParameterRangeBound<T>>),
}

pub enum FunctionType {
    Real,
    Integer,
}

impl<T: Copy> NumericalParameterRangeExclude<T> {
    /// What `clone_with` and `try_clone_with` owe `f`: it is called on the one
    /// value, or on the bound at the start and on the bound at the end.
    pub open spec fn mappable<N, F: FnMut(T) -> N>(self, f: F) -> bool {
        match self {
            NumericalParameterRangeExclude::Value(val) => f.requires((val,)),
            NumericalParameterRangeExclude::Range(range) => f.requires((range.start.bound,))
                && f.requires((range.end.bound,)),
        }
    }

    /// The same exclusion with `f` applied to its value or to both its bounds.
    pub fn clone_with<N>(&self, mut f: impl FnMut(T) -> N) -> (mapped:
        NumericalParameterRangeExclude<N>)
        requires
            self.mappable(f),
        ensures
            match (*self, mapped) {
                (
                    NumericalParameterRangeExclude::Value(val),
                    NumericalParameterRangeExclude::Value(new),
                ) => f.ensures((val,), new),
                (
                    NumericalParameterRangeExclude::Range(range),
                    NumericalParameterRangeExclude::Range(new),
                ) => {
                    &&& new.start.inclusive == range.start.inclusive
                    &&& new.end.inclusive == range.end.inclusive
                    &&& f.ensures((range.start.bound,), new.start.bound)
                    &&& f.ensures((range.end.bound,), new.end.bound)
                },
                _ => false,
            },
    {
        match self {
            NumericalParameterRangeExclude::Value(val) => {
                NumericalParameterRangeExclude::Value(f(*val))
            },
            NumericalParameterRangeExclude::Range(range) => NumericalParameterRangeExclude::Range(
                range.start.copy_with_ref(&mut f)..range.end.copy_with_ref(&mut f),
            ),
        }
    }

    /// The same exclusion with `f` applied to its value or to both its bounds;
    /// nothing as soon as `f` gives nothing.  The bound at the end is only
    /// looked at where the bound at the start gave something.
    pub fn try_clone_with<N>(&self, mut f: impl FnMut(T) -> Option<N>) -> (mapped: Option<
        NumericalParameterRangeExclude<N>,
    >)
        requires
            self.mappable(f),
        ensures
            match (*self, mapped) {
                (NumericalParameterRangeExclude::Value(val), None) => f.ensures((val,), None),
                (
                    NumericalParameterRangeExclude::Value(val),
                    Some(NumericalParameterRangeExclude::Value(new)),
                ) => f.ensures((val,), Some(new)),
                (NumericalParameterRangeExclude::Range(range), None) => {
                    ||| range.start.maps_to(f, None)
                    ||| (exists|start: NumericalParameterRangeBound<N>|
                        range.start.maps_to(f, Some(start))) && range.end.maps_to(f, None)
                },
                (
                    NumericalParameterRangeExclude::Range(range),
                    Some(NumericalParameterRangeExclude::Range(new)),
                ) => range.start.maps_to(f, Some(new.start)) && range.end.maps_to(
                    f,
                    Some(new.end),
                ),
                _ => false,
            },
    {
        Some(
            match self {
                NumericalParameterRangeExclude::Value(val) => {
                    NumericalParameterRangeExclude::Value(f(*val)?)
                },
                NumericalParameterRangeExclude::Range(range) => {
                    NumericalParameterRangeExclude::Range(
                        range.start.try_copy_with_ref(&mut f)?..range.end.try_copy_with_ref(
                            &mut f,
                        )?,
                    )
                },
            },
        )
    }
}

} // verus!
