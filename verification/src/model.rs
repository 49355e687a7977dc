//! The mathematical model of the registry: two sequences, and the chains
//! that the links between higher-order unknowns form.

use vstd::prelude::*;
use crate::handles::Callback;
use crate::handles::CfgParam;
use crate::handles::FirstOrderUnkown;
use crate::handles::NthOrderUnkownInfo;
use crate::handles::Unkown;

verus! {

/// What a registry holds, as plain sequences.
pub struct UnkownsView {
    /// The registered callbacks with their coefficient lists; the position of
    /// an entry is the value of its first-order handle.
    pub first_order: Seq<(Callback, Seq<(CfgParam, u64)>)>,
    /// The interned chain nodes in the order of their creation; the node at
    /// position `i` has the handle `first_order.len() + i`.
    pub higher_order: Seq<NthOrderUnkownInfo>,
}

impl UnkownsView {
    /// The number of unknowns, first- and higher-order together.
    pub open spec fn len(self) -> nat {
        self.first_order.len() + self.higher_order.len()
    }

    /// Whether `unkown` is a handle of this registry.
    pub open spec fn contains(self, unkown: Unkown) -> bool {
        unkown.0 < self.len()
    }

    /// Whether `unkown` is a first-order handle of this registry.
    pub open spec fn contains_first_order(self, unkown: FirstOrderUnkown) -> bool {
        unkown.0 < self.first_order.len()
    }

    /// Whether `unkown` lies in the first-order range of the handle space.
    pub open spec fn is_first_order(self, unkown: Unkown) -> bool {
        unkown.0 < self.first_order.len()
    }

    /// The chain node behind a higher-order handle.
    pub open spec fn nth_order_info(self, unkown: Unkown) -> NthOrderUnkownInfo {
        self.higher_order[unkown.0 - self.first_order.len()]
    }

    /// The handle of the chain node at position `index` of the store.
    pub open spec fn nth_order_handle(self, index: int) -> Unkown {
        Unkown((self.first_order.len() + index) as u32)
    }

    /// The invariant of a registry: all handles fit in 32 bits, no callback
    /// and no chain node occurs twice, and every chain node extends an unknown
    /// that was there before it by a registered first-order unknown.
    pub open spec fn wf(self) -> bool {
        &&& self.len() <= u32::MAX
        &&& callbacks_distinct(self.first_order)
        &&& forall|i: int, j: int|
            0 <= i < j < self.higher_order.len() ==> #[trigger] self.higher_order[i]
                != #[trigger] self.higher_order[j]
        &&& forall|i: int|
            0 <= i < self.higher_order.len() ==> {
                &&& (#[trigger] self.higher_order[i]).previous_order.0 < self.first_order.len() + i
                &&& self.higher_order[i].base.0 < self.first_order.len()
            }
    }

    /// The unknown that `unkown` extends; `None` for a first-order unknown.
    pub open spec fn previous_order(self, unkown: Unkown) -> Option<Unkown> {
        if self.is_first_order(unkown) {
            None
        } else {
            Some(self.nth_order_info(unkown).previous_order)
        }
    }

    /// The first-order unknown that the last differentiation step of `unkown`
    /// was taken by: the unknown itself where it is first-order.
    pub open spec fn to_first_order(self, unkown: Unkown) -> FirstOrderUnkown {
        if self.is_first_order(unkown) {
            FirstOrderUnkown(unkown.0)
        } else {
            self.nth_order_info(unkown).base
        }
    }

    /// Whether following the `previous_order` links from `unkown` goes on: it
    /// does for a higher-order handle whose node points below itself, which in
    /// a well-formed registry every higher-order handle does.
    pub open spec fn has_previous(self, unkown: Unkown) -> bool {
        &&& self.contains(unkown)
        &&& !self.is_first_order(unkown)
        &&& self.nth_order_info(unkown).previous_order.0 < unkown.0
    }

    /// The differentiation chain of `unkown`: the first-order unknowns of its
    /// steps, from the most recently applied one down to the root.
    pub open spec fn first_order_unkowns(self, unkown: Unkown) -> Seq<FirstOrderUnkown>
        decreases unkown.0,
    {
        if self.has_previous(unkown) {
            seq![self.to_first_order(unkown)] + self.first_order_unkowns(
                self.nth_order_info(unkown).previous_order,
            )
        } else {
            seq![self.to_first_order(unkown)]
        }
    }

    /// The differentiation order of `unkown`: the length of its chain.
    pub open spec fn order(self, unkown: Unkown) -> nat {
        self.first_order_unkowns(unkown).len()
    }

    /// Whether `ancestor` is `unkown` itself or is reached from it over
    /// `previous_order` links.
    pub open spec fn derives_from(self, unkown: Unkown, ancestor: Unkown) -> bool
        decreases unkown.0,
    {
        unkown == ancestor || (self.has_previous(unkown) && self.derives_from(
            self.nth_order_info(unkown).previous_order,
            ancestor,
        ))
    }

    /// Whether some unknown of the registry has the chain `chain`.
    pub open spec fn has_chain(self, chain: Seq<FirstOrderUnkown>) -> bool {
        exists|unkown: Unkown|
            self.contains(unkown) && #[trigger] self.first_order_unkowns(unkown) == chain
    }

    /// What raising the order of `unkown` by `next` does: the registry `self`
    /// grows into `after`, and `raised` is the handle that comes back.
    ///
    /// Nothing that was there changes.  The chain of `raised` is the chain of
    /// `unkown` with `next` as its new root.  Every chain node that was added
    /// is one that `raised` derives from, so nothing is added that was not
    /// needed to name `raised`: at most one node for each step of `unkown`.
    pub open spec fn raises(
        self,
        unkown: Unkown,
        next: FirstOrderUnkown,
        after: UnkownsView,
        raised: Unkown,
    ) -> bool {
        &&& after.wf()
        &&& self.extended_by(after)
        &&& after.contains(raised)
        &&& after.first_order_unkowns(raised) == self.first_order_unkowns(unkown).push(next)
        &&& after.len() <= self.len() + self.order(unkown)
        &&& forall|index: int|
            self.higher_order.len() <= index < after.higher_order.len() ==> after.derives_from(
                raised,
                #[trigger] after.nth_order_handle(index),
            )
    }

    /// Whether `other` holds everything that `self` holds, at the same
    /// handles: the same first-order unknowns, and the chain nodes of `self`
    /// as the first ones of `other`.
    pub open spec fn extended_by(self, other: UnkownsView) -> bool {
        &&& other.first_order == self.first_order
        &&& self.higher_order.len() <= other.higher_order.len()
        &&& other.higher_order.subrange(0, self.higher_order.len() as int) == self.higher_order
    }
}

/// Whether some entry of `entries` belongs to `callback`.
pub open spec fn has_callback(
    entries: Seq<(Callback, Seq<(CfgParam, u64)>)>,
    callback: Callback,
) -> bool {
    exists|i: int| 0 <= i < entries.len() && (#[trigger] entries[i]).0 == callback
}

/// The position of an entry of `callback`, where `entries` has one.
pub open spec fn callback_position(
    entries: Seq<(Callback, Seq<(CfgParam, u64)>)>,
    callback: Callback,
) -> int {
    choose|i: int| 0 <= i < entries.len() && (#[trigger] entries[i]).0 == callback
}

/// Registering one callback: a callback that is already there keeps its
/// position and takes the new coefficients, a new one goes to the end.
pub open spec fn register(
    entries: Seq<(Callback, Seq<(CfgParam, u64)>)>,
    callback: Callback,
    info: Seq<(CfgParam, u64)>,
) -> Seq<(Callback, Seq<(CfgParam, u64)>)> {
    if has_callback(entries, callback) {
        entries.update(callback_position(entries, callback), (callback, info))
    } else {
        entries.push((callback, info))
    }
}

/// The first-order side of a registry built from `supplied`: the callbacks in
/// the order in which each was first supplied, each with the coefficients it
/// was last supplied with.
pub open spec fn registered(supplied: Seq<(Callback, Seq<(CfgParam, u64)>)>) -> Seq<
    (Callback, Seq<(CfgParam, u64)>),
>
    decreases supplied.len(),
{
    if supplied.len() == 0 {
        Seq::empty()
    } else {
        register(registered(supplied.drop_last()), supplied.last().0, supplied.last().1)
    }
}

/// Whether `supplied[at]` is the last entry that was supplied for its
/// callback.
pub open spec fn supplied_last(supplied: Seq<(Callback, Seq<(CfgParam, u64)>)>, at: int) -> bool {
    &&& 0 <= at < supplied.len()
    &&& forall|later: int|
        at < later < supplied.len() ==> (#[trigger] supplied[later]).0 != supplied[at].0
}

/// Whether `callback` was supplied at position `at` and `other` was not
/// supplied up to there.
pub open spec fn supplied_before(
    supplied: Seq<(Callback, Seq<(CfgParam, u64)>)>,
    at: int,
    callback: Callback,
    other: Callback,
) -> bool {
    &&& 0 <= at < supplied.len()
    &&& supplied[at].0 == callback
    &&& forall|earlier: int| 0 <= earlier <= at ==> (#[trigger] supplied[earlier]).0 != other
}

/// Whether the entry at position `k` of the registry built from `supplied` is
/// the entry that was supplied last for its callback.
pub open spec fn holds_last_supplied(
    supplied: Seq<(Callback, Seq<(CfgParam, u64)>)>,
    k: int,
) -> bool {
    exists|at: int|
        #[trigger] supplied_last(supplied, at) && supplied[at] == registered(supplied)[k]
}

/// Whether the callback at position `k` of the registry built from `supplied`
/// was supplied before the callback at position `l` ever was.
pub open spec fn supplied_first(
    supplied: Seq<(Callback, Seq<(CfgParam, u64)>)>,
    k: int,
    l: int,
) -> bool {
    exists|at: int| #[trigger]
        supplied_before(supplied, at, registered(supplied)[k].0, registered(supplied)[l].0)
}

/// Whether `info` lists a coefficient for `param`.
pub open spec fn has_param(info: Seq<(CfgParam, u64)>, param: CfgParam) -> bool {
    exists|i: int| 0 <= i < info.len() && (#[trigger] info[i]).0 == param
}

/// The bit pattern of the derivative of `param` that `info` lists: that of
/// the first pair for `param`, and the pattern of `0.0`, which is 0, where
/// there is none.
pub open spec fn coefficient(info: Seq<(CfgParam, u64)>, param: CfgParam) -> u64
    decreases info.len(),
{
    if info.len() == 0 {
        0
    } else if info[0].0 == param {
        info[0].1
    } else {
        coefficient(info.drop_first(), param)
    }
}

/// Whether no callback occurs twice in `entries`.
pub open spec fn callbacks_distinct(entries: Seq<(Callback, Seq<(CfgParam, u64)>)>) -> bool {
    forall|i: int, j: int|
        0 <= i < j < entries.len() ==> (#[trigger] entries[i]).0 != (#[trigger] entries[j]).0
}

/// Whether one operation of a registry leads from `history[at]` to the next
/// entry of `history`: a read, which changes nothing, or a raising of some
/// order.
pub open spec fn one_operation(history: Seq<UnkownsView>, at: int) -> bool {
    ||| history[at + 1] == history[at]
    ||| exists|unkown: Unkown, next: FirstOrderUnkown, raised: Unkown|
        #[trigger] history[at].raises(unkown, next, history[at + 1], raised)
}

} // verus!
