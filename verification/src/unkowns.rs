//! The registry of unknowns.

use vstd::prelude::*;
use ahash::RandomState;
use indexmap::IndexMap;
use indexmap::IndexSet;
use crate::handles::Callback;
use crate::handles::CfgParam;
use crate::handles::FirstOrderUnkown;
use crate::handles::FirstOrderUnkownInfo;
use crate::handles::NthOrderUnkown;
use crate::handles::NthOrderUnkownInfo;
use crate::handles::Unkown;
use crate::model::UnkownsView;
use crate::model::callbacks_distinct;
use crate::model::has_callback;
use crate::model::callback_position;
use crate::model::register;
use crate::model::registered;
use crate::laws::lemma_register_keeps_distinct;
use crate::laws::lemma_registered_is_distinct;
use crate::laws::lemma_registered_of_distinct;
use crate::laws::lemma_chain_is_registered;
use crate::laws::lemma_extension_composes;
use crate::laws::lemma_higher_order_unfolds;
use crate::laws::lemma_node_appended;
use crate::laws::lemma_node_found;
use crate::laws::lemma_raise_order_reuses;
use crate::store::has_key;
use crate::store::map_empty;
use crate::store::map_entries;
use crate::store::map_index_of;
use crate::store::map_insert;
use crate::store::map_len;
use crate::store::map_value_at;
use crate::store::set_empty;
use crate::store::set_insert_full;
use crate::store::set_item_at;
use crate::store::set_items;
use crate::store::set_len;

verus! {

/// The unknowns of one compilation unit.
///
/// The first-order unknowns are fixed when the registry is made.  The
/// higher-order unknowns are interned on demand by
/// [`raise_order`](Unkowns::raise_order) and are never removed.
pub struct Unkowns {
    first_order_unkowns: IndexMap<u32, FirstOrderUnkownInfo, RandomState>,
    higher_order_unkowns: IndexSet<(u32, u32), RandomState>,
    buf: Vec<FirstOrderUnkown>,
}

/// What was supplied to [`Unkowns::new`], with each coefficient list as a
/// sequence.
pub open spec fn supplied_view(unkowns: Seq<(Callback, FirstOrderUnkownInfo)>) -> Seq<
    (Callback, Seq<(CfgParam, u64)>),
> {
    unkowns.map_values(|entry: (Callback, FirstOrderUnkownInfo)| (entry.0, entry.1@))
}

/// An entry of the first-order map as the model has it.
spec fn entry_view(entry: (u32, Seq<(CfgParam, u64)>)) -> (Callback, Seq<
    (CfgParam, u64),
>) {
    (Callback(entry.0), entry.1)
}

/// An item of the higher-order set as the model has it.
spec fn node_view(item: (u32, u32)) -> NthOrderUnkownInfo {
    NthOrderUnkownInfo { previous_order: Unkown(item.0), base: FirstOrderUnkown(item.1) }
}

impl View for Unkowns {
    type V = UnkownsView;

    closed spec fn view(&self) -> UnkownsView {
        UnkownsView {
            first_order: map_entries(self.first_order_unkowns).map_values(
                |entry: (u32, Seq<(CfgParam, u64)>)| entry_view(entry),
            ),
            higher_order: set_items(self.higher_order_unkowns).map_values(
                |item: (u32, u32)| node_view(item),
            ),
        }
    }
}

impl Unkowns {
    /// The invariant of the registry: that of its model.
    pub open spec fn wf(&self) -> bool {
        self@.wf()
    }

    /// The number of unknowns, first- and higher-order together.
    pub fn len(&self) -> (len: usize)
        requires
            self.wf(),
        ensures
            len == self@.len(),
    {
        map_len(&self.first_order_unkowns) + set_len(&self.higher_order_unkowns)
    }

    /// The number of first-order unknowns: the handles below it are the
    /// first-order ones.
    pub fn first_order_len(&self) -> (len: usize)
        requires
            self.wf(),
        ensures
            len == self@.first_order.len(),
    {
        map_len(&self.first_order_unkowns)
    }

    /// Whether the registry holds no unknown at all.
    pub fn is_empty(&self) -> (empty: bool)
        requires
            self.wf(),
        ensures
            empty == (self@.len() == 0),
    {
        self.len() == 0
    }

    /// Makes a registry of the callbacks in `unkowns`, in the order given.
    ///
    /// A callback that is supplied more than once is registered once, at the
    /// position of its first occurrence and with the coefficients of its last.
    pub fn new(unkowns: Vec<(Callback, FirstOrderUnkownInfo)>) -> (res: Unkowns)
        requires
            unkowns.len() <= u32::MAX,
        ensures
            res.wf(),
            res@.first_order == registered(supplied_view(unkowns@)),
            callbacks_distinct(supplied_view(unkowns@)) ==> res@.first_order == supplied_view(
                unkowns@,
            ),
            res@.higher_order.len() == 0,
    {
        let ghost supplied = supplied_view(unkowns@);
        let mut first_order_unkowns = map_empty();
        for entry in iter: unkowns
            invariant
                iter.seq() == unkowns@,
                map_entries(first_order_unkowns).map_values(
                    |entry: (u32, Seq<(CfgParam, u64)>)| entry_view(entry),
                ) == registered(supplied.take(iter.index() as int)),
                supplied == supplied_view(unkowns@),
        {
            let ghost before = map_entries(first_order_unkowns);
            let ghost model = before.map_values(
                |entry: (u32, Seq<(CfgParam, u64)>)| entry_view(entry),
            );
            let ghost coefficients = entry.1@;
            let (callback, info) = entry;
            map_insert(&mut first_order_unkowns, callback.0, info);
            proof {
                let after = map_entries(first_order_unkowns);
                let done = iter.index() as int;
                assert(supplied.take(done + 1).drop_last() == supplied.take(done));
                assert(supplied.take(done + 1).last() == (callback, coefficients));
                lemma_registered_is_distinct(supplied.take(done));
                lemma_register_keeps_distinct(model, callback, coefficients);
                if has_key(before, callback.0) {
                    let at = choose|i: int|
                        0 <= i < before.len() && (#[trigger] before[i]).0 == callback.0 && after
                            == before.update(i, (callback.0, coefficients));
                    assert(model[at].0 == callback);
                    assert(has_callback(model, callback));
                    let chosen = callback_position(model, callback);
                    assert(chosen == at) by {
                        if chosen < at {
                            assert(model[chosen].0 != model[at].0);
                        }
                        if at < chosen {
                            assert(model[at].0 != model[chosen].0);
                        }
                    }
                    assert(after.map_values(|entry: (u32, Seq<(CfgParam, u64)>)| entry_view(entry))
                        == register(model, callback, coefficients));
                } else {
                    assert(!has_callback(model, callback)) by {
                        if has_callback(model, callback) {
                            let at = callback_position(model, callback);
                            assert(before[at].0 == callback.0);
                        }
                    }
                    assert(after.map_values(|entry: (u32, Seq<(CfgParam, u64)>)| entry_view(entry))
                        == register(model, callback, coefficients));
                }
            }
        }
        proof {
            assert(supplied.take(unkowns@.len() as int) == supplied);
            lemma_registered_is_distinct(supplied);
            if callbacks_distinct(supplied) {
                lemma_registered_of_distinct(supplied);
            }
        }
        Unkowns {
            first_order_unkowns,
            higher_order_unkowns: set_empty(),
            buf: Vec::with_capacity(8),
        }
    }

    /// The chain node at position `unkown` of the higher-order store.
    fn nth_order_info(&self, unkown: NthOrderUnkown) -> (info: NthOrderUnkownInfo)
        requires
            unkown.0 < self@.higher_order.len(),
        ensures
            info == self@.higher_order[unkown.0 as int],
    {
        let item = set_item_at(&self.higher_order_unkowns, usize::from(unkown));
        NthOrderUnkownInfo { previous_order: Unkown(item.0), base: FirstOrderUnkown(item.1) }
    }

    /// The unknown that `unkown` extends by one differentiation; `None` where
    /// `unkown` is first-order.
    pub fn previous_order(&self, unkown: Unkown) -> (previous: Option<Unkown>)
        requires
            self.wf(),
            self@.contains(unkown),
        ensures
            previous == self@.previous_order(unkown),
            previous is None <==> self@.is_first_order(unkown),
    {
        let first_order = map_len(&self.first_order_unkowns);
        if (unkown.0 as usize) < first_order {
            None
        } else {
            Some(
                self.nth_order_info(
                    NthOrderUnkown::from(usize::from(unkown) - first_order),
                ).previous_order,
            )
        }
    }

    /// The first-order unknown of the last differentiation step of `unkown`:
    /// `unkown` itself where it is first-order.
    pub fn to_first_order(&self, unkown: Unkown) -> (first_order: FirstOrderUnkown)
        requires
            self.wf(),
            self@.contains(unkown),
        ensures
            first_order == self@.to_first_order(unkown),
            self@.contains_first_order(first_order),
    {
        let first_order = map_len(&self.first_order_unkowns);
        if (unkown.0 as usize) < first_order {
            FirstOrderUnkown::from(unkown.0)
        } else {
            proof {
                lemma_higher_order_unfolds(self@, unkown);
            }
            self.nth_order_info(NthOrderUnkown::from(usize::from(unkown) - first_order)).base
        }
    }

    /// The first-order unknown of `callback`, if it was registered.
    pub fn callback_unkown(&self, callback: Callback) -> (unkown: Option<FirstOrderUnkown>)
        requires
            self.wf(),
        ensures
            match unkown {
                Some(found) => self@.contains_first_order(found)
                    && self@.first_order[found.0 as int].0 == callback,
                None => !has_callback(self@.first_order, callback),
            },
    {
        match map_index_of(&self.first_order_unkowns, callback.0) {
            Some(index) => {
                assert(self@.first_order[index as int].0 == callback);
                Some(FirstOrderUnkown::from(index))
            },
            None => {
                proof {
                    if has_callback(self@.first_order, callback) {
                        let at = callback_position(self@.first_order, callback);
                        assert(map_entries(self.first_order_unkowns)[at].0 == callback.0);
                    }
                }
                None
            },
        }
    }

    /// The derivative of `param` by `unkown`, as the bit pattern of a double:
    /// the first coefficient that `unkown` lists for `param`, and zero where it
    /// lists none.
    pub fn param_derivative(&self, param: CfgParam, unkown: FirstOrderUnkown) -> (bits: u64)
        requires
            self.wf(),
            self@.contains_first_order(unkown),
        ensures
            bits == crate::model::coefficient(self@.first_order[unkown.0 as int].1, param),
            !crate::model::has_param(self@.first_order[unkown.0 as int].1, param) ==> bits == 0,
    {
        let info = map_value_at(&self.first_order_unkowns, usize::from(unkown));
        let ghost listed = self@.first_order[unkown.0 as int].1;
        assert(info@ == listed);
        let mut i: usize = 0;
        while i < info.len()
            invariant
                i <= info@.len(),
                info@ == listed,
                listed == self@.first_order[unkown.0 as int].1,
                forall|k: int| 0 <= k < i ==> (#[trigger] listed[k]).0 != param,
            decreases info@.len() - i,
        {
            if info[i].0 == param {
                proof {
                    crate::laws::lemma_coefficient_listed(listed, param, i as int);
                }
                return info[i].1;
            }
            i += 1;
        }
        proof {
            crate::laws::lemma_coefficient_default(listed, param);
        }
        0
    }

    /// Appends the chain of `unkown` to `out`, most recent step first.
    fn collect_first_order_unkowns(&self, unkown: Unkown, out: &mut Vec<FirstOrderUnkown>)
        requires
            self.wf(),
            self@.contains(unkown),
        ensures
            final(out)@ == old(out)@ + self@.first_order_unkowns(unkown),
    {
        let ghost target = old(out)@ + self@.first_order_unkowns(unkown);
        let mut next = Some(unkown);
        while next.is_some()
            invariant
                self.wf(),
                next matches Some(curr) ==> self@.contains(curr) && out@
                    + self@.first_order_unkowns(curr) == target,
                next is None ==> out@ == target,
            decreases
                    (match next {
                        Some(curr) => curr.0 + 1,
                        None => 0,
                    }),
        {
            let curr = next.unwrap();
            let ghost before = out@;
            out.push(self.to_first_order(curr));
            next = self.previous_order(curr);
            proof {
                if self@.is_first_order(curr) {
                    assert(before.push(self@.to_first_order(curr)) == before
                        + self@.first_order_unkowns(curr));
                } else {
                    lemma_higher_order_unfolds(self@, curr);
                    let rest = self@.first_order_unkowns(next.unwrap());
                    assert(before.push(self@.to_first_order(curr)) + rest == before + (
                    seq![self@.to_first_order(curr)] + rest));
                }
            }
        }
    }

    /// The chain of `unkown`: the first-order unknowns of its differentiation
    /// steps, from the most recently applied one down to the root.
    pub fn first_order_unkowns(&self, unkown: Unkown) -> (chain: Vec<FirstOrderUnkown>)
        requires
            self.wf(),
            self@.contains(unkown),
        ensures
            chain@ == self@.first_order_unkowns(unkown),
            chain@.len() == self@.order(unkown),
    {
        let mut chain = Vec::new();
        self.collect_first_order_unkowns(unkown, &mut chain);
        assert(Seq::<FirstOrderUnkown>::empty() + self@.first_order_unkowns(unkown)
            == self@.first_order_unkowns(unkown));
        chain
    }

    /// The chain of `unkown` from the root up to the most recently applied
    /// step: [`first_order_unkowns`](Unkowns::first_order_unkowns) reversed.
    pub fn first_order_unkowns_rev(&self, unkown: Unkown) -> (chain: Vec<FirstOrderUnkown>)
        requires
            self.wf(),
            self@.contains(unkown),
        ensures
            chain@ == self@.first_order_unkowns(unkown).reverse(),
    {
        let unkowns = self.first_order_unkowns(unkown);
        let mut chain = Vec::with_capacity(unkowns.len());
        let mut i = unkowns.len();
        while i > 0
            invariant
                i <= unkowns@.len(),
                chain@.len() == unkowns@.len() - i,
                forall|k: int|
                    0 <= k < chain@.len() ==> #[trigger] chain@[k] == unkowns@[unkowns@.len() - 1
                        - k],
            decreases i,
        {
            i -= 1;
            chain.push(unkowns[i]);
        }
        assert(chain@ =~= unkowns@.reverse());
        chain
    }

    /// The unknown that is `unkown` differentiated once more, by `next_unkown`.
    ///
    /// The new variable goes to the root of the chain and the steps of
    /// `unkown` are replayed on top of it; each link is looked up in the store
    /// and only added where it is not there yet.  So the chain of the result is
    /// that of `unkown` followed by `next_unkown`, nothing that was there
    /// changes, and asking again for the same chain gives the same handle.
    ///
    /// Handles are 32 bits wide: the registry must have room for the links of
    /// the new chain.
    pub fn raise_order(&mut self, unkown: Unkown, next_unkown: FirstOrderUnkown) -> (raised: Unkown)
        requires
            old(self).wf(),
            old(self)@.contains(unkown),
            old(self)@.contains_first_order(next_unkown),
            old(self)@.len() + old(self)@.order(unkown) <= u32::MAX,
        ensures
            final(self).wf(),
            old(self)@.raises(unkown, next_unkown, final(self)@, raised),
            final(self)@.first_order_unkowns(raised) == old(self)@.first_order_unkowns(
                unkown,
            ).push(next_unkown),
            final(self)@.order(raised) == old(self)@.order(unkown) + 1,
            final(self)@.len() >= old(self)@.len(),
            final(self)@.len() > old(self)@.len() ==> raised.0 == final(self)@.len() - 1,
            final(self)@.len() == old(self)@.len() <==> old(self)@.has_chain(
                old(self)@.first_order_unkowns(unkown).push(next_unkown),
            ),
    {
        let ghost start = self@;
        let ghost steps = start.first_order_unkowns(unkown);
        let mut prev_orders: Vec<FirstOrderUnkown> = Vec::new();
        core::mem::swap(&mut self.buf, &mut prev_orders);
        prev_orders.clear();
        self.collect_first_order_unkowns(unkown, &mut prev_orders);
        let first_order = map_len(&self.first_order_unkowns);
        let mut curr = Unkown::from(next_unkown);
        let mut i = prev_orders.len();
        proof {
            assert(prev_orders@ == steps);
            lemma_chain_is_registered(start, unkown);
            crate::laws::lemma_first_order_round_trip(start, next_unkown);
            assert(steps.subrange(steps.len() as int, steps.len() as int).push(next_unkown)
                == seq![next_unkown]);
            assert(start.higher_order.subrange(0, start.higher_order.len() as int)
                == start.higher_order);
        }
        while i > 0
            invariant
                self.wf(),
                start.wf(),
                start.extended_by(self@),
                first_order == self@.first_order.len(),
                prev_orders@ == steps,
                i <= steps.len(),
                start.len() + steps.len() <= u32::MAX,
                self@.higher_order.len() <= start.higher_order.len() + (steps.len() - i),
                forall|k: int|
                    0 <= k < steps.len() ==> start.contains_first_order(#[trigger] steps[k]),
                self@.contains(curr),
                self@.first_order_unkowns(curr) == steps.subrange(
                    i as int,
                    steps.len() as int,
                ).push(next_unkown),
                forall|index: int|
                    start.higher_order.len() <= index < self@.higher_order.len()
                        ==> self@.derives_from(curr, #[trigger] self@.nth_order_handle(index)),
            decreases i,
        {
            i -= 1;
            let base = prev_orders[i];
            let ghost before = self@;
            let ghost items = set_items(self.higher_order_unkowns);
            let ghost node = NthOrderUnkownInfo { previous_order: curr, base };
            let ghost above = steps.subrange(i + 1, steps.len() as int).push(next_unkown);
            assert(start.contains_first_order(steps[i as int]));
            let (index, _) = set_insert_full(&mut self.higher_order_unkowns, (curr.0, base.0));
            proof {
                assert(node == node_view((curr.0, base.0)));
                if items.contains((curr.0, base.0)) {
                    assert(self@ == before);
                    assert(before.higher_order[index as int] == node);
                    lemma_node_found(before, node, index as int);
                } else {
                    assert(!before.higher_order.contains(node)) by {
                        if before.higher_order.contains(node) {
                            let at = choose|at: int|
                                0 <= at < before.higher_order.len() && before.higher_order[at]
                                    == node;
                            assert(node_view(items[at]) == node);
                            assert(items[at] == (curr.0, base.0));
                        }
                    }
                    assert(self@.higher_order =~= before.higher_order.push(node));
                    lemma_node_appended(before, node, self@);
                    lemma_extension_composes(start, before, self@);
                    assert forall|at: int|
                        start.higher_order.len() <= at
                            < self@.higher_order.len() implies self@.derives_from(
                        self@.nth_order_handle(index as int),
                        #[trigger] self@.nth_order_handle(at),
                    ) by {
                        if at < before.higher_order.len() {
                            assert(before.derives_from(curr, before.nth_order_handle(at)));
                        }
                    }
                }
                assert(seq![base] + above == steps.subrange(i as int, steps.len() as int).push(
                    next_unkown,
                ));
            }
            let unkown = NthOrderUnkown::from(index);
            curr = Unkown(unkown.0 + first_order as u32);
        }
        prev_orders.clear();
        self.buf = prev_orders;
        proof {
            assert(steps.subrange(0, steps.len() as int) == steps);
            lemma_raise_order_reuses(start, unkown, next_unkown, self@, curr);
        }
        curr
    }
}

} // verus!
