//! What holds of every registry: the laws of registration, of chains and of
//! raising an order, each proved from the model alone.

use vstd::prelude::*;
use vstd::std_specs::convert::FromSpec;
use crate::handles::Callback;
use crate::handles::CfgParam;
use crate::handles::FirstOrderUnkown;
use crate::handles::NthOrderUnkownInfo;
use crate::handles::Unkown;
use crate::model::UnkownsView;
use crate::model::callback_position;
use crate::model::callbacks_distinct;
use crate::model::coefficient;
use crate::model::has_callback;
use crate::model::has_param;
use crate::model::holds_last_supplied;
use crate::model::one_operation;
use crate::model::register;
use crate::model::registered;
use crate::model::supplied_before;
use crate::model::supplied_first;
use crate::model::supplied_last;

verus! {

/// A parameter without a listed coefficient has the derivative zero.
pub proof fn lemma_coefficient_default(info: Seq<(CfgParam, u64)>, param: CfgParam)
    requires
        !has_param(info, param),
    ensures
        coefficient(info, param) == 0,
    decreases info.len(),
{
    if info.len() > 0 {
        assert(info[0].0 != param);
        assert forall|i: int| 0 <= i < info.drop_first().len() implies (
        #[trigger] info.drop_first()[i]).0 != param by {
            assert(info[i + 1].0 != param);
        }
        lemma_coefficient_default(info.drop_first(), param);
    }
}

/// A listed coefficient comes back bit for bit: the one of the first pair
/// for the parameter.
pub proof fn lemma_coefficient_listed(info: Seq<(CfgParam, u64)>, param: CfgParam, at: int)
    requires
        0 <= at < info.len(),
        info[at].0 == param,
        forall|i: int| 0 <= i < at ==> (#[trigger] info[i]).0 != param,
    ensures
        coefficient(info, param) == info[at].1,
    decreases at,
{
    if at > 0 {
        assert(info[0].0 != param);
        assert forall|i: int| 0 <= i < at - 1 implies (#[trigger] info.drop_first()[i]).0
            != param by {
            assert(info[i + 1].0 != param);
        }
        lemma_coefficient_listed(info.drop_first(), param, at - 1);
    }
}

/// Registering keeps callbacks distinct, never loses a callback, and adds at
/// most one entry.
pub proof fn lemma_register_keeps_distinct(
    entries: Seq<(Callback, Seq<(CfgParam, u64)>)>,
    callback: Callback,
    info: Seq<(CfgParam, u64)>,
)
    requires
        callbacks_distinct(entries),
    ensures
        callbacks_distinct(register(entries, callback, info)),
        has_callback(register(entries, callback, info), callback),
        entries.len() <= register(entries, callback, info).len() <= entries.len() + 1,
        !has_callback(entries, callback) ==> register(entries, callback, info) == entries.push(
            (callback, info),
        ),
{
    let after = register(entries, callback, info);
    if has_callback(entries, callback) {
        let at = callback_position(entries, callback);
        assert(after[at].0 == callback);
    } else {
        assert(after[entries.len() as int].0 == callback);
    }
}

/// The first-order side of a registry never holds a callback twice and never
/// more entries than were supplied.
pub proof fn lemma_registered_is_distinct(supplied: Seq<(Callback, Seq<(CfgParam, u64)>)>)
    ensures
        callbacks_distinct(registered(supplied)),
        registered(supplied).len() <= supplied.len(),
    decreases supplied.len(),
{
    if supplied.len() > 0 {
        lemma_registered_is_distinct(supplied.drop_last());
        lemma_register_keeps_distinct(
            registered(supplied.drop_last()),
            supplied.last().0,
            supplied.last().1,
        );
    }
}

/// What a registry holds of what was supplied, said without going through
/// the entries one by one: every callback that was supplied is registered;
/// every entry is the one that was supplied last for its callback; and the
/// entries stand in the order in which their callbacks were first supplied.
pub proof fn lemma_registered_keeps_first_place_last_value(
    supplied: Seq<(Callback, Seq<(CfgParam, u64)>)>,
)
    ensures
        forall|at: int|
            0 <= at < supplied.len() ==> has_callback(
                registered(supplied),
                (#[trigger] supplied[at]).0,
            ),
        forall|k: int|
            0 <= k < registered(supplied).len() ==> #[trigger] holds_last_supplied(supplied, k),
        forall|k: int, l: int|
            0 <= k < l < registered(supplied).len() ==> #[trigger] supplied_first(supplied, k, l),
    decreases supplied.len(),
{
    if supplied.len() > 0 {
        let front = supplied.drop_last();
        let end = supplied.len() - 1;
        let (callback, info) = supplied.last();
        let before = registered(front);
        let after = registered(supplied);
        lemma_registered_keeps_first_place_last_value(front);
        lemma_registered_is_distinct(front);
        lemma_register_keeps_distinct(before, callback, info);
        let known = has_callback(before, callback);
        let place = if known {
            callback_position(before, callback)
        } else {
            before.len() as int
        };
        assert(after[place] == (callback, info));
        assert forall|k: int| 0 <= k < after.len() && k != place implies #[trigger] after[k]
            == before[k] && before[k].0 != callback && k < before.len() by {
            if known {
                if k < place {
                    assert(before[k].0 != before[place].0);
                } else {
                    assert(before[place].0 != before[k].0);
                }
            }
        }
        assert forall|at: int| 0 <= at < supplied.len() implies has_callback(
            after,
            (#[trigger] supplied[at]).0,
        ) by {
            if at == end {
                assert(after[place].0 == supplied[at].0);
            } else {
                assert(front[at] == supplied[at]);
                let k = callback_position(before, front[at].0);
                if k == place {
                    assert(after[k].0 == supplied[at].0);
                } else {
                    assert(after[k].0 == supplied[at].0);
                }
            }
        }
        assert forall|k: int| 0 <= k < after.len() implies #[trigger] holds_last_supplied(
            supplied,
            k,
        ) by {
            if k == place {
                assert(supplied_last(supplied, end));
            } else {
                assert(holds_last_supplied(front, k));
                let at = choose|at: int|
                    #[trigger] supplied_last(front, at) && front[at] == before[k];
                assert forall|later: int| at < later < supplied.len() implies (
                #[trigger] supplied[later]).0 != supplied[at].0 by {
                    if later < end {
                        assert(front[later].0 != front[at].0);
                    }
                }
                assert(supplied_last(supplied, at));
            }
        }
        assert forall|k: int, l: int| 0 <= k < l < after.len() implies #[trigger] supplied_first(
            supplied,
            k,
            l,
        ) by {
            if l < before.len() {
                assert(after[k].0 == before[k].0);
                assert(after[l].0 == before[l].0);
                assert(supplied_first(front, k, l));
                let at = choose|at: int| #[trigger]
                    supplied_before(front, at, before[k].0, before[l].0);
                assert forall|earlier: int| 0 <= earlier <= at implies (
                #[trigger] supplied[earlier]).0 != after[l].0 by {
                    assert(front[earlier].0 != before[l].0);
                }
                assert(supplied_before(supplied, at, after[k].0, after[l].0));
            } else {
                assert(!known && l == place);
                assert(holds_last_supplied(front, k));
                let at = choose|at: int|
                    #[trigger] supplied_last(front, at) && front[at] == before[k];
                assert forall|earlier: int| 0 <= earlier <= at implies (
                #[trigger] supplied[earlier]).0 != after[l].0 by {
                    assert(has_callback(before, front[earlier].0));
                }
                assert(supplied_before(supplied, at, after[k].0, after[l].0));
            }
        }
    }
}

/// Where no callback is supplied twice, the registry holds exactly what was
/// supplied, in that order: the handle of a callback is the position at which
/// it was supplied.
pub proof fn lemma_registered_of_distinct(supplied: Seq<(Callback, Seq<(CfgParam, u64)>)>)
    requires
        callbacks_distinct(supplied),
    ensures
        registered(supplied) == supplied,
    decreases supplied.len(),
{
    if supplied.len() > 0 {
        let front = supplied.drop_last();
        lemma_registered_of_distinct(front);
        if has_callback(front, supplied.last().0) {
            let at = callback_position(front, supplied.last().0);
            assert(supplied[at].0 == supplied[supplied.len() - 1].0);
        }
        assert(front.push(supplied.last()) == supplied);
    }
}

/// A first-order unknown, seen as an unknown, is its own chain: it extends
/// nothing, and its one differentiation step is itself.
pub proof fn lemma_first_order_round_trip(view: UnkownsView, unkown: FirstOrderUnkown)
    requires
        view.contains_first_order(unkown),
    ensures
        view.contains(Unkown::from_spec(unkown)),
        view.to_first_order(Unkown::from_spec(unkown)) == unkown,
        view.previous_order(Unkown::from_spec(unkown)) is None,
        view.first_order_unkowns(Unkown::from_spec(unkown)) == seq![unkown],
        view.order(Unkown::from_spec(unkown)) == 1,
{
}

/// A higher-order unknown of a well-formed registry extends an unknown with a
/// smaller handle, and its chain is its own step followed by the chain of the
/// unknown it extends.
pub proof fn lemma_higher_order_unfolds(view: UnkownsView, unkown: Unkown)
    requires
        view.wf(),
        view.contains(unkown),
        !view.is_first_order(unkown),
    ensures
        view.has_previous(unkown),
        view.previous_order(unkown) == Some(view.nth_order_info(unkown).previous_order),
        view.contains(view.nth_order_info(unkown).previous_order),
        view.contains_first_order(view.nth_order_info(unkown).base),
        view.first_order_unkowns(unkown) == seq![view.nth_order_info(unkown).base]
            + view.first_order_unkowns(view.nth_order_info(unkown).previous_order),
        view.order(unkown) == 1 + view.order(view.nth_order_info(unkown).previous_order),
{
    let index = unkown.0 - view.first_order.len();
    assert(view.higher_order[index].previous_order.0 < view.first_order.len() + index);
}

/// Every step of a chain is a registered first-order unknown, and no chain is
/// empty.
pub proof fn lemma_chain_is_registered(view: UnkownsView, unkown: Unkown)
    requires
        view.wf(),
        view.contains(unkown),
    ensures
        view.order(unkown) >= 1,
        forall|i: int|
            0 <= i < view.order(unkown) ==> view.contains_first_order(
                #[trigger] view.first_order_unkowns(unkown)[i],
            ),
        view.first_order_unkowns(unkown)[0] == view.to_first_order(unkown),
    decreases unkown.0,
{
    if !view.is_first_order(unkown) {
        lemma_higher_order_unfolds(view, unkown);
        lemma_chain_is_registered(view, view.nth_order_info(unkown).previous_order);
    }
}

/// The order of a higher-order unknown is at least two; that of a first-order
/// unknown is one.
pub proof fn lemma_order_tells_kind(view: UnkownsView, unkown: Unkown)
    requires
        view.wf(),
        view.contains(unkown),
    ensures
        view.is_first_order(unkown) <==> view.order(unkown) == 1,
{
    if !view.is_first_order(unkown) {
        lemma_higher_order_unfolds(view, unkown);
        lemma_chain_is_registered(view, view.nth_order_info(unkown).previous_order);
    }
}

/// Following `previous_order` links only ever leads to smaller handles.
pub proof fn lemma_derives_from_below(view: UnkownsView, unkown: Unkown, ancestor: Unkown)
    requires
        view.derives_from(unkown, ancestor),
    ensures
        ancestor.0 <= unkown.0,
    decreases unkown.0,
{
    if unkown != ancestor {
        lemma_derives_from_below(view, view.nth_order_info(unkown).previous_order, ancestor);
    }
}

/// Growing a registry changes nothing about the unknowns it already held:
/// their links, their chains and what they derive from stay as they were.
pub proof fn lemma_extension_keeps_chains(view: UnkownsView, grown: UnkownsView, unkown: Unkown)
    requires
        view.wf(),
        view.extended_by(grown),
        view.contains(unkown),
    ensures
        grown.contains(unkown),
        grown.is_first_order(unkown) == view.is_first_order(unkown),
        grown.previous_order(unkown) == view.previous_order(unkown),
        grown.to_first_order(unkown) == view.to_first_order(unkown),
        grown.first_order_unkowns(unkown) == view.first_order_unkowns(unkown),
        grown.order(unkown) == view.order(unkown),
    decreases unkown.0,
{
    if !view.is_first_order(unkown) {
        let index = unkown.0 - view.first_order.len();
        assert(grown.higher_order[index] == grown.higher_order.subrange(
            0,
            view.higher_order.len() as int,
        )[index]);
        lemma_higher_order_unfolds(view, unkown);
        lemma_extension_keeps_chains(view, grown, view.nth_order_info(unkown).previous_order);
    }
}

/// Growing a registry changes nothing about what the unknowns it already held
/// derive from.
pub proof fn lemma_extension_keeps_derivations(
    view: UnkownsView,
    grown: UnkownsView,
    unkown: Unkown,
    ancestor: Unkown,
)
    requires
        view.wf(),
        view.extended_by(grown),
        view.contains(unkown),
    ensures
        grown.derives_from(unkown, ancestor) == view.derives_from(unkown, ancestor),
    decreases unkown.0,
{
    lemma_extension_keeps_chains(view, grown, unkown);
    if !view.is_first_order(unkown) {
        lemma_higher_order_unfolds(view, unkown);
        lemma_extension_keeps_derivations(
            view,
            grown,
            view.nth_order_info(unkown).previous_order,
            ancestor,
        );
    }
}

/// Interning makes handles canonical: two unknowns of a well-formed registry
/// with the same chain are the same unknown.
pub proof fn lemma_chain_determines_unkown(view: UnkownsView, a: Unkown, b: Unkown)
    requires
        view.wf(),
        view.contains(a),
        view.contains(b),
        view.first_order_unkowns(a) == view.first_order_unkowns(b),
    ensures
        a == b,
    decreases a.0,
{
    lemma_order_tells_kind(view, a);
    lemma_order_tells_kind(view, b);
    if view.is_first_order(a) {
        assert(view.first_order_unkowns(a)[0] == FirstOrderUnkown(a.0));
        assert(view.first_order_unkowns(b)[0] == FirstOrderUnkown(b.0));
    } else {
        lemma_higher_order_unfolds(view, a);
        lemma_higher_order_unfolds(view, b);
        let pa = view.nth_order_info(a).previous_order;
        let pb = view.nth_order_info(b).previous_order;
        let chain = view.first_order_unkowns(a);
        assert(chain[0] == view.nth_order_info(a).base);
        assert(chain[0] == view.nth_order_info(b).base);
        assert(view.first_order_unkowns(pa) == chain.subrange(1, chain.len() as int));
        assert(view.first_order_unkowns(pb) == chain.subrange(1, chain.len() as int));
        lemma_chain_determines_unkown(view, pa, pb);
        let i = a.0 - view.first_order.len();
        let j = b.0 - view.first_order.len();
        assert(view.higher_order[i] == view.higher_order[j]);
        if i < j {
            assert(false);
        }
        if j < i {
            assert(false);
        }
    }
}

/// Growing a registry twice is growing it once.
pub proof fn lemma_extension_composes(view: UnkownsView, grown: UnkownsView, last: UnkownsView)
    requires
        view.extended_by(grown),
        grown.extended_by(last),
    ensures
        view.extended_by(last),
{
    let kept = view.higher_order.len() as int;
    assert forall|i: int| 0 <= i < kept implies last.higher_order.subrange(0, kept)[i]
        == view.higher_order[i] by {
        assert(last.higher_order[i] == last.higher_order.subrange(
            0,
            grown.higher_order.len() as int,
        )[i]);
        assert(grown.higher_order[i] == grown.higher_order.subrange(0, kept)[i]);
    }
    assert(last.higher_order.subrange(0, kept) =~= view.higher_order);
}

/// A chain node that the store holds names the unknown whose chain is the
/// node's step followed by the chain of the unknown it extends.
pub proof fn lemma_node_found(view: UnkownsView, node: NthOrderUnkownInfo, index: int)
    requires
        view.wf(),
        0 <= index < view.higher_order.len(),
        view.higher_order[index] == node,
    ensures
        view.contains(view.nth_order_handle(index)),
        view.contains(node.previous_order),
        view.nth_order_handle(index).0 == view.first_order.len() + index,
        view.first_order_unkowns(view.nth_order_handle(index)) == seq![node.base]
            + view.first_order_unkowns(node.previous_order),
        forall|ancestor: Unkown|
            view.derives_from(node.previous_order, ancestor) ==> view.derives_from(
                view.nth_order_handle(index),
                ancestor,
            ),
        view.derives_from(view.nth_order_handle(index), view.nth_order_handle(index)),
{
    let handle = view.nth_order_handle(index);
    assert(view.nth_order_info(handle) == node);
    lemma_higher_order_unfolds(view, handle);
}

/// Appending a chain node that the store does not hold yet, on top of an
/// unknown of the registry, keeps the registry well-formed and makes an
/// unknown whose chain is the node's step followed by the chain of the
/// unknown it extends.
pub proof fn lemma_node_appended(view: UnkownsView, node: NthOrderUnkownInfo, grown: UnkownsView)
    requires
        view.wf(),
        view.len() < u32::MAX,
        view.contains(node.previous_order),
        view.contains_first_order(node.base),
        !view.higher_order.contains(node),
        grown.first_order == view.first_order,
        grown.higher_order == view.higher_order.push(node),
    ensures
        grown.wf(),
        view.extended_by(grown),
        grown.contains(grown.nth_order_handle(view.higher_order.len() as int)),
        grown.nth_order_handle(view.higher_order.len() as int).0 == view.len(),
        grown.first_order_unkowns(grown.nth_order_handle(view.higher_order.len() as int))
            == seq![node.base] + view.first_order_unkowns(node.previous_order),
        forall|ancestor: Unkown|
            view.derives_from(node.previous_order, ancestor) ==> grown.derives_from(
                grown.nth_order_handle(view.higher_order.len() as int),
                ancestor,
            ),
        grown.derives_from(
            grown.nth_order_handle(view.higher_order.len() as int),
            grown.nth_order_handle(view.higher_order.len() as int),
        ),
        grown.first_order_unkowns(node.previous_order) == view.first_order_unkowns(
            node.previous_order,
        ),
{
    let at = view.higher_order.len() as int;
    assert(grown.higher_order.subrange(0, at) =~= view.higher_order);
    assert forall|i: int, j: int| 0 <= i < j < grown.higher_order.len() implies
        #[trigger] grown.higher_order[i] != #[trigger] grown.higher_order[j] by {
        if j == at {
            assert(view.higher_order[i] != node);
        }
    }
    lemma_node_found(grown, node, at);
    lemma_extension_keeps_chains(view, grown, node.previous_order);
    assert forall|ancestor: Unkown|
        view.derives_from(node.previous_order, ancestor) implies grown.derives_from(
        grown.nth_order_handle(at),
        ancestor,
    ) by {
        lemma_extension_keeps_derivations(view, grown, node.previous_order, ancestor);
    }
}

/// Raising an order adds chain nodes exactly when the chain that is asked for
/// is new: where some unknown already has it, that unknown comes back and the
/// registry stays as it is.  The number of unknowns never goes down.
pub proof fn lemma_raise_order_reuses(
    view: UnkownsView,
    unkown: Unkown,
    next: FirstOrderUnkown,
    after: UnkownsView,
    raised: Unkown,
)
    requires
        view.wf(),
        view.raises(unkown, next, after, raised),
    ensures
        after.len() >= view.len(),
        after.len() == view.len() <==> view.has_chain(
            view.first_order_unkowns(unkown).push(next),
        ),
        after.len() == view.len() ==> after == view,
        forall|known: Unkown|
            view.contains(known) && #[trigger] view.first_order_unkowns(known)
                == view.first_order_unkowns(unkown).push(next) ==> raised == known,
        after.len() > view.len() ==> raised.0 == after.len() - 1,
{
    let chain = view.first_order_unkowns(unkown).push(next);
    let kept = view.higher_order.len() as int;
    assert forall|known: Unkown|
        view.contains(known) && #[trigger] view.first_order_unkowns(known)
            == chain implies raised == known by {
        lemma_extension_keeps_chains(view, after, known);
        lemma_chain_determines_unkown(after, known, raised);
    }
    if view.has_chain(chain) {
        let known = choose|known: Unkown|
            view.contains(known) && #[trigger] view.first_order_unkowns(known) == chain;
        assert(raised == known);
        if after.higher_order.len() > kept {
            lemma_derives_from_below(after, raised, after.nth_order_handle(kept));
            assert(false);
        }
    }
    if after.len() > view.len() {
        lemma_derives_from_below(
            after,
            raised,
            after.nth_order_handle(after.higher_order.len() - 1),
        );
    }
    if after.len() == view.len() {
        assert(after.higher_order.subrange(0, kept) == after.higher_order);
        assert(view.first_order_unkowns(raised) == chain);
    }
}

/// Raising the same order twice gives the same unknown both times, and the
/// second time the registry does not change.
pub proof fn lemma_raise_order_repeats(
    view: UnkownsView,
    unkown: Unkown,
    next: FirstOrderUnkown,
    first: UnkownsView,
    first_raised: Unkown,
    second: UnkownsView,
    second_raised: Unkown,
)
    requires
        view.wf(),
        view.contains(unkown),
        view.raises(unkown, next, first, first_raised),
        first.raises(unkown, next, second, second_raised),
    ensures
        second_raised == first_raised,
        second == first,
        second.len() == first.len(),
{
    lemma_extension_keeps_chains(view, first, unkown);
    assert(first.first_order_unkowns(first_raised) == first.first_order_unkowns(unkown).push(
        next,
    ));
    lemma_raise_order_reuses(first, unkown, next, second, second_raised);
}

/// Each raising adds one to the order: an unknown made from a first-order
/// unknown by `n` raisings has a chain of `n + 1` steps.
pub proof fn lemma_raise_order_counts(
    view: UnkownsView,
    unkown: Unkown,
    next: FirstOrderUnkown,
    after: UnkownsView,
    raised: Unkown,
)
    requires
        view.raises(unkown, next, after, raised),
    ensures
        after.order(raised) == view.order(unkown) + 1,
        view.is_first_order(unkown) && view.wf() ==> after.order(raised) == 2,
{
    if view.is_first_order(unkown) && view.wf() {
        lemma_order_tells_kind(view, unkown);
    }
}

/// Over any sequence of operations a registry only grows: what it held at one
/// time it holds, at the same handles, at every later time, and the number of
/// its unknowns never goes down.
pub proof fn lemma_len_never_decreases(history: Seq<UnkownsView>, earlier: int, later: int)
    requires
        forall|at: int| 0 <= at < history.len() - 1 ==> #[trigger] one_operation(history, at),
        0 <= earlier <= later < history.len(),
    ensures
        history[earlier].extended_by(history[later]),
        history[earlier].len() <= history[later].len(),
    decreases later - earlier,
{
    let view = history[earlier];
    if earlier == later {
        assert(view.higher_order.subrange(0, view.higher_order.len() as int)
            == view.higher_order);
    } else {
        lemma_len_never_decreases(history, earlier, later - 1);
        assert(one_operation(history, later - 1));
        if history[later] != history[later - 1] {
            lemma_extension_composes(view, history[later - 1], history[later]);
        }
    }
}

/// What an unknown derives from, the unknown before it derives from too,
/// but for the unknown itself.
proof fn lemma_derives_from_steps_down(view: UnkownsView, unkown: Unkown, ancestor: Unkown)
    requires
        view.derives_from(unkown, ancestor),
        view.has_previous(ancestor),
    ensures
        view.derives_from(unkown, view.nth_order_info(ancestor).previous_order),
    decreases unkown.0,
{
    let previous = view.nth_order_info(ancestor).previous_order;
    if unkown != ancestor {
        lemma_derives_from_steps_down(
            view,
            view.nth_order_info(unkown).previous_order,
            ancestor,
        );
    } else {
        assert(view.derives_from(previous, previous));
    }
}

/// The unknowns that one unknown derives from lie on one line: of two of
/// them, the one with the larger handle derives from the other.
proof fn lemma_derivations_are_linear(
    view: UnkownsView,
    unkown: Unkown,
    upper: Unkown,
    lower: Unkown,
)
    requires
        view.derives_from(unkown, upper),
        view.derives_from(unkown, lower),
        lower.0 <= upper.0,
    ensures
        view.derives_from(upper, lower),
    decreases unkown.0,
{
    if unkown != upper {
        lemma_derives_from_below(view, view.nth_order_info(unkown).previous_order, upper);
        lemma_derivations_are_linear(
            view,
            view.nth_order_info(unkown).previous_order,
            upper,
            lower,
        );
    }
}

/// Among the chain nodes that a raising added, each but the first sits
/// directly on top of the one added before it.
proof fn lemma_added_nodes_are_stacked(
    view: UnkownsView,
    unkown: Unkown,
    next: FirstOrderUnkown,
    after: UnkownsView,
    raised: Unkown,
    added: Unkown,
)
    requires
        view.wf(),
        view.raises(unkown, next, after, raised),
        after.contains(added),
        view.len() < added.0,
    ensures
        after.nth_order_info(added).previous_order.0 == added.0 - 1,
{
    let below = after.nth_order_handle(added.0 - 1 - view.first_order.len());
    let top = after.nth_order_handle(added.0 - view.first_order.len());
    assert(top == added);
    assert(after.derives_from(raised, below));
    assert(after.derives_from(raised, top));
    lemma_derivations_are_linear(after, raised, added, below);
    lemma_higher_order_unfolds(after, added);
    lemma_derives_from_below(after, after.nth_order_info(added).previous_order, below);
}

/// Two outcomes of one raising agree along the whole line of the result:
/// unknowns with the same chain have the same handle and the same chain node.
proof fn lemma_outcomes_agree(
    view: UnkownsView,
    unkown: Unkown,
    next: FirstOrderUnkown,
    one: UnkownsView,
    one_raised: Unkown,
    other: UnkownsView,
    other_raised: Unkown,
    a: Unkown,
    b: Unkown,
    ancestor: Unkown,
)
    requires
        view.wf(),
        view.raises(unkown, next, one, one_raised),
        view.raises(unkown, next, other, other_raised),
        one.contains(a),
        other.contains(b),
        one.derives_from(one_raised, a),
        other.derives_from(other_raised, b),
        one.first_order_unkowns(a) == other.first_order_unkowns(b),
        one.derives_from(a, ancestor),
    ensures
        a == b,
        other.derives_from(b, ancestor),
        other.contains(ancestor),
        !one.is_first_order(ancestor) ==> one.nth_order_info(ancestor) == other.nth_order_info(
            ancestor,
        ),
    decreases a.0,
{
    lemma_order_tells_kind(one, a);
    lemma_order_tells_kind(other, b);
    if one.is_first_order(a) {
        assert(one.first_order_unkowns(a)[0] == FirstOrderUnkown(a.0));
        assert(other.first_order_unkowns(b)[0] == FirstOrderUnkown(b.0));
    } else {
        lemma_higher_order_unfolds(one, a);
        lemma_higher_order_unfolds(other, b);
        let pa = one.nth_order_info(a).previous_order;
        let pb = other.nth_order_info(b).previous_order;
        let chain = one.first_order_unkowns(a);
        assert(chain[0] == one.nth_order_info(a).base);
        assert(chain[0] == other.nth_order_info(b).base);
        assert(one.first_order_unkowns(pa) == chain.subrange(1, chain.len() as int));
        assert(other.first_order_unkowns(pb) == chain.subrange(1, chain.len() as int));
        lemma_derives_from_steps_down(one, one_raised, a);
        lemma_derives_from_steps_down(other, other_raised, b);
        let below = if a == ancestor {
            pa
        } else {
            ancestor
        };
        lemma_outcomes_agree(
            view,
            unkown,
            next,
            one,
            one_raised,
            other,
            other_raised,
            pa,
            pb,
            below,
        );
        let node = one.nth_order_info(a);
        assert(other.nth_order_info(b) == node);
        let first_order = view.first_order.len();
        let kept = view.higher_order.len() as int;
        let i = a.0 - first_order;
        let j = b.0 - first_order;
        if i < kept {
            assert(one.higher_order[i] == one.higher_order.subrange(0, kept)[i]);
            assert(other.higher_order[i] == other.higher_order.subrange(0, kept)[i]);
            if i < j {
                assert(other.higher_order[i] != other.higher_order[j]);
            }
            if j < i {
                assert(other.higher_order[j] != other.higher_order[i]);
            }
        } else if j < kept {
            assert(one.higher_order[j] == one.higher_order.subrange(0, kept)[j]);
            assert(other.higher_order[j] == other.higher_order.subrange(0, kept)[j]);
            if i < j {
                assert(one.higher_order[i] != one.higher_order[j]);
            }
            if j < i {
                assert(one.higher_order[j] != one.higher_order[i]);
            }
        } else {
            if i > kept {
                lemma_added_nodes_are_stacked(view, unkown, next, one, one_raised, a);
            }
            if j > kept {
                lemma_added_nodes_are_stacked(view, unkown, next, other, other_raised, b);
            }
        }
    }
}

/// What raising an order does is settled by the registry and the two
/// arguments: any two outcomes that [`UnkownsView::raises`] admits are the
/// same registry and the same handle.
pub proof fn lemma_raise_order_is_determined(
    view: UnkownsView,
    unkown: Unkown,
    next: FirstOrderUnkown,
    one: UnkownsView,
    one_raised: Unkown,
    other: UnkownsView,
    other_raised: Unkown,
)
    requires
        view.wf(),
        view.raises(unkown, next, one, one_raised),
        view.raises(unkown, next, other, other_raised),
    ensures
        one_raised == other_raised,
        one == other,
{
    lemma_outcomes_agree(
        view,
        unkown,
        next,
        one,
        one_raised,
        other,
        other_raised,
        one_raised,
        other_raised,
        one_raised,
    );
    let kept = view.higher_order.len() as int;
    assert forall|index: int| kept <= index < one.higher_order.len() implies index
        < other.higher_order.len() && #[trigger] one.higher_order[index]
        == other.higher_order[index] by {
        lemma_outcomes_agree(
            view,
            unkown,
            next,
            one,
            one_raised,
            other,
            other_raised,
            one_raised,
            other_raised,
            one.nth_order_handle(index),
        );
    }
    if one.higher_order.len() < other.higher_order.len() {
        lemma_outcomes_agree(
            view,
            unkown,
            next,
            other,
            other_raised,
            one,
            one_raised,
            other_raised,
            one_raised,
            other.nth_order_handle(one.higher_order.len() as int),
        );
        assert(false);
    }
    if other.higher_order.len() < one.higher_order.len() {
        let at = other.higher_order.len() as int;
        assert(one.higher_order[at] == other.higher_order[at]);
        assert(false);
    }
    assert forall|index: int| 0 <= index < one.higher_order.len() implies
        #[trigger] one.higher_order[index] == other.higher_order[index] by {
        if index < kept {
            assert(one.higher_order[index] == one.higher_order.subrange(0, kept)[index]);
            assert(other.higher_order[index] == other.higher_order.subrange(0, kept)[index]);
        }
    }
    assert(one.higher_order =~= other.higher_order);
}

} // verus!
