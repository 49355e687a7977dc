use auto_diff::handles::{Callback, CfgParam, FirstOrderUnkown, FirstOrderUnkownInfo, Unkown};
use auto_diff::unkowns::Unkowns;

fn no_coefficients() -> FirstOrderUnkownInfo {
    Vec::new().into_boxed_slice()
}

fn coefficients(pairs: &[(u32, f64)]) -> FirstOrderUnkownInfo {
    pairs
        .iter()
        .map(|(param, val)| (CfgParam(*param), val.to_bits()))
        .collect::<Vec<_>>()
        .into_boxed_slice()
}

fn two_voltages() -> Unkowns {
    Unkowns::new(vec![(Callback(10), no_coefficients()), (Callback(20), no_coefficients())])
}

fn first(raw: u32) -> FirstOrderUnkown {
    FirstOrderUnkown::from(raw)
}

fn chain(unkowns: &Unkowns, unkown: Unkown) -> Vec<u32> {
    unkowns.first_order_unkowns(unkown).into_iter().map(u32::from).collect()
}

#[test]
fn two_callbacks_raise_scenario() {
    let mut unkowns = two_voltages();
    assert_eq!(unkowns.callback_unkown(Callback(10)), Some(first(0)));
    assert_eq!(unkowns.callback_unkown(Callback(20)), Some(first(1)));
    assert_eq!(unkowns.len(), 2);

    let h1 = unkowns.raise_order(Unkown::from(first(0)), first(1));
    assert_eq!(h1, Unkown::from(2u32));
    assert_eq!(unkowns.to_first_order(h1), first(0));
    assert_eq!(unkowns.previous_order(h1), Some(Unkown::from(1u32)));
    assert_eq!(chain(&unkowns, h1), vec![0, 1]);
    assert_eq!(unkowns.len(), 3);

    let again = unkowns.raise_order(Unkown::from(first(0)), first(1));
    assert_eq!(again, h1);
    assert_eq!(unkowns.len(), 3);

    let h2 = unkowns.raise_order(h1, first(1));
    assert_ne!(h2, h1);
    assert_eq!(chain(&unkowns, h2), vec![0, 1, 1]);
    assert_eq!(unkowns.len(), 5);
}

#[test]
fn first_order_round_trip() {
    let unkowns = Unkowns::new(vec![
        (Callback(7), no_coefficients()),
        (Callback(3), no_coefficients()),
        (Callback(9), no_coefficients()),
    ]);
    for raw in 0..3u32 {
        let f = first(raw);
        assert_eq!(unkowns.to_first_order(Unkown::from(f)), f);
        assert_eq!(unkowns.previous_order(Unkown::from(f)), None);
        assert_eq!(unkowns.first_order_unkowns(Unkown::from(f)), vec![f]);
    }
}

#[test]
fn reversed_chain_is_the_chain_reversed() {
    let mut unkowns = Unkowns::new(vec![
        (Callback(0), no_coefficients()),
        (Callback(1), no_coefficients()),
        (Callback(2), no_coefficients()),
    ]);
    let depth1 = Unkown::from(first(2));
    let depth2 = unkowns.raise_order(depth1, first(0));
    let depth3 = unkowns.raise_order(depth2, first(1));
    let depth4 = unkowns.raise_order(depth3, first(1));
    for unkown in [depth1, depth2, depth3, depth4] {
        let mut forward = unkowns.first_order_unkowns(unkown);
        forward.reverse();
        assert_eq!(unkowns.first_order_unkowns_rev(unkown), forward);
    }
    assert_eq!(unkowns.first_order_unkowns_rev(depth1), vec![first(2)]);
    assert_eq!(
        unkowns.first_order_unkowns_rev(depth4),
        vec![first(1), first(1), first(0), first(2)]
    );
}

#[test]
fn chain_length_counts_the_raisings() {
    let mut unkowns = two_voltages();
    let mut unkown = Unkown::from(first(0));
    assert_eq!(unkowns.first_order_unkowns(unkown).len(), 1);
    for raisings in 1..=6usize {
        unkown = unkowns.raise_order(unkown, first((raisings % 2) as u32));
        assert_eq!(unkowns.first_order_unkowns(unkown).len(), raisings + 1);
    }
}

#[test]
fn raise_order_puts_the_new_variable_at_the_root() {
    let mut unkowns = Unkowns::new(vec![
        (Callback(0), no_coefficients()),
        (Callback(1), no_coefficients()),
        (Callback(2), no_coefficients()),
    ]);
    let ab = unkowns.raise_order(Unkown::from(first(0)), first(1));
    let abc = unkowns.raise_order(ab, first(2));
    assert_eq!(chain(&unkowns, abc), vec![0, 1, 2]);
    // the links of [0, 1, 2]: (2 <- 1), then (that <- 0)
    let below = unkowns.previous_order(abc).unwrap();
    assert_eq!(chain(&unkowns, below), vec![1, 2]);
    assert_eq!(unkowns.previous_order(below), Some(Unkown::from(2u32)));
    assert_eq!(unkowns.to_first_order(abc), first(0));
    assert_eq!(unkowns.to_first_order(below), first(1));
}

#[test]
fn repeated_raise_is_hash_consed() {
    let mut unkowns = two_voltages();
    let base = unkowns.raise_order(Unkown::from(first(1)), first(0));
    let len_before = unkowns.len();
    let a = unkowns.raise_order(base, first(1));
    let len_after_first = unkowns.len();
    let b = unkowns.raise_order(base, first(1));
    assert_eq!(a, b);
    assert_eq!(unkowns.len(), len_after_first);
    assert!(len_after_first > len_before);
}

#[test]
fn len_never_decreases() {
    let mut unkowns = two_voltages();
    let mut seen = unkowns.len();
    let mut unkown = Unkown::from(first(0));
    for step in 0..8u32 {
        let next = first(step % 2);
        let expect_new = !(0..unkowns.len() as u32).any(|h| {
            let mut wanted = chain(&unkowns, unkown);
            wanted.push(u32::from(next));
            chain(&unkowns, Unkown::from(h)) == wanted
        });
        let raised = unkowns.raise_order(unkown, next);
        assert!(unkowns.len() >= seen);
        assert_eq!(unkowns.len() > seen, expect_new);
        seen = unkowns.len();
        // reading never changes the count
        let _ = unkowns.first_order_unkowns(raised);
        let _ = unkowns.first_order_unkowns_rev(raised);
        let _ = unkowns.previous_order(raised);
        let _ = unkowns.to_first_order(raised);
        assert_eq!(unkowns.len(), seen);
        if step % 3 == 0 {
            unkown = raised;
        }
    }
}

#[test]
fn shared_links_are_reused_across_chains() {
    let mut unkowns = two_voltages();
    // [0, 1] needs one node; [1, 0, 1]... shares nothing with it but its own prefix.
    let h01 = unkowns.raise_order(Unkown::from(first(0)), first(1));
    assert_eq!(unkowns.len(), 3);
    // [1, 1] : node (1 <- 1), new
    let h11 = unkowns.raise_order(Unkown::from(first(1)), first(1));
    assert_eq!(unkowns.len(), 4);
    // [0, 1, 1]: nodes (1 <- 1) reused, then (that <- 0) new
    let h011 = unkowns.raise_order(h01, first(1));
    assert_eq!(unkowns.len(), 5);
    assert_eq!(unkowns.previous_order(h011), Some(h11));
    assert_eq!(chain(&unkowns, h011), vec![0, 1, 1]);
}

#[test]
fn call_order_is_not_canonicalised() {
    let mut unkowns = two_voltages();
    let d01 = unkowns.raise_order(Unkown::from(first(0)), first(1));
    let d10 = unkowns.raise_order(Unkown::from(first(1)), first(0));
    assert_ne!(d01, d10);
    assert_eq!(chain(&unkowns, d01), vec![0, 1]);
    assert_eq!(chain(&unkowns, d10), vec![1, 0]);
}

#[test]
fn param_derivative_defaults_to_zero() {
    let unkowns = Unkowns::new(vec![
        (Callback(0), coefficients(&[(4, 1.0), (5, -2.5)])),
        (Callback(1), no_coefficients()),
    ]);
    assert_eq!(f64::from_bits(unkowns.param_derivative(CfgParam(6), first(0))), 0.0);
    assert_eq!(unkowns.param_derivative(CfgParam(6), first(0)), 0);
    assert_eq!(unkowns.param_derivative(CfgParam(4), first(1)), 0);
}

#[test]
fn param_derivative_round_trips_bits() {
    let nan_payload = 0x7ff8_0000_dead_beefu64;
    let unkowns = Unkowns::new(vec![(
        Callback(0),
        vec![
            (CfgParam(4), 1.0f64.to_bits()),
            (CfgParam(5), (-2.5f64).to_bits()),
            (CfgParam(6), nan_payload),
            (CfgParam(7), (-0.0f64).to_bits()),
            (CfgParam(5), 9.0f64.to_bits()),
        ]
        .into_boxed_slice(),
    )]);
    assert_eq!(unkowns.param_derivative(CfgParam(4), first(0)), 0x3ff0_0000_0000_0000);
    assert_eq!(f64::from_bits(unkowns.param_derivative(CfgParam(5), first(0))), -2.5);
    assert_eq!(unkowns.param_derivative(CfgParam(6), first(0)), nan_payload);
    assert_eq!(unkowns.param_derivative(CfgParam(7), first(0)), 0x8000_0000_0000_0000);
}

#[test]
fn callback_unkown_of_unregistered_is_none() {
    let unkowns = two_voltages();
    assert_eq!(unkowns.callback_unkown(Callback(11)), None);
    assert_eq!(unkowns.callback_unkown(Callback(0)), None);
}

#[test]
fn duplicate_callback_keeps_first_place_and_last_coefficients() {
    let unkowns = Unkowns::new(vec![
        (Callback(5), coefficients(&[(1, 1.5)])),
        (Callback(6), coefficients(&[(1, 2.5)])),
        (Callback(5), coefficients(&[(1, 3.5)])),
    ]);
    assert_eq!(unkowns.len(), 2);
    assert_eq!(unkowns.callback_unkown(Callback(5)), Some(first(0)));
    assert_eq!(unkowns.callback_unkown(Callback(6)), Some(first(1)));
    assert_eq!(f64::from_bits(unkowns.param_derivative(CfgParam(1), first(0))), 3.5);
    assert_eq!(f64::from_bits(unkowns.param_derivative(CfgParam(1), first(1))), 2.5);
}

#[test]
fn first_order_len_is_fixed() {
    let mut unkowns = two_voltages();
    assert_eq!(unkowns.first_order_len(), 2);
    let raised = unkowns.raise_order(Unkown::from(first(1)), first(1));
    assert_eq!(unkowns.first_order_len(), 2);
    assert_eq!(unkowns.len(), 3);
    assert_eq!(usize::from(raised), 2);
}

#[test]
fn empty_registry() {
    let unkowns = Unkowns::new(Vec::new());
    assert!(unkowns.is_empty());
    assert_eq!(unkowns.len(), 0);
    assert!(!two_voltages().is_empty());
}

#[test]
fn handle_conversions() {
    assert_eq!(Unkown::from(first(3)), Unkown::from(3u32));
    assert_eq!(u32::from(Unkown::from(7usize)), 7);
    assert_eq!(usize::from(Unkown::from(7u32)), 7);
    assert_eq!(usize::from(first(4)), 4);
    assert_eq!(FirstOrderUnkown::from(4usize), first(4));
    assert!(Unkown::from(1u32) < Unkown::from(2u32));
}
