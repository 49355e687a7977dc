//! The handle types that name differentiation unknowns.

use vstd::prelude::*;
use vstd::std_specs::convert::FromSpecImpl;

verus! {

/// Identity of a quantity a model may be differentiated against.
#[derive(Debug, Clone, Copy, PartialEq, Eq, Hash, Structural)]
pub struct Callback(pub u32);

/// Identity of a compile-time parameter of the model.
#[derive(Debug, Clone, Copy, PartialEq, Eq, Hash, Structural)]
pub struct CfgParam(pub u32);

/// Handle to any unknown, first- or higher-order.
///
/// Handles below the first-order count of a registry name its first-order
/// unknowns directly; the handles from there on name the interned
/// higher-order unknowns in the order of their creation.
#[derive(Debug, Clone, Copy, PartialEq, Eq, Hash, PartialOrd, Ord, Structural)]
pub struct Unkown(pub u32);

/// Handle to a first-order unknown: position of its callback in the registry.
#[derive(Debug, Clone, Copy, PartialEq, Eq, Hash, Structural)]
pub struct FirstOrderUnkown(pub u32);

/// Position of a higher-order unknown inside the interned store.
#[derive(Debug, Clone, Copy, PartialEq, Eq, Hash, Structural)]
pub struct NthOrderUnkown(pub u32);

/// One link of a differentiation chain: the unknown that is differentiated
/// once more, and the first-order unknown it is differentiated by.
#[derive(Debug, Clone, Copy, PartialEq, Eq, Hash, Structural)]
pub struct NthOrderUnkownInfo {
    pub previous_order: Unkown,
    pub base: FirstOrderUnkown,
}

/// The precomputed partial derivatives of parameters with respect to one
/// first-order unknown, each stored as the bit pattern of a double.
pub type FirstOrderUnkownInfo = Box<[(CfgParam, u64)]>;

impl From<FirstOrderUnkown> for Unkown {
    fn from(unkown: FirstOrderUnkown) -> (res: Unkown) {
        Unkown(unkown.0)
    }
}

impl FromSpecImpl<FirstOrderUnkown> for Unkown {
    open spec fn obeys_from_spec() -> bool {
        true
    }

    open spec fn from_spec(unkown: FirstOrderUnkown) -> Unkown {
        Unkown(unkown.0)
    }
}

impl From<u32> for Unkown {
    fn from(raw: u32) -> (res: Unkown) {
        Unkown(raw)
    }
}

impl FromSpecImpl<u32> for Unkown {
    open spec fn obeys_from_spec() -> bool {
        true
    }

    open spec fn from_spec(raw: u32) -> Unkown {
        Unkown(raw)
    }
}

impl From<Unkown> for u32 {
    fn from(unkown: Unkown) -> (res: u32) {
        unkown.0
    }
}

impl FromSpecImpl<Unkown> for u32 {
    open spec fn obeys_from_spec() -> bool {
        true
    }

    open spec fn from_spec(unkown: Unkown) -> u32 {
        unkown.0
    }
}

/// Keeps the low 32 bits of `index`.
impl From<usize> for Unkown {
    fn from(index: usize) -> (res: Unkown) {
        Unkown(index as u32)
    }
}

impl FromSpecImpl<usize> for Unkown {
    open spec fn obeys_from_spec() -> bool {
        true
    }

    open spec fn from_spec(index: usize) -> Unkown {
        Unkown(index as u32)
    }
}

impl From<Unkown> for usize {
    fn from(unkown: Unkown) -> (res: usize) {
        unkown.0 as usize
    }
}

impl FromSpecImpl<Unkown> for usize {
    open spec fn obeys_from_spec() -> bool {
        true
    }

    open spec fn from_spec(unkown: Unkown) -> usize {
        unkown.0 as usize
    }
}

fn trial(f: FirstOrderUnkown) {
    let u = Unkown::from(f);
    assert(u.0 == f.0);
    let v: Unkown = f.into();
    assert(v == u);
    let n = Unkown::from(7usize);
    assert(n.0 == 7);
    let w = usize::from(u);
    assert(w == f.0);
}

impl From<u32> for FirstOrderUnkown {
    fn from(raw: u32) -> (res: FirstOrderUnkown) {
        FirstOrderUnkown(raw)
    }
}

impl FromSpecImpl<u32> for FirstOrderUnkown {
    open spec fn obeys_from_spec() -> bool {
        true
    }

    open spec fn from_spec(raw: u32) -> FirstOrderUnkown {
        FirstOrderUnkown(raw)
    }
}

impl From<FirstOrderUnkown> for u32 {
    fn from(unkown: FirstOrderUnkown) -> (res: u32) {
        unkown.0
    }
}

impl FromSpecImpl<FirstOrderUnkown> for u32 {
    open spec fn obeys_from_spec() -> bool {
        true
    }

    open spec fn from_spec(unkown: FirstOrderUnkown) -> u32 {
        unkown.0
    }
}

/// Keeps the low 32 bits of `index`.
impl From<usize> for FirstOrderUnkown {
    fn from(index: usize) -> (res: FirstOrderUnkown) {
        FirstOrderUnkown(index as u32)
    }
}

impl FromSpecImpl<usize> for FirstOrderUnkown {
    open spec fn obeys_from_spec() -> bool {
        true
    }

    open spec fn from_spec(index: usize) -> FirstOrderUnkown {
        FirstOrderUnkown(index as u32)
    }
}

impl From<FirstOrderUnkown> for usize {
    fn from(unkown: FirstOrderUnkown) -> (res: usize) {
        unkown.0 as usize
    }
}

impl FromSpecImpl<FirstOrderUnkown> for usize {
    open spec fn obeys_from_spec() -> bool {
        true
    }

    open spec fn from_spec(unkown: FirstOrderUnkown) -> usize {
        unkown.0 as usize
    }
}

impl From<u32> for NthOrderUnkown {
    fn from(raw: u32) -> (res: NthOrderUnkown) {
        NthOrderUnkown(raw)
    }
}

impl FromSpecImpl<u32> for NthOrderUnkown {
    open spec fn obeys_from_spec() -> bool {
        true
    }

    open spec fn from_spec(raw: u32) -> NthOrderUnkown {
        NthOrderUnkown(raw)
    }
}

impl From<NthOrderUnkown> for u32 {
    fn from(unkown: NthOrderUnkown) -> (res: u32) {
        unkown.0
    }
}

impl FromSpecImpl<NthOrderUnkown> for u32 {
    open spec fn obeys_from_spec() -> bool {
        true
    }

    open spec fn from_spec(unkown: NthOrderUnkown) -> u32 {
        unkown.0
    }
}

/// Keeps the low 32 bits of `index`.
impl From<usize> for NthOrderUnkown {
    fn from(index: usize) -> (res: NthOrderUnkown) {
        NthOrderUnkown(index as u32)
    }
}

impl FromSpecImpl<usize> for NthOrderUnkown {
    open spec fn obeys_from_spec() -> bool {
        true
    }

    open spec fn from_spec(index: usize) -> NthOrderUnkown {
        NthOrderUnkown(index as u32)
    }
}

impl From<NthOrderUnkown> for usize {
    fn from(unkown: NthOrderUnkown) -> (res: usize) {
        unkown.0 as usize
    }
}

impl FromSpecImpl<NthOrderUnkown> for usize {
    open spec fn obeys_from_spec() -> bool {
        true
    }

    open spec fn from_spec(unkown: NthOrderUnkown) -> usize {
        unkown.0 as usize
    }
}

} // verus!
