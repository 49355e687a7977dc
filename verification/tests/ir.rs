use auto_diff::attrs::is_openvaf_attr;
use auto_diff::ids::{AttributeId, ExpressionId};
use auto_diff::ir::{
    Attribute, AttributeNode, Attributes, BuiltInFunctionCall1p, BuiltInFunctionCall2p,
    DisplayTaskKind, FunctionType, Node, NoiseSource, NumericalParameterRangeBound,
    NumericalParameterRangeExclude, SystemFunctionCall,
};
use auto_diff::span::{Ident, Span, Symbol};

fn span(start: u32, end: u32) -> Span {
    Span { start, end }
}

#[test]
fn openvaf_attr_names() {
    assert!(is_openvaf_attr("openvaf_allow"));
    assert!(is_openvaf_attr("openvaf_warn"));
    assert!(is_openvaf_attr("openvaf_deny"));
    assert!(!is_openvaf_attr("openvaf_forbid"));
    assert!(!is_openvaf_attr("openvaf_allow "));
    assert!(!is_openvaf_attr("OPENVAF_ALLOW"));
    assert!(!is_openvaf_attr(""));
}

#[test]
fn node_keeps_its_source() {
    let node = Node::new(5u8, span(3, 9));
    assert_eq!(node.contents, 5);
    assert_eq!(node.source, span(3, 9));
    let copied = node.copy_as("text");
    assert_eq!(copied.contents, "text");
    assert_eq!(copied.source, span(3, 9));
    let cloned = Node::new(String::from("owned"), span(1, 2)).clone_as(7i64);
    assert_eq!(cloned.contents, 7);
    assert_eq!(cloned.source, span(1, 2));
}

#[test]
fn attributes_range() {
    let attributes = Attributes::new(AttributeId(4), AttributeId(9));
    assert_eq!(attributes.start, AttributeId(4));
    assert_eq!(attributes.len, 5);
    assert_eq!(attributes.end(), AttributeId(9));
    assert_eq!(attributes.as_range(), AttributeId(4)..AttributeId(9));
    assert_eq!(
        attributes.ids(),
        vec![AttributeId(4), AttributeId(5), AttributeId(6), AttributeId(7), AttributeId(8)]
    );
}

#[test]
fn attributes_largest() {
    let attributes = Attributes::new(AttributeId(0xffff - 254), AttributeId(0xffff));
    assert_eq!(attributes.len, 254);
    assert_eq!(attributes.end(), AttributeId(0xffff));
    assert_eq!(attributes.ids().len(), 254);
}

#[test]
fn attributes_empty() {
    let empty = Attributes::empty();
    assert_eq!(empty.start, AttributeId(0));
    assert_eq!(empty.len, 0);
    assert_eq!(empty, Attributes::default());
    assert_eq!(empty.end(), AttributeId(0));
    assert!(empty.ids().is_empty());
    assert_eq!(Attributes::new(AttributeId(7), AttributeId(7)).len, 0);
}

#[test]
fn attribute_id_arithmetic() {
    assert_eq!(AttributeId::from_raw_unchecked(3).index(), 3);
    assert_eq!(AttributeId::from_usize(0xffff), AttributeId(0xffff));
    assert_eq!(AttributeId(10) + 5usize, AttributeId(15));
    assert_eq!(AttributeId::MAX_INDEX, 65535);
}

#[test]
fn attribute_node_maps() {
    let node = AttributeNode {
        attributes: Attributes::new(AttributeId(1), AttributeId(3)),
        source: span(10, 20),
        contents: 21u32,
    };
    let doubled = node.copy_with(|x| x * 2);
    assert_eq!(doubled.contents, 42);
    assert_eq!(doubled.attributes, node.attributes);
    assert_eq!(doubled.source, node.source);
    let replaced = node.copy_as('c');
    assert_eq!(replaced.contents, 'c');
    assert_eq!(replaced.attributes, node.attributes);
    let text = AttributeNode {
        attributes: node.attributes,
        source: span(0, 4),
        contents: String::from("four"),
    };
    let len = text.map_with(|s| s.len());
    assert_eq!(len.contents, 4);
    assert_eq!(len.source, span(0, 4));
    let mapped = text.map(1.5f64);
    assert_eq!(mapped.contents, 1.5);
    assert_eq!(mapped.attributes, node.attributes);
    assert_eq!(text.contents, "four");
}

#[test]
fn noise_source_fold_keeps_the_kind() {
    let mut calls = Vec::new();
    let folded = NoiseSource::<u8, &str>::Flicker(1, 2).fold(
        |e| {
            calls.push(e);
            u32::from(e) + 100
        },
        |t| t.len(),
    );
    assert!(matches!(folded, NoiseSource::Flicker(101, 102)));
    assert_eq!(calls, vec![1, 2]);
    let white = NoiseSource::<u8, &str>::White(7).fold(|e| e + 1, |t| t.len());
    assert!(matches!(white, NoiseSource::White(8)));
    let table = NoiseSource::<u8, &str>::Table("abc").fold(|e| e + 1, |t| t.len());
    assert!(matches!(table, NoiseSource::Table(3)));
    let log = NoiseSource::<u8, &str>::TableLog("abcd").fold(|e| e + 1, |t| t.len());
    assert!(matches!(log, NoiseSource::TableLog(4)));
}

#[test]
fn range_bound_copies() {
    let bound = NumericalParameterRangeBound { inclusive: true, bound: 4i32 };
    assert_eq!(
        bound.copy_with(|b| i64::from(b) * 3),
        NumericalParameterRangeBound { inclusive: true, bound: 12i64 }
    );
    let mut seen = 0;
    let mut f = |b: i32| {
        seen += 1;
        b - 1
    };
    assert_eq!(
        bound.copy_with_ref(&mut f),
        NumericalParameterRangeBound { inclusive: true, bound: 3 }
    );
    assert_eq!(seen, 1);
    assert_eq!(
        bound.try_copy_with(|b| u8::try_from(b).ok()),
        Some(NumericalParameterRangeBound { inclusive: true, bound: 4u8 })
    );
    let negative = NumericalParameterRangeBound { inclusive: false, bound: -4i32 };
    assert_eq!(negative.try_copy_with(|b| u8::try_from(b).ok()), None);
    let mut to_u8 = |b: i32| u8::try_from(b).ok();
    assert_eq!(negative.try_copy_with_ref(&mut to_u8), None);
    assert_eq!(
        bound.try_copy_with_ref(&mut to_u8),
        Some(NumericalParameterRangeBound { inclusive: true, bound: 4u8 })
    );
}

#[test]
fn range_exclude_clones() {
    let value = NumericalParameterRangeExclude::Value(3i32);
    assert_eq!(value.clone_with(|v| v * 2), NumericalParameterRangeExclude::Value(6));
    let range = NumericalParameterRangeExclude::Range(
        NumericalParameterRangeBound { inclusive: true, bound: 1i32 }
            ..NumericalParameterRangeBound { inclusive: false, bound: 5i32 },
    );
    assert_eq!(
        range.clone_with(|v| v * 10),
        NumericalParameterRangeExclude::Range(
            NumericalParameterRangeBound { inclusive: true, bound: 10 }
                ..NumericalParameterRangeBound { inclusive: false, bound: 50 }
        )
    );
}

#[test]
fn range_exclude_try_clone_stops_at_first_failure() {
    let range = NumericalParameterRangeExclude::Range(
        NumericalParameterRangeBound { inclusive: true, bound: -1i32 }
            ..NumericalParameterRangeBound { inclusive: false, bound: 5i32 },
    );
    let mut calls = Vec::new();
    let mapped = range.try_clone_with(|v| {
        calls.push(v);
        u8::try_from(v).ok()
    });
    assert_eq!(mapped, None);
    assert_eq!(calls, vec![-1]);

    let range = NumericalParameterRangeExclude::Range(
        NumericalParameterRangeBound { inclusive: true, bound: 1i32 }
            ..NumericalParameterRangeBound { inclusive: false, bound: 500i32 },
    );
    assert_eq!(range.try_clone_with(|v| u8::try_from(v).ok()), None);

    let range = NumericalParameterRangeExclude::Range(
        NumericalParameterRangeBound { inclusive: true, bound: 1i32 }
            ..NumericalParameterRangeBound { inclusive: true, bound: 5i32 },
    );
    assert_eq!(
        range.try_clone_with(|v| u8::try_from(v).ok()),
        Some(NumericalParameterRangeExclude::Range(
            NumericalParameterRangeBound { inclusive: true, bound: 1u8 }
                ..NumericalParameterRangeBound { inclusive: true, bound: 5u8 }
        ))
    );
    assert_eq!(
        NumericalParameterRangeExclude::Value(300i32).try_clone_with(|v| u8::try_from(v).ok()),
        None
    );
    assert_eq!(
        NumericalParameterRangeExclude::Value(30i32).try_clone_with(|v| u8::try_from(v).ok()),
        Some(NumericalParameterRangeExclude::Value(30u8))
    );
}

#[test]
fn plain_kinds_can_be_built() {
    let attribute = Attribute {
        name: Ident { name: Symbol(3), span: span(0, 5) },
        value: Some(ExpressionId(8)),
    };
    assert_eq!(attribute.name.name, Symbol(3));
    assert_eq!(attribute.value, Some(ExpressionId(8)));
    assert!(matches!(BuiltInFunctionCall1p::Exp(true), BuiltInFunctionCall1p::Exp(true)));
    assert!(matches!(BuiltInFunctionCall2p::ArcTan2, BuiltInFunctionCall2p::ArcTan2));
    assert!(matches!(DisplayTaskKind::Convergence(false), DisplayTaskKind::Convergence(false)));
    assert!(matches!(FunctionType::Integer, FunctionType::Integer));
    let call: SystemFunctionCall<u8, u8, u8, u8> = SystemFunctionCall::Simparam(1, Some(2));
    assert!(matches!(call.clone(), SystemFunctionCall::Simparam(1, Some(2))));
}
