use auto_diff::attrs::{attr_level, Attr, AttrDiagnostic, Element, Expr, LintAttrs, Literal};
use auto_diff::lints::{ErasedItemTreeId, Lint, LintLevel, LintSrc};
use auto_diff::span::TextRange;

fn at(start: u32, end: u32) -> TextRange {
    TextRange { start, end }
}

fn string(value: &str, lint: Option<u32>, range: TextRange) -> Literal {
    Literal::String { value: value.to_owned(), lint: lint.map(Lint), range }
}

fn attr(name: &str, val: Option<Expr>, range: TextRange) -> Attr {
    Attr { name: Some(name.to_owned()), val, range }
}

#[test]
fn level_attribute_names() {
    assert_eq!(LintLevel::Allow.attr(), "openvaf_allow");
    assert_eq!(LintLevel::Warn.attr(), "openvaf_warn");
    assert_eq!(LintLevel::Deny.attr(), "openvaf_deny");
    assert_eq!(attr_level("openvaf_allow"), Some(LintLevel::Allow));
    assert_eq!(attr_level("openvaf_warn"), Some(LintLevel::Warn));
    assert_eq!(attr_level("openvaf_deny"), Some(LintLevel::Deny));
    assert_eq!(attr_level("openvaf_den"), None);
    assert_eq!(attr_level("desc"), None);
}

#[test]
fn empty_lint_attrs() {
    let attrs = LintAttrs::empty(Some(ErasedItemTreeId(4)));
    assert_eq!(attrs.parent(), Some(ErasedItemTreeId(4)));
    assert_eq!(attrs.level(Lint(0)), None);
    assert_eq!(
        attrs.lint_src(Lint(0)),
        LintSrc { overwrite: None, item_tree: Some(ErasedItemTreeId(4)) }
    );
    assert_eq!(LintAttrs::empty(None), LintAttrs::default());
}

#[test]
fn single_string_sets_the_level() {
    let mut err = Vec::new();
    let attrs = LintAttrs::resolve(
        None,
        &vec![attr(
            "openvaf_allow",
            Some(Expr::Literal(string("unused", Some(3), at(10, 18)))),
            at(0, 20),
        )],
        &mut err,
    );
    assert!(err.is_empty());
    assert_eq!(attrs.level(Lint(3)), Some(LintLevel::Allow));
    assert_eq!(attrs.level(Lint(2)), None);
    assert_eq!(attrs.parent(), None);
    assert_eq!(
        attrs.lint_src(Lint(3)),
        LintSrc { overwrite: Some(LintLevel::Allow), item_tree: None }
    );
}

#[test]
fn array_sets_each_level_and_reports_what_is_no_string() {
    let mut err = Vec::new();
    let attrs = LintAttrs::resolve(
        Some(ErasedItemTreeId(1)),
        &vec![attr(
            "openvaf_deny",
            Some(Expr::ArrayExpr(vec![
                Element::Literal(string("a", Some(0), at(1, 2))),
                Element::Other { range: at(3, 4) },
                Element::Literal(Literal::Other { range: at(5, 6) }),
                Element::Literal(string("b", Some(1), at(7, 8))),
            ])),
            at(0, 9),
        )],
        &mut err,
    );
    assert_eq!(attrs.level(Lint(0)), Some(LintLevel::Deny));
    assert_eq!(attrs.level(Lint(1)), Some(LintLevel::Deny));
    assert_eq!(
        err,
        vec![
            AttrDiagnostic::ExpectedLiteral { range: at(3, 4), attr: "openvaf_deny" },
            AttrDiagnostic::ExpectedLiteral { range: at(5, 6), attr: "openvaf_deny" },
        ]
    );
}

#[test]
fn later_overwrite_wins_and_is_reported() {
    let mut err = Vec::new();
    let attrs = LintAttrs::resolve(
        None,
        &vec![
            attr("openvaf_allow", Some(Expr::Literal(string("x", Some(7), at(1, 2)))), at(0, 3)),
            attr("openvaf_warn", Some(Expr::Literal(string("x", Some(7), at(5, 6)))), at(4, 7)),
            attr(
                "openvaf_deny",
                Some(Expr::ArrayExpr(vec![Element::Literal(string("x", Some(7), at(9, 10)))])),
                at(8, 11),
            ),
        ],
        &mut err,
    );
    assert_eq!(attrs.level(Lint(7)), Some(LintLevel::Deny));
    assert_eq!(
        err,
        vec![
            AttrDiagnostic::LintOverwrite { old: at(1, 2), new: at(5, 6), name: "x".to_owned() },
            AttrDiagnostic::LintOverwrite { old: at(5, 6), new: at(9, 10), name: "x".to_owned() },
        ]
    );
}

#[test]
fn unknown_lints_are_reported_unless_they_belong_to_a_plugin() {
    let mut err = Vec::new();
    let attrs = LintAttrs::resolve(
        None,
        &vec![attr(
            "openvaf_warn",
            Some(Expr::ArrayExpr(vec![
                Element::Literal(string("no_such_lint", None, at(1, 2))),
                Element::Literal(string("plugin::lint", None, at(3, 4))),
                Element::Literal(string("a:b", None, at(5, 6))),
                Element::Literal(string("::", None, at(7, 8))),
                Element::Literal(string("", None, at(9, 10))),
            ])),
            at(0, 11),
        )],
        &mut err,
    );
    assert_eq!(attrs, LintAttrs::empty(None));
    assert_eq!(
        err,
        vec![
            AttrDiagnostic::UnkownLint { range: at(1, 2), lint: "no_such_lint".to_owned() },
            AttrDiagnostic::UnkownLint { range: at(5, 6), lint: "a:b".to_owned() },
            AttrDiagnostic::UnkownLint { range: at(9, 10), lint: String::new() },
        ]
    );
}

#[test]
fn other_values_are_reported_with_their_place() {
    let mut err = Vec::new();
    let attrs = LintAttrs::resolve(
        None,
        &vec![
            attr("openvaf_allow", None, at(0, 5)),
            attr("openvaf_warn", Some(Expr::Other { range: at(8, 9) }), at(6, 10)),
            attr(
                "openvaf_deny",
                Some(Expr::Literal(Literal::Other { range: at(13, 14) })),
                at(11, 15),
            ),
        ],
        &mut err,
    );
    assert_eq!(attrs, LintAttrs::empty(None));
    assert_eq!(
        err,
        vec![
            AttrDiagnostic::ExpectedArrayOrLiteral { range: at(0, 5), attr: "openvaf_allow" },
            AttrDiagnostic::ExpectedArrayOrLiteral { range: at(8, 9), attr: "openvaf_warn" },
            AttrDiagnostic::ExpectedArrayOrLiteral { range: at(13, 14), attr: "openvaf_deny" },
        ]
    );
}

#[test]
fn other_attributes_are_passed_over() {
    let mut err = vec![AttrDiagnostic::ExpectedLiteral { range: at(90, 91), attr: "openvaf_warn" }];
    let attrs = LintAttrs::resolve(
        Some(ErasedItemTreeId(2)),
        &vec![
            attr("desc", Some(Expr::Literal(string("x", Some(1), at(1, 2)))), at(0, 3)),
            Attr { name: None, val: None, range: at(4, 5) },
            attr("openvaf_allowed", None, at(6, 7)),
        ],
        &mut err,
    );
    assert_eq!(attrs, LintAttrs::empty(Some(ErasedItemTreeId(2))));
    // what was reported before stays
    assert_eq!(
        err,
        vec![AttrDiagnostic::ExpectedLiteral { range: at(90, 91), attr: "openvaf_warn" }]
    );
    let cloned = attrs.clone();
    assert_eq!(cloned, attrs);
}
