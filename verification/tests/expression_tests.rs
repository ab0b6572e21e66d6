use easy_config::expression::{escape, unescape, Expression};

fn nested() -> Expression {
    Expression::binding(
        "alphabet",
        Expression::list(vec![
            Expression::presence_str("a"),
            Expression::presence_str("b"),
            Expression::presence_str("c"),
        ]),
    )
}

fn more_nested() -> Expression {
    Expression::binding("alphabet", Expression::list(vec![nested(), nested()]))
}

#[test]
fn expression_dump() {
    assert_eq!(nested().dump(), String::from("alphabet = (a b c)"))
}

#[test]
fn expression_pretty() {
    assert_eq!(nested().pretty(), String::from("alphabet = (\n\ta\n\tb\n\tc\n)"))
}

#[test]
fn expression_pretty_more_nested() {
    assert_eq!(
        more_nested().pretty(),
        String::from(
            "alphabet = (\n\talphabet = (\n\t\ta\n\t\tb\n\t\tc\n\t)\n\talphabet = (\n\t\ta\n\t\tb\n\t\tc\n\t)\n)"
        )
    )
}

#[test]
fn pretty_harder() {
    let make_pretty = Expression::list(vec![
        Expression::binding("run_name", Expression::presence_str("first")),
        Expression::binding(
            "names_in_run",
            Expression::list(vec![
                Expression::list(vec![
                    Expression::presence_str("HandMade"),
                    Expression::presence_str("Ethan"),
                ]),
                Expression::list(vec![
                    Expression::presence_str("HandMade"),
                    Expression::presence_str("James"),
                ]),
                Expression::list(vec![
                    Expression::presence_str("Generated"),
                    Expression::presence_str("SDKJLHF"),
                ]),
                Expression::list(vec![
                    Expression::presence_str("Generated"),
                    Expression::presence_str("Kerflooble"),
                ]),
            ]),
        ),
        Expression::binding("count", Expression::presence_str("2")),
    ]);

    assert_eq!(
        make_pretty.pretty(),
        "(\n\trun_name = first
\tnames_in_run = (
\t\t(
\t\t\tHandMade
\t\t\tEthan
\t\t)
\t\t(
\t\t\tHandMade
\t\t\tJames
\t\t)
\t\t(
\t\t\tGenerated
\t\t\tSDKJLHF
\t\t)
\t\t(
\t\t\tGenerated
\t\t\tKerflooble
\t\t)
\t)
\tcount = 2
)"
    )
}

fn get_demo_expr() -> Expression {
    Expression::list(vec![
        Expression::binding("key", Expression::presence_str("cat")),
        Expression::binding(
            "vec",
            Expression::list(vec![
                Expression::presence_str("bird"),
                Expression::presence_str("dog"),
            ]),
        ),
    ])
}

#[test]
fn get() {
    let gotten = get_demo_expr().get("vec").unwrap();
    assert_eq!(
        gotten,
        Expression::list(vec![
            Expression::presence_str("bird"),
            Expression::presence_str("dog"),
        ])
    )
}

#[test]
fn release_reaches_through_bindings() {
    let e = Expression::binding("a", Expression::binding("b", Expression::presence_str("x")));
    assert_eq!(e.release().unwrap().text(), "x");
    assert!(Expression::list(vec![]).release().is_none());
}

#[test]
fn minimized_collapses_singletons() {
    // a one-element list collapses to its element; everything else is
    // left alone
    let single = Expression::list(vec![Expression::presence_str("a")]);
    assert_eq!(single.minimized(), Expression::presence_str("a"));

    let double = Expression::list(vec![
        Expression::presence_str("a"),
        Expression::presence_str("b"),
    ]);
    let same = Expression::list(vec![
        Expression::presence_str("a"),
        Expression::presence_str("b"),
    ]);
    assert_eq!(double.minimized(), same);

    let bare = Expression::presence_str("a");
    assert_eq!(bare.minimized(), Expression::presence_str("a"));
}

#[test]
fn minimized_twice_matches_once_minimized() {
    let e = Expression::list(vec![
        Expression::presence_str("a"),
        Expression::presence_str("b"),
    ]);
    let once = Expression::list(vec![
        Expression::presence_str("a"),
        Expression::presence_str("b"),
    ])
    .minimized();
    assert_eq!(e.minimized().minimized(), once);
}

#[test]
fn escape_then_unescape_is_identity() {
    let original = "a(b)c=d#e\\f and spaces";
    assert_eq!(unescape(escape(original).as_str()), original);
    assert_eq!(escape("(x)"), "\\(x\\)");
}

#[test]
fn dump_never_emits_comments_pretty_does() {
    let e = Expression::presence_str("value").with_comment("why".to_string());
    assert_eq!(e.dump(), "value");
    assert_eq!(e.pretty(), "# why\nvalue");
}
