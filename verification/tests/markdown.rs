use md2nb::ast::{parse_markdown_to_ast, Block, Level, ListItem, StyleSet, Text, TextSpan, TextStyle};

fn plain(text: &str) -> TextSpan {
    TextSpan::Text(text.into(), StyleSet::new())
}

fn styled(text: &str, styles: &[TextStyle]) -> TextSpan {
    TextSpan::Text(text.into(), StyleSet::from_styles(styles))
}

#[test]
fn tests() {
    assert_eq!(
        parse_markdown_to_ast("hello"),
        Ok(vec![Block::paragraph(vec![TextSpan::Text(
            "hello".into(),
            StyleSet::new()
        )])])
    );

    //--------------
    // Styled text
    //--------------

    assert_eq!(
        parse_markdown_to_ast("*hello*"),
        Ok(vec![Block::paragraph(vec![TextSpan::Text(
            "hello".into(),
            StyleSet::from_styles(&[TextStyle::Emphasis])
        )])])
    );

    assert_eq!(
        parse_markdown_to_ast("**hello**"),
        Ok(vec![Block::paragraph(vec![TextSpan::Text(
            "hello".into(),
            StyleSet::from_styles(&[TextStyle::Strong])
        )])])
    );

    assert_eq!(
        parse_markdown_to_ast("~~hello~~"),
        Ok(vec![Block::paragraph(vec![TextSpan::Text(
            "hello".into(),
            StyleSet::from_styles(&[TextStyle::Strikethrough])
        )])])
    );

    //--------------
    // Lists
    //--------------

    assert_eq!(
        parse_markdown_to_ast("* hello"),
        Ok(vec![Block::List(vec![ListItem(vec![Block::paragraph(vec![
            TextSpan::Text("hello".into(), StyleSet::new())
        ])])])])
    );

    // List items with styled text

    assert_eq!(
        parse_markdown_to_ast("* *hello*"),
        Ok(vec![Block::List(vec![ListItem(vec![Block::paragraph(vec![
            TextSpan::Text(
                "hello".into(),
                StyleSet::from_styles(&[TextStyle::Emphasis])
            )
        ])])])])
    );

    assert_eq!(
        parse_markdown_to_ast("* **hello**"),
        Ok(vec![Block::List(vec![ListItem(vec![Block::paragraph(vec![
            TextSpan::Text("hello".into(), StyleSet::from_styles(&[TextStyle::Strong]))
        ])])])])
    );

    assert_eq!(
        parse_markdown_to_ast("* ~~hello~~"),
        Ok(vec![Block::List(vec![ListItem(vec![Block::paragraph(vec![
            TextSpan::Text(
                "hello".into(),
                StyleSet::from_styles(&[TextStyle::Strikethrough])
            )
        ])])])])
    );
}

#[test]
fn test_structure() {
    assert_eq!(
        parse_markdown_to_ast("* hello\n\n  world\n"),
        Ok(vec![Block::List(vec![ListItem(vec![
            Block::paragraph(vec![plain("hello")]),
            Block::paragraph(vec![plain("world")])
        ])])])
    );

    assert_eq!(
        parse_markdown_to_ast(
            "# Example\n\n* A\n  - A.A\n\n    hello world\n\n    * *A.A.A*\n"
        ),
        Ok(vec![
            Block::Heading(Level::H1, Text(vec![plain("Example")])),
            Block::List(vec![ListItem(vec![
                Block::paragraph(vec![plain("A")]),
                Block::List(vec![ListItem(vec![
                    Block::paragraph(vec![plain("A.A")]),
                    Block::paragraph(vec![plain("hello world")]),
                    Block::List(vec![ListItem(vec![Block::paragraph(vec![styled(
                        "A.A.A",
                        &[TextStyle::Emphasis]
                    )])])])
                ])])
            ])])
        ])
    );

    assert_eq!(
        parse_markdown_to_ast("* A\n  - A.A\n    * A.A.A\n  - A.B\n  - A.C\n"),
        Ok(vec![Block::List(vec![ListItem(vec![
            Block::paragraph(vec![plain("A")]),
            Block::List(vec![
                ListItem(vec![
                    Block::paragraph(vec![plain("A.A")]),
                    Block::List(vec![ListItem(vec![Block::paragraph(vec![plain(
                        "A.A.A"
                    )]),])])
                ]),
                ListItem(vec![Block::paragraph(vec![plain("A.B")]),]),
                ListItem(vec![Block::paragraph(vec![plain("A.C")]),])
            ])
        ])])])
    );

    assert_eq!(
        parse_markdown_to_ast("# Example\n\n* A\n  - A.A\n  - A.B\n  * A.C\n"),
        Ok(vec![
            Block::Heading(Level::H1, Text(vec![plain("Example")])),
            Block::List(vec![ListItem(vec![
                Block::paragraph(vec![plain("A")]),
                Block::List(vec![
                    ListItem(vec![Block::paragraph(vec![plain("A.A")]),]),
                    ListItem(vec![Block::paragraph(vec![plain("A.B")]),]),
                ]),
                Block::List(vec![ListItem(vec![Block::paragraph(vec![plain("A.C")])])]),
            ]),])
        ])
    );

    assert_eq!(
        parse_markdown_to_ast(
            "* A\n  - A.A\n  - A.B\n\n    separate paragraph\n\n  - A.C\n"
        ),
        Ok(vec![Block::List(vec![ListItem(vec![
            Block::paragraph(vec![plain("A")]),
            Block::List(vec![
                ListItem(vec![Block::paragraph(vec![plain("A.A")]),]),
                ListItem(vec![
                    Block::paragraph(vec![plain("A.B")]),
                    Block::paragraph(vec![plain("separate paragraph")]),
                ]),
                ListItem(vec![Block::paragraph(vec![plain("A.C")]),])
            ])
        ])])])
    );

    assert_eq!(
        parse_markdown_to_ast(
            "# Example\n\n* A\n  - A.A\n    * A.A.A\n      **soft break**\n\n  - A.B\n\n    separate paragraph\n\n  - A.C\n"
        ),
        Ok(vec![
            Block::Heading(Level::H1, Text(vec![plain("Example")])),
            Block::List(vec![ListItem(vec![
                Block::paragraph(vec![plain("A")]),
                Block::List(vec![
                    ListItem(vec![
                        Block::paragraph(vec![plain("A.A")]),
                        Block::List(vec![ListItem(vec![Block::paragraph(vec![
                            plain("A.A.A"),
                            TextSpan::SoftBreak,
                            styled("soft break", &[TextStyle::Strong])
                        ]),])]),
                    ]),
                    ListItem(vec![
                        Block::paragraph(vec![plain("A.B")]),
                        Block::paragraph(vec![plain("separate paragraph")]),
                    ]),
                    ListItem(vec![Block::paragraph(vec![plain("A.C")]),]),
                ])
            ])])
        ])
    );
}
