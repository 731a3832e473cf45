use dockerfile_fmt::generate::gen_part;
use dockerfile_fmt::instructions::gen_node;
use dockerfile_fmt::text::{chars_of, line_index, newlines_between};
use dockerfile_fmt::{
    format_outcome, gen_comment_text, generate, is_well_formed, parse_comments, strip_bom,
    ArgInstruction, BreakableString, BreakableStringComponent, CmdInstruction, Context, CopyFlag,
    CopyInstruction, Dockerfile, EnvInstruction, EnvVar, FromInstruction, Instruction, ItemList,
    Label, LabelInstruction, MiscInstruction, Node, PrintItem, RunInstruction, Segment,
    ShellOrExecExpr, Span, SpannedComment, SpannedString, StringArray,
};

fn span(a: usize, b: usize) -> Span {
    Span::new(a, b)
}

fn text_of(src: &str, a: usize, b: usize) -> String {
    src.chars().skip(a).take(b - a).collect()
}

fn string(src: &str, a: usize, b: usize) -> SpannedString {
    SpannedString { span: span(a, b), content: text_of(src, a, b) }
}

fn one_line(src: &str, a: usize, b: usize) -> BreakableString {
    BreakableString {
        span: span(a, b),
        components: vec![BreakableStringComponent::String(string(src, a, b))],
    }
}

fn from(src: &str, a: usize, b: usize, image: (usize, usize)) -> Instruction {
    Instruction::From(FromInstruction {
        span: span(a, b),
        flags: vec![],
        image: string(src, image.0, image.1),
        alias: None,
    })
}

fn describe(items: &[PrintItem]) -> Vec<String> {
    items
        .iter()
        .map(|item| match item {
            PrintItem::Text(s) => format!("T:{}", s),
            PrintItem::RawText(s) => format!("R:{}", s),
            PrintItem::NewLine => "NL".to_string(),
            PrintItem::ExpectNewLine => "ENL".to_string(),
        })
        .collect()
}

fn render_items(items: &[PrintItem], out: &mut String) {
    for item in items {
        match item {
            PrintItem::Text(s) | PrintItem::RawText(s) => out.push_str(s),
            PrintItem::NewLine => out.push('\n'),
            PrintItem::ExpectNewLine => {},
        }
    }
}

// The layout a list gets when it fits on one line unless it is forced.
fn render_list(list: &ItemList, out: &mut String) {
    for (i, value) in list.values.iter().enumerate() {
        if i > 0 {
            if list.force_use_new_lines {
                out.push('\n');
            } else {
                out.push(' ');
            }
        }
        if list.force_use_new_lines && value.indented {
            for _ in 0..list.indent_width {
                out.push(' ');
            }
        }
        render_items(&value.items, out);
        if list.force_use_new_lines && value.continuation {
            out.push_str(" \\");
        }
    }
}

fn render(segments: &[Segment]) -> String {
    let mut out = String::new();
    for segment in segments {
        match segment {
            Segment::Items(items) => render_items(items, &mut out),
            Segment::List(list) => render_list(list, &mut out),
        }
    }
    out
}

fn generate_checked(file: &Dockerfile, text: &str) -> Vec<Segment> {
    assert!(is_well_formed(file, text));
    generate(file, text)
}

#[test]
fn strips_bom() {
    for input_text in ["\u{FEFF}FROM example:12.16.1\n", "\u{FEFF}FROM    example:12.16.1\n"] {
        let text = strip_bom(input_text);
        assert!(!text.starts_with('\u{FEFF}'));
        let image_start = text.find('e').unwrap();
        let end = text.chars().count() - 1;
        let file = Dockerfile { instructions: vec![from(text, 0, end, (image_start, end))] };
        let formatted = render(&generate_checked(&file, text));
        assert_eq!(
            format_outcome(formatted, input_text),
            Some("FROM example:12.16.1\n".to_string())
        );
    }
}

#[test]
fn strip_bom_keeps_text_without_mark() {
    assert_eq!(strip_bom("FROM a\n"), "FROM a\n");
    assert_eq!(strip_bom(""), "");
    assert_eq!(strip_bom("\u{FEFF}"), "");
    assert_eq!(strip_bom("\u{FEFF}\u{FEFF}x"), "\u{FEFF}x");
}

#[test]
fn canonical_input_is_left_alone() {
    let text = "FROM example:1.0\n";
    let file = Dockerfile { instructions: vec![from(text, 0, 16, (5, 16))] };
    let segments = generate_checked(&file, text);
    assert_eq!(render(&segments), text);
    assert_eq!(format_outcome(render(&segments), text), None);
}

#[test]
fn format_outcome_reports_changes() {
    assert_eq!(format_outcome("a\n".to_string(), "a\n"), None);
    assert_eq!(format_outcome("a\n".to_string(), "a \n"), Some("a\n".to_string()));
    assert_eq!(format_outcome(String::new(), ""), None);
}

#[test]
fn env_split_across_lines_stays_split() {
    let text = "ENV A=1 \\\n    B=2\n";
    let vars = vec![
        EnvVar { span: span(4, 7), key: string(text, 4, 5), value: one_line(text, 6, 7) },
        EnvVar { span: span(14, 17), key: string(text, 14, 15), value: one_line(text, 16, 17) },
    ];
    let file = Dockerfile {
        instructions: vec![Instruction::Env(EnvInstruction { span: span(0, 17), vars })],
    };
    let segments = generate_checked(&file, text);
    match &segments[1] {
        Segment::List(list) => {
            assert!(list.force_use_new_lines);
            assert_eq!(list.indent_width, 4);
            assert_eq!(list.values.len(), 2);
            assert!(list.values[0].continuation);
            assert!(!list.values[0].indented);
            assert_eq!(list.values[0].line_index, 0);
            assert!(!list.values[1].continuation);
            assert!(list.values[1].indented);
            assert_eq!(list.values[1].line_index, 1);
            assert_eq!(describe(&list.values[1].items), vec!["R:B", "T:=", "R:2"]);
        },
        _ => panic!("expected a list"),
    }
    assert_eq!(render(&segments), "ENV A=1 \\\n    B=2\n");
}

#[test]
fn long_label_list_gets_split_points() {
    let text = "LABEL a=1 b=2 c=3\n";
    let labels = vec![
        Label { span: span(6, 9), name: string(text, 6, 7), value: string(text, 8, 9) },
        Label { span: span(10, 13), name: string(text, 10, 11), value: string(text, 12, 13) },
        Label { span: span(14, 17), name: string(text, 14, 15), value: string(text, 16, 17) },
    ];
    let file = Dockerfile {
        instructions: vec![Instruction::Label(LabelInstruction { span: span(0, 17), labels })],
    };
    let segments = generate_checked(&file, text);
    assert_eq!(describe(match &segments[0] {
        Segment::Items(items) => items,
        _ => panic!("expected items"),
    }), vec!["T:LABEL "]);
    match &segments[1] {
        Segment::List(list) => {
            assert!(!list.force_use_new_lines);
            assert_eq!(list.indent_width, 6);
            let marks: Vec<(bool, bool)> =
                list.values.iter().map(|v| (v.continuation, v.indented)).collect();
            assert_eq!(marks, vec![(true, false), (true, true), (false, true)]);
        },
        _ => panic!("expected a list"),
    }
    assert_eq!(render(&segments), text);
}

#[test]
fn comments_among_pairs_join_the_list() {
    let text = "ENV A=1 \\\n  # note\n  B=2\n";
    let vars = vec![
        EnvVar { span: span(4, 7), key: string(text, 4, 5), value: one_line(text, 6, 7) },
        EnvVar { span: span(21, 24), key: string(text, 21, 22), value: one_line(text, 23, 24) },
    ];
    let file = Dockerfile {
        instructions: vec![Instruction::Env(EnvInstruction { span: span(0, 24), vars })],
    };
    let segments = generate_checked(&file, text);
    match &segments[1] {
        Segment::List(list) => {
            assert_eq!(list.values.len(), 3);
            assert_eq!(describe(&list.values[1].items), vec!["T:# note", "ENL"]);
            assert!(list.values[0].continuation);
            assert!(!list.values[1].continuation);
            assert!(!list.values[2].continuation);
            assert!(list.force_use_new_lines);
        },
        _ => panic!("expected a list"),
    }
}

#[test]
fn double_hash_comment_is_normalized() {
    let text = "##comment\nFROM a\n";
    let file = Dockerfile { instructions: vec![from(text, 10, 16, (15, 16))] };
    let segments = generate_checked(&file, text);
    assert_eq!(describe(match &segments[0] {
        Segment::Items(items) => items,
        _ => panic!("expected items"),
    }), vec!["T:# comment", "ENL"]);
    assert_eq!(render(&segments), "# comment\nFROM a\n");
}

#[test]
fn comment_text_forms() {
    assert_eq!(gen_comment_text("##comment"), "# comment");
    assert_eq!(gen_comment_text("# foo"), "# foo");
    assert_eq!(gen_comment_text("#  foo  "), "# foo");
    assert_eq!(gen_comment_text("#\tfoo"), "# foo");
    assert_eq!(gen_comment_text("#"), "#");
    assert_eq!(gen_comment_text("###"), "#");
    assert_eq!(gen_comment_text("# #x"), "# #x");
    assert_eq!(gen_comment_text(&gen_comment_text("##  a b ")), "# a b");
}

#[test]
fn blank_lines_collapse_to_one() {
    let cases = [
        ("FROM a\nRUN b\n", 7, "FROM a\nRUN b\n"),
        ("FROM a\n\nRUN b\n", 8, "FROM a\n\nRUN b\n"),
        ("FROM a\n\n\n\nRUN b\n", 10, "FROM a\n\nRUN b\n"),
    ];
    for (text, run_start, expected) in cases {
        let file = Dockerfile {
            instructions: vec![
                from(text, 0, 6, (5, 6)),
                Instruction::Run(RunInstruction {
                    span: span(run_start, run_start + 5),
                    expr: ShellOrExecExpr::Shell(one_line(text, run_start + 4, run_start + 5)),
                }),
            ],
        };
        assert_eq!(render(&generate_checked(&file, text)), expected);
    }
}

#[test]
fn comment_is_emitted_once() {
    let text = "# once\n";
    let mut ctx = Context::new(text);
    let first = gen_part(Node::Orphan(span(0, 6)), &mut ctx);
    assert_eq!(describe(&first), vec!["T:# once", "ENL"]);
    let again = gen_part(Node::Orphan(span(0, 6)), &mut ctx);
    assert!(again.is_empty());
}

#[test]
fn node_dispatcher_takes_every_kind() {
    let text = "FROM a\n# c\n";
    let instruction = from(text, 0, 6, (5, 6));
    let mut ctx = Context::new(text);
    let segments = gen_node(Node::from_instruction(&instruction), &mut ctx);
    assert_eq!(render(&segments), "FROM a");
    let comment = gen_node(Node::Orphan(span(7, 10)), &mut ctx);
    assert_eq!(render(&comment), "# c");
    let string = SpannedString { span: span(5, 6), content: "a".to_string() };
    assert_eq!(render(&gen_node(Node::String(&string), &mut ctx)), "a");
}

fn run_two_lines(text: &str, first_end: usize, second: (usize, usize)) -> Dockerfile {
    let end = second.1;
    Dockerfile {
        instructions: vec![Instruction::Run(RunInstruction {
            span: span(0, end),
            expr: ShellOrExecExpr::Shell(BreakableString {
                span: span(4, end),
                components: vec![
                    BreakableStringComponent::String(string(text, 4, first_end)),
                    BreakableStringComponent::String(string(text, second.0, second.1)),
                ],
            }),
        })],
    }
}

#[test]
fn continued_command_is_stable() {
    let text = "RUN a &&   \\\n  b\n";
    let once = render(&generate_checked(&run_two_lines(text, 11, (13, 16)), text));
    assert_eq!(once, "RUN a && \\\nb\n");
    let twice = render(&generate_checked(&run_two_lines(&once, 9, (11, 12)), &once));
    assert_eq!(twice, once);
    assert_eq!(format_outcome(twice, &once), None);
}

#[test]
fn comments_are_found_at_line_starts_only() {
    let found = parse_comments("  # a\nx # not\n#b", 10);
    let spans: Vec<(usize, usize, String)> =
        found.into_iter().map(|c| (c.span.start, c.span.end, c.content)).collect();
    assert_eq!(spans, vec![(12, 15, "# a".to_string()), (24, 26, "#b".to_string())]);
    assert!(parse_comments("", 0).is_empty());
    assert!(parse_comments("RUN echo # x\n", 0).is_empty());
    let crlf = parse_comments("#a\r\n", 0);
    assert_eq!(crlf[0].content, "#a\r");
}

#[test]
fn env_value_with_space_is_quoted() {
    let text = "ENV A=hello world\n";
    let vars = vec![EnvVar { span: span(4, 17), key: string(text, 4, 5), value: one_line(text, 6, 17) }];
    let file = Dockerfile {
        instructions: vec![Instruction::Env(EnvInstruction { span: span(0, 17), vars })],
    };
    let segments = generate_checked(&file, text);
    match &segments[1] {
        Segment::List(list) => {
            assert_eq!(
                describe(&list.values[0].items),
                vec!["R:A", "T:=", "T:\"", "R:hello world", "T:\""]
            );
        },
        _ => panic!("expected a list"),
    }
}

#[test]
fn breakable_lines_are_joined_with_backslashes() {
    let text = "RUN apt-get update && \\\n    apt-get install x\n";
    let run = RunInstruction {
        span: span(0, 45),
        expr: ShellOrExecExpr::Shell(BreakableString {
            span: span(4, 45),
            components: vec![
                BreakableStringComponent::String(string(text, 4, 22)),
                BreakableStringComponent::Comment(SpannedComment {
                    span: span(22, 22),
                    content: "#x".to_string(),
                }),
                BreakableStringComponent::String(string(text, 24, 45)),
            ],
        }),
    };
    let file = Dockerfile { instructions: vec![Instruction::Run(run)] };
    let segments = generate_checked(&file, text);
    assert_eq!(describe(match &segments[0] {
        Segment::Items(items) => items,
        _ => panic!("expected items"),
    }), vec![
        "T:RUN ",
        "R:apt-get update &&",
        "T: \\",
        "NL",
        "T:# x",
        "ENL",
        "NL",
        "R:apt-get install x",
    ]);
}

#[test]
fn quoted_breakable_keeps_content() {
    let text = "RUN \"a  b\"\n";
    let run = RunInstruction {
        span: span(0, 10),
        expr: ShellOrExecExpr::Shell(BreakableString {
            span: span(4, 10),
            components: vec![BreakableStringComponent::String(SpannedString {
                span: span(4, 10),
                content: " a  b ".to_string(),
            })],
        }),
    };
    let file = Dockerfile { instructions: vec![Instruction::Run(run)] };
    let segments = generate_checked(&file, text);
    assert_eq!(render(&segments), "RUN \" a  b \"\n");
}

#[test]
fn exec_form_stays_on_one_line() {
    let text = "CMD [\"a\",   \"b\"]\n";
    let cmd = CmdInstruction {
        span: span(0, 16),
        expr: ShellOrExecExpr::Exec(StringArray {
            span: span(4, 16),
            elements: vec![string(text, 5, 8), string(text, 12, 15)],
        }),
    };
    let file = Dockerfile { instructions: vec![Instruction::Cmd(cmd)] };
    assert_eq!(render(&generate_checked(&file, text)), "CMD [\"a\", \"b\"]\n");
}

#[test]
fn copy_flags_sources_destination() {
    let text = "COPY --from=build a  b /dst\n";
    let copy = CopyInstruction {
        span: span(0, 27),
        flags: vec![CopyFlag { span: span(5, 17), name: string(text, 7, 11), value: string(text, 12, 17) }],
        sources: vec![string(text, 18, 19), string(text, 21, 22)],
        destination: string(text, 23, 27),
    };
    let file = Dockerfile { instructions: vec![Instruction::Copy(copy)] };
    assert_eq!(render(&generate_checked(&file, text)), "COPY --from=build a b /dst\n");
}

#[test]
fn arg_from_alias_and_other_instructions() {
    let text = "ARG V=1\nFROM img AS base\nWORKDIR   /app\n";
    let file = Dockerfile {
        instructions: vec![
            Instruction::Arg(ArgInstruction {
                span: span(0, 7),
                name: string(text, 4, 5),
                value: Some(string(text, 6, 7)),
            }),
            Instruction::From(FromInstruction {
                span: span(8, 24),
                flags: vec![],
                image: string(text, 13, 16),
                alias: Some(string(text, 20, 24)),
            }),
            Instruction::Misc(MiscInstruction {
                span: span(25, 39),
                instruction: string(text, 25, 32),
                arguments: one_line(text, 35, 39),
            }),
        ],
    };
    assert_eq!(render(&generate_checked(&file, text)), "ARG V=1\nFROM img AS base\nWORKDIR /app\n");
}

#[test]
fn spans_outside_the_text_are_refused() {
    let text = "FROM a\n";
    let file = Dockerfile { instructions: vec![from(text, 0, 60, (5, 60))] };
    assert!(!is_well_formed(&file, text));
    let overlapping = Dockerfile { instructions: vec![from(text, 0, 6, (5, 6)), from(text, 3, 6, (5, 6))] };
    assert!(!is_well_formed(&overlapping, text));
    assert!(is_well_formed(&Dockerfile { instructions: vec![] }, ""));
}

#[test]
fn line_positions() {
    let chars = chars_of("a\nb\n\nc");
    assert_eq!(line_index(&chars, 0), 0);
    assert_eq!(line_index(&chars, 2), 1);
    assert_eq!(line_index(&chars, 5), 3);
    assert_eq!(line_index(&chars, 99), 3);
    assert_eq!(newlines_between(&chars, 1, 5), 3);
}

#[test]
fn empty_file_generates_nothing() {
    let file = Dockerfile { instructions: vec![] };
    assert!(generate_checked(&file, "").is_empty());
    let only_comment = generate_checked(&file, "# c\n");
    assert_eq!(render(&only_comment), "# c\n");
}

#[test]
fn context_tracks_parents() {
    let text = "FROM a\n";
    let mut ctx = Context::new(text);
    assert!(ctx.parent().is_none());
    ctx.set_current_node(Node::Orphan(span(0, 4)));
    assert!(ctx.parent().is_none());
    ctx.set_current_node(Node::Orphan(span(5, 6)));
    assert_eq!(ctx.parent().map(|p| p.span()), Some(span(0, 4)));
    ctx.pop_current_node();
    assert!(ctx.parent().is_none());
    assert_eq!(ctx.current_node.map(|n| n.span()), Some(span(0, 4)));
    ctx.pop_current_node();
    assert!(ctx.current_node.is_none());
    assert_eq!(ctx.span_text(&span(0, 4)), "FROM");
}

#[test]
fn unicode_whitespace_is_trimmed() {
    let text = "FROM \u{A0}img\u{3000}\n";
    let file = Dockerfile { instructions: vec![from(text, 0, 10, (5, 10))] };
    assert_eq!(render(&generate_checked(&file, text)), "FROM img\n");
}

#[test]
fn nodes_with_comments_keep_source_order() {
    let text = "# a\nFROM x\n  # b\n";
    let instruction = from(text, 4, 10, (9, 10));
    let ctx = Context::new(text);
    let nodes = ctx.parse_nodes_with_comments(0, 17, vec![Node::from_instruction(&instruction)]);
    let spans: Vec<(usize, usize, bool)> =
        nodes.iter().map(|n| (n.span().start, n.span().end, n.is_comment())).collect();
    assert_eq!(spans, vec![(0, 3, true), (4, 10, false), (13, 16, true)]);
}
