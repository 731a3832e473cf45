use dockerfile_fmt::{
    generate, is_well_formed, Dockerfile, EnvInstruction, EnvVar, FromInstruction, Instruction,
    ItemList, Label, LabelInstruction, PrintItem, Segment, Span, SpannedString,
    BreakableString, BreakableStringComponent,
};
use dprint_core::formatting::ir_helpers;
use dprint_core::formatting::ir_helpers::gen_from_raw_string;
use dprint_core::formatting::{conditions, PrintItems, PrintOptions, Signal};

fn string(src: &str, a: usize, b: usize) -> SpannedString {
    SpannedString { span: Span::new(a, b), content: src.chars().skip(a).take(b - a).collect() }
}

fn leaf_items(items: Vec<PrintItem>) -> PrintItems {
    let mut out = PrintItems::new();
    for item in items {
        match item {
            PrintItem::Text(text) => out.push_string(text),
            PrintItem::RawText(text) => out.extend(gen_from_raw_string(&text)),
            PrintItem::NewLine => out.push_signal(Signal::NewLine),
            PrintItem::ExpectNewLine => out.push_signal(Signal::ExpectNewLine),
        }
    }
    out
}

fn list_items(list: ItemList) -> PrintItems {
    let indent_width = list.indent_width;
    let values = list.values;
    ir_helpers::gen_separated_values(
        |is_multiline| {
            values
                .into_iter()
                .map(|value| {
                    let mut node_items = leaf_items(value.items);
                    if value.continuation {
                        let mut end = PrintItems::new();
                        end.push_str(" \\");
                        node_items.push_condition(conditions::if_true(
                            "endLineText",
                            is_multiline.create_resolver(),
                            end,
                        ));
                    }
                    ir_helpers::GeneratedValue {
                        items: if value.indented {
                            ir_helpers::with_indent_times(node_items, indent_width)
                        } else {
                            node_items
                        },
                        lines_span: Some(ir_helpers::LinesSpan {
                            start_line: value.line_index,
                            end_line: value.line_index,
                        }),
                        allow_inline_multi_line: false,
                        allow_inline_single_line: false,
                        is_known_multi_line: false,
                    }
                })
                .collect()
        },
        ir_helpers::GenSeparatedValuesOptions {
            prefer_hanging: false,
            force_use_new_lines: list.force_use_new_lines,
            allow_blank_lines: false,
            indent_width: 0,
            single_line_options: ir_helpers::SingleLineOptions {
                space_at_start: false,
                space_at_end: false,
                separator: Signal::SpaceOrNewLine.into(),
            },
            multi_line_options: ir_helpers::MultiLineOptions::same_line_no_indent(),
            force_possible_newline_at_start: false,
        },
    )
    .items
}

fn lay_out(file: &Dockerfile, text: &str, width: u32) -> String {
    assert!(is_well_formed(file, text));
    let segments = generate(file, text);
    dprint_core::formatting::format(
        move || {
            let mut items = PrintItems::new();
            for segment in segments {
                match segment {
                    Segment::Items(leaves) => items.extend(leaf_items(leaves)),
                    Segment::List(list) => items.extend(list_items(list)),
                }
            }
            items
        },
        PrintOptions { indent_width: 1, max_width: width, use_tabs: false, new_line_text: "\n" },
    )
}

fn labels(text: &str) -> Dockerfile {
    Dockerfile {
        instructions: vec![Instruction::Label(LabelInstruction {
            span: Span::new(0, 17),
            labels: vec![
                Label { span: Span::new(6, 9), name: string(text, 6, 7), value: string(text, 8, 9) },
                Label { span: Span::new(10, 13), name: string(text, 10, 11), value: string(text, 12, 13) },
                Label { span: Span::new(14, 17), name: string(text, 14, 15), value: string(text, 16, 17) },
            ],
        })],
    }
}

#[test]
fn list_too_wide_is_split_with_continuations() {
    let text = "LABEL a=1 b=2 c=3\n";
    let out = lay_out(&labels(text), text, 10);
    assert_eq!(out, "LABEL a=1 \\\n      b=2 \\\n      c=3\n");
}

#[test]
fn list_that_fits_stays_on_one_line() {
    let text = "LABEL a=1 b=2 c=3\n";
    assert_eq!(lay_out(&labels(text), text, 80), text);
}

#[test]
fn list_split_in_source_stays_split_at_any_width() {
    let text = "ENV A=1 \\\n    B=2\n";
    let one = |a: usize, b: usize| BreakableString {
        span: Span::new(a, b),
        components: vec![BreakableStringComponent::String(string(text, a, b))],
    };
    let file = Dockerfile {
        instructions: vec![Instruction::Env(EnvInstruction {
            span: Span::new(0, 17),
            vars: vec![
                EnvVar { span: Span::new(4, 7), key: string(text, 4, 5), value: one(6, 7) },
                EnvVar { span: Span::new(14, 17), key: string(text, 14, 15), value: one(16, 17) },
            ],
        })],
    };
    assert_eq!(lay_out(&file, text, 1000), "ENV A=1 \\\n    B=2\n");
}

#[test]
fn blank_lines_between_instructions_become_one() {
    let text = "FROM a\n\n\n\nFROM b\n";
    let from = |a: usize| {
        Instruction::From(FromInstruction {
            span: Span::new(a, a + 6),
            flags: vec![],
            image: string(text, a + 5, a + 6),
            alias: None,
        })
    };
    let file = Dockerfile { instructions: vec![from(0), from(10)] };
    assert_eq!(lay_out(&file, text, 80), "FROM a\n\nFROM b\n");
}
