//! End-to-end checks of the renderer on concrete documents.

use incodoc_to_ansi::{
    doc_to_ansi_string, heading_to_ansi, newlines_unless, append, Config, Context, Doc, DocItem,
    EmOrText, Emphasis, EmStrength, EmType, Heading, Link, List, ListType, Nav, Paragraph,
    ParagraphItem, ParStatus, Section, SectionItem, TextWithMeta,
};
use incodoc_to_ansi::{CodeBlock, CodeIdentError, Table, TableRow};
use incodoc_to_ansi::emphasis_to_ansi;

const R: &str = "\u{1b}[00m";
const B: &str = "\u{1b}[01m";
const F: &str = "\u{1b}[02m";
const I: &str = "\u{1b}[03m";
const H: &str = "\u{1b}[08m";
const C: &str = "\u{1b}[09m";
const M: &str = "\u{1b}[35m";
const BG: &str = "\u{1b}[40m";

fn text_par(s: &str) -> Paragraph {
    Paragraph { items: vec![ParagraphItem::Text(s.to_string())], tags: vec![] }
}

fn doc_of(items: Vec<DocItem>) -> Doc {
    Doc { items }
}

fn conf(width: usize) -> Config {
    Config { width }
}

/// The visible characters of a line: everything outside ESC..`m` sequences.
fn strip_ansi(s: &str) -> String {
    let mut out = String::new();
    let mut in_esc = false;
    for ch in s.chars() {
        if in_esc {
            if ch == 'm' {
                in_esc = false;
            }
        } else if ch == '\u{1b}' {
            in_esc = true;
        } else {
            out.push(ch);
        }
    }
    out
}

#[test]
fn test_paragraph_wraps_at_width() {
    let doc = doc_of(vec![DocItem::Paragraph(text_par("a b c"))]);
    let out = doc_to_ansi_string(&doc, &conf(3));
    assert_eq!(out, format!("{R}{R}a b\n{R}{R}c"));
    assert_eq!(strip_ansi(&out), "a b\nc");
}

#[test]
fn test_whitespace_collapses() {
    let doc = doc_of(vec![DocItem::Paragraph(text_par("a \t  b"))]);
    let out = doc_to_ansi_string(&doc, &conf(80));
    assert_eq!(out, format!("{R}{R}a b"));
}

#[test]
fn test_newline_collapsing_single_blank() {
    let doc = doc_of(vec![DocItem::Paragraph(text_par("para1\n\npara2"))]);
    let out = doc_to_ansi_string(&doc, &conf(80));
    assert_eq!(out, format!("{R}{R}para1\n{R}{R}{R}{R}para2"));
    assert_eq!(strip_ansi(&out).matches('\n').count(), 1);
}

#[test]
fn test_column_bound_on_wrapped_text() {
    let doc = doc_of(vec![DocItem::Paragraph(text_par(
        "words of unremarkable length keep wrapping here",
    ))]);
    let out = doc_to_ansi_string(&doc, &conf(10));
    for line in strip_ansi(&out).split('\n') {
        assert!(line.chars().count() <= 10);
    }
}

#[test]
fn test_heading_bold_scope() {
    let mut c = Context::default();
    c.width = 80;
    let mut out = String::new();
    let heading = Heading { items: vec![EmOrText::Text("Hi".to_string())] };
    heading_to_ansi(&heading, &conf(80), &mut c, &mut out);
    assert_eq!(out, format!("{B}{R}{B}Hi{R}"));
}

#[test]
fn test_scope_balance_restored() {
    let mut c = Context::default();
    c.width = 80;
    let before_fg = c.fg_mod.clone();
    let mut out = String::new();
    let heading = Heading {
        items: vec![
            EmOrText::Text("t".to_string()),
            EmOrText::Em(Emphasis {
                etype: EmType::Emphasis,
                strength: EmStrength::Medium,
                text: "e".to_string(),
            }),
        ],
    };
    heading_to_ansi(&heading, &conf(80), &mut c, &mut out);
    assert_eq!(c.fg_mod, before_fg);
    assert!(c.fg_mod_stack.is_empty());
    assert!(c.bg_mod_stack.is_empty());
    assert!(c.ii_stack.is_empty());
    assert_eq!(c.indentation, 0);
}

#[test]
fn test_inline_code_background() {
    let doc = doc_of(vec![DocItem::Paragraph(Paragraph {
        items: vec![
            ParagraphItem::Text("a".to_string()),
            ParagraphItem::MText(TextWithMeta {
                text: "x".to_string(),
                tags: vec!["code".to_string()],
            }),
        ],
        tags: vec![],
    })]);
    let out = doc_to_ansi_string(&doc, &conf(80));
    assert_eq!(out, format!("{R}{R}a {R}{BG}x{R}{R}"));
}

#[test]
fn test_mtext_without_code_tag_is_plain() {
    let doc = doc_of(vec![DocItem::Paragraph(Paragraph {
        items: vec![ParagraphItem::MText(TextWithMeta {
            text: "t".to_string(),
            tags: vec!["other".to_string()],
        })],
        tags: vec![],
    })]);
    let out = doc_to_ansi_string(&doc, &conf(80));
    assert_eq!(out, format!("{R}{R}t"));
}

#[test]
fn test_distinct_list_marker_alignment() {
    let items: Vec<Paragraph> = (0..11).map(|_| text_par("t")).collect();
    let doc = doc_of(vec![DocItem::Paragraph(Paragraph {
        items: vec![ParagraphItem::List(List { ltype: ListType::Distinct, items })],
        tags: vec![],
    })]);
    let out = doc_to_ansi_string(&doc, &conf(80));
    let mut expected = String::new();
    for i in 0..11 {
        expected += &format!("\n{R}{R}{i:>2}. {R}{R}t");
    }
    assert_eq!(out, expected);
    assert!(strip_ansi(&out).contains(" 0. t"));
    assert!(strip_ansi(&out).contains("10. t"));
}

#[test]
fn test_identical_list_markers() {
    let doc = doc_of(vec![DocItem::Paragraph(Paragraph {
        items: vec![ParagraphItem::List(List {
            ltype: ListType::Identical,
            items: vec![text_par("t"), text_par("u")],
        })],
        tags: vec![],
    })]);
    let out = doc_to_ansi_string(&doc, &conf(80));
    assert_eq!(out, format!("\n{R}{R}- {R}{R}t\n{R}{R}- {R}{R}u"));
}

#[test]
fn test_checked_list_markers() {
    let mut done = text_par("t");
    done.tags.push("checked".to_string());
    let doc = doc_of(vec![DocItem::Paragraph(Paragraph {
        items: vec![ParagraphItem::List(List {
            ltype: ListType::Checked,
            items: vec![done, text_par("u")],
        })],
        tags: vec![],
    })]);
    let out = doc_to_ansi_string(&doc, &conf(80));
    assert_eq!(out, format!("\n{R}{R}- [x] {R}{R}t\n{R}{R}- [ ] {R}{R}u"));
}

#[test]
fn test_code_ident_error_annotation() {
    let doc = doc_of(vec![DocItem::Paragraph(Paragraph {
        items: vec![ParagraphItem::Code(Err(CodeIdentError))],
        tags: vec![],
    })]);
    let out = doc_to_ansi_string(&doc, &conf(80));
    assert_eq!(out, format!("{R}{R}  {R}error: incodoc code identation error{R}"));
    assert!(out.contains("error: incodoc code identation error"));
}

#[test]
fn test_separator_budgeting() {
    let mut c = Context::default();
    c.width = 80;
    c.ps = ParStatus::Newline(2);
    let mut out = String::new();
    newlines_unless(1, &[], &mut c, &mut out);
    assert_eq!(out, "");
    assert_eq!(c.ps, ParStatus::Newline(2));
    newlines_unless(3, &[], &mut c, &mut out);
    assert_eq!(out, "\n");
    assert_eq!(c.ps, ParStatus::Newline(3));
    let mut c2 = Context::default();
    c2.ps = ParStatus::New;
    let mut out2 = String::new();
    newlines_unless(2, &[ParStatus::New], &mut c2, &mut out2);
    assert_eq!(out2, "");
    assert_eq!(c2.ps, ParStatus::New);
}

#[test]
fn test_append_column_threshold() {
    let mut c = Context::default();
    c.width = 3;
    let mut out = String::new();
    append("abcd", &mut c, &mut out);
    assert_eq!(out, "abc\nd");
    assert_eq!(c.col, 1);
}

#[test]
fn test_emphasis_codes() {
    let cases = [
        (EmType::Emphasis, EmStrength::Light, I.to_string()),
        (EmType::Emphasis, EmStrength::Medium, B.to_string()),
        (EmType::Emphasis, EmStrength::Strong, format!("{I}{B}")),
        (EmType::Deemphasis, EmStrength::Light, F.to_string()),
        (EmType::Deemphasis, EmStrength::Medium, C.to_string()),
        (EmType::Deemphasis, EmStrength::Strong, H.to_string()),
    ];
    for (etype, strength, code) in cases {
        let mut c = Context::default();
        c.width = 80;
        let mut out = String::new();
        let em = Emphasis { etype, strength, text: "x".to_string() };
        emphasis_to_ansi(&em, &conf(80), &mut c, &mut out);
        assert_eq!(out, format!("{code}{R}x{R}"));
        assert_eq!(c.ps, ParStatus::Emphasis);
    }
}

#[test]
fn test_emphasis_restores_both_channels() {
    let mut c = Context::default();
    c.width = 80;
    c.bg_mod = BG.to_string();
    let mut out = String::new();
    let em = Emphasis {
        etype: EmType::Emphasis,
        strength: EmStrength::Light,
        text: "x".to_string(),
    };
    emphasis_to_ansi(&em, &Config { width: 80 }, &mut c, &mut out);
    assert_eq!(out, format!("{I}{R}{BG}x{R}{BG}"));
    assert_eq!(c.bg_mod, BG);
}

#[test]
fn test_link_accent_scope() {
    let doc = doc_of(vec![DocItem::Paragraph(Paragraph {
        items: vec![ParagraphItem::Link(Link { items: vec![EmOrText::Text("l".to_string())] })],
        tags: vec![],
    })]);
    let out = doc_to_ansi_string(&doc, &conf(80));
    assert_eq!(out, format!("{M}{R}{M}l{R}{R}"));
}

#[test]
fn test_nav_tree() {
    let doc = doc_of(vec![DocItem::Nav(Nav {
        description: "m".to_string(),
        links: vec![Link { items: vec![EmOrText::Text("l".to_string())] }],
        subs: vec![Nav { description: "s".to_string(), links: vec![], subs: vec![] }],
    })]);
    let out = doc_to_ansi_string(&doc, &conf(80));
    assert_eq!(out, format!("\n{R}{R}m\n{M}{R}  {M}l{R}{R}\n{R}  {R}s\n"));
}

#[test]
fn test_headed_section_trailing_break_trimmed() {
    let doc = doc_of(vec![DocItem::Section(Section {
        heading: Heading { items: vec![EmOrText::Text("Hi".to_string())] },
        items: vec![SectionItem::Paragraph(text_par("t"))],
        tags: vec![],
    })]);
    let out = doc_to_ansi_string(&doc, &conf(80));
    assert_eq!(out, format!("\n{B}{R}{B}Hi{R}{R}\n{R}  {R}t"));
    assert!(!out.ends_with('\n'));
}

#[test]
fn test_empty_doc() {
    let doc = doc_of(vec![]);
    assert_eq!(doc_to_ansi_string(&doc, &conf(80)), "");
}

#[test]
fn test_empty_list() {
    let doc = doc_of(vec![DocItem::Paragraph(Paragraph {
        items: vec![ParagraphItem::List(List { ltype: ListType::Distinct, items: vec![] })],
        tags: vec![],
    })]);
    assert_eq!(doc_to_ansi_string(&doc, &conf(80)), "");
}

#[test]
fn test_table_borders_drawn() {
    let doc = doc_of(vec![DocItem::Paragraph(Paragraph {
        items: vec![ParagraphItem::Table(Table {
            rows: vec![TableRow { items: vec![text_par("a"), text_par("b")] }],
        })],
        tags: vec![],
    })]);
    let out = doc_to_ansi_string(&doc, &conf(40));
    assert!(out.contains('a'));
    assert!(out.contains('b'));
    assert!(out.contains('│'));
    assert!(out.contains('─'));
    assert!(out.contains('┌'));
}

#[test]
fn test_table_column_width_wraps_cells() {
    let long = "a".repeat(24);
    let doc = doc_of(vec![DocItem::Paragraph(Paragraph {
        items: vec![ParagraphItem::Table(Table {
            rows: vec![TableRow { items: vec![text_par(&long), text_par("b")] }],
        })],
        tags: vec![],
    })]);
    // (40 - 0 - 2 - 1) / 2 - 2 leaves sixteen columns per cell.
    let out = doc_to_ansi_string(&doc, &conf(40));
    assert!(out.contains(&"a".repeat(16)));
    assert!(!out.contains(&"a".repeat(17)));
}

#[test]
fn test_blockquote_boxed() {
    let doc = doc_of(vec![DocItem::Section(Section {
        heading: Heading { items: vec![] },
        items: vec![SectionItem::Paragraph(text_par("q"))],
        tags: vec!["blockquote".to_string()],
    })]);
    let out = doc_to_ansi_string(&doc, &conf(80));
    assert!(out.contains('q'));
    assert!(out.contains('│'));
    assert!(out.contains('┌'));
    assert!(out.contains('┘'));
}

#[test]
fn test_nested_sections_indent_step() {
    let inner = Section {
        heading: Heading { items: vec![EmOrText::Text("B".to_string())] },
        items: vec![SectionItem::Paragraph(text_par("t"))],
        tags: vec![],
    };
    let doc = doc_of(vec![DocItem::Section(Section {
        heading: Heading { items: vec![EmOrText::Text("A".to_string())] },
        items: vec![SectionItem::Section(inner)],
        tags: vec![],
    })]);
    let out = doc_to_ansi_string(&doc, &conf(80));
    assert_eq!(out, format!("\n{B}{R}{B}A{R}{R}\n\n{B}{R}  {B}B{R}{R}\n{R}    {R}t"));
}

#[test]
fn test_blockquote_typed_heading_boxed() {
    let doc = doc_of(vec![DocItem::Section(Section {
        heading: Heading { items: vec![EmOrText::Text("T".to_string())] },
        items: vec![SectionItem::Paragraph(text_par("q"))],
        tags: vec!["blockquote-typed".to_string()],
    })]);
    let out = doc_to_ansi_string(&doc, &conf(80));
    assert!(out.contains('T'));
    assert!(out.contains('q'));
    assert!(out.contains('│'));
}

#[test]
fn test_text_after_element_gets_own_line() {
    let doc = doc_of(vec![DocItem::Paragraph(Paragraph {
        items: vec![
            ParagraphItem::List(List { ltype: ListType::Identical, items: vec![text_par("t")] }),
            ParagraphItem::Text("after".to_string()),
        ],
        tags: vec![],
    })]);
    let out = doc_to_ansi_string(&doc, &conf(80));
    assert_eq!(out, format!("\n{R}{R}- {R}{R}t\n{R}{R}after"));
}

#[test]
fn test_distinct_list_hundred_items() {
    let items: Vec<Paragraph> = (0..100).map(|_| text_par("t")).collect();
    let doc = doc_of(vec![DocItem::Paragraph(Paragraph {
        items: vec![ParagraphItem::List(List { ltype: ListType::Distinct, items })],
        tags: vec![],
    })]);
    let out = doc_to_ansi_string(&doc, &conf(80));
    let mut expected = String::new();
    for i in 0..100 {
        expected += &format!("\n{R}{R}{i:>2}. {R}{R}t");
    }
    assert_eq!(out, expected);
}

#[test]
fn test_emphasis_inside_link() {
    let doc = doc_of(vec![DocItem::Paragraph(Paragraph {
        items: vec![ParagraphItem::Link(Link {
            items: vec![EmOrText::Em(Emphasis {
                etype: EmType::Emphasis,
                strength: EmStrength::Medium,
                text: "e".to_string(),
            })],
        })],
        tags: vec![],
    })]);
    let out = doc_to_ansi_string(&doc, &conf(80));
    assert_eq!(out, format!("{M}{B}{R}{M}e{R}{M}{R}{R}"));
}

#[test]
fn test_code_block_inside_list_item() {
    let item = Paragraph {
        items: vec![ParagraphItem::Code(Ok(CodeBlock {
            language: "rust".to_string(),
            code: "let y = 1;".to_string(),
        }))],
        tags: vec![],
    };
    let doc = doc_of(vec![DocItem::Paragraph(Paragraph {
        items: vec![ParagraphItem::List(List { ltype: ListType::Identical, items: vec![item] })],
        tags: vec![],
    })]);
    let out = doc_to_ansi_string(&doc, &conf(80));
    assert!(out.starts_with(&format!("\n{R}{R}- ")));
    assert!(out.len() > format!("\n{R}{R}- ").len());
}

#[test]
fn test_code_block_highlighted() {
    let doc = doc_of(vec![DocItem::Paragraph(Paragraph {
        items: vec![ParagraphItem::Code(Ok(CodeBlock {
            language: "rust".to_string(),
            code: "let x = 0;".to_string(),
        }))],
        tags: vec![],
    })]);
    let out = doc_to_ansi_string(&doc, &conf(80));
    assert!(out.starts_with(&format!("{R}{R}  {R}")));
    assert!(out.len() > format!("{R}{R}  {R}").len());
}
