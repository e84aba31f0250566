//! Renders a structured document tree (headings, paragraphs, lists, tables,
//! code blocks, links, emphasis, navigation menus, blockquotes) into a
//! width-aware, ANSI-styled terminal text stream.

pub mod ansi;
pub mod blocks;
pub mod config;
pub mod context;
pub mod doc;
pub mod laws;
pub mod numbers;
pub mod reflow;
pub mod render;
pub mod trusted;

pub use context::{Config, Context, ParStatus};
pub use blocks::{code_to_ansi, highlighted_code_to_ansi, indent_table};
pub use trusted::Highlighted;
pub use reflow::{append, format_text, format_text_main, format_text_pre, indent, newline, newlines_unless, text_to_ansi};
pub use render::{blockquote_to_ansi, doc_to_ansi, doc_to_ansi_string, emphasis_to_ansi, headed_section_to_ansi, heading_to_ansi, inline_code_to_ansi, link_to_ansi, list_to_ansi, nav_to_ansi, paragraph_to_ansi, section_body_to_ansi, section_to_ansi, table_to_ansi};
pub use doc::{
    CodeBlock, CodeIdentError, Doc, DocItem, EmOrText, EmStrength, EmType, Emphasis, Link, List,
    ListType, Nav, Paragraph, ParagraphItem, Section, SectionItem, Table, TableRow, TextWithMeta,
    Heading,
};
