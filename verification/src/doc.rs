//! The document tree consumed by the renderer.
//!
//! The tree is read-only input: an upstream producer builds it, the renderer
//! only walks it. Tag strings mark special renderings: `"blockquote"` or
//! `"blockquote-typed"` on a section, `"checked"` on a list item's paragraph,
//! `"code"` on tagged text inside a paragraph.

use vstd::prelude::*;

verus! {

/// A whole document: an ordered sequence of top-level items.
#[derive(Debug, Default, Eq, PartialEq)]
pub struct Doc {
    pub items: Vec<DocItem>,
}

/// A top-level document item.
#[derive(Debug, Eq, PartialEq)]
pub enum DocItem {
    Nav(Nav),
    Paragraph(Paragraph),
    Section(Section),
}

/// A heading followed by the content that goes with it.
#[derive(Debug, Default, Eq, PartialEq)]
pub struct Section {
    pub heading: Heading,
    pub items: Vec<SectionItem>,
    pub tags: Vec<String>,
}

/// Section items are either paragraphs or sub-sections.
#[derive(Debug, Eq, PartialEq)]
pub enum SectionItem {
    Paragraph(Paragraph),
    Section(Section),
}

/// A title for the accompanying content.
#[derive(Clone, Debug, Default, Eq, PartialEq)]
pub struct Heading {
    pub items: Vec<EmOrText>,
}

/// Plain text or an emphasised span.
#[derive(Clone, Debug, Eq, PartialEq)]
pub enum EmOrText {
    Text(String),
    Em(Emphasis),
}

/// A grouping of inline content and fine-grained block structure.
#[derive(Debug, Default, Eq, PartialEq)]
pub struct Paragraph {
    pub items: Vec<ParagraphItem>,
    pub tags: Vec<String>,
}

/// Content a paragraph can hold.
#[derive(Debug, Eq, PartialEq)]
pub enum ParagraphItem {
    Text(String),
    MText(TextWithMeta),
    Em(Emphasis),
    Link(Link),
    Code(Result<CodeBlock, CodeIdentError>),
    List(List),
    Table(Table),
}

/// Text carrying tags; the tag `"code"` marks it as inline code.
#[derive(Clone, Debug, Default, Eq, PartialEq)]
pub struct TextWithMeta {
    pub text: String,
    pub tags: Vec<String>,
}

/// An emphasised or de-emphasised piece of text.
#[derive(Clone, Debug, Default, Eq, PartialEq)]
pub struct Emphasis {
    pub strength: EmStrength,
    pub etype: EmType,
    pub text: String,
}

/// Degree of emphasis or de-emphasis.
#[derive(Clone, Copy, Debug, Default, Eq, Hash, Ord, PartialEq, PartialOrd, Structural)]
pub enum EmStrength {
    #[default]
    Light,
    Medium,
    Strong,
}

/// Whether a span is emphasised or de-emphasised.
#[derive(Clone, Copy, Debug, Default, Eq, Hash, Ord, PartialEq, PartialOrd, Structural)]
pub enum EmType {
    #[default]
    Emphasis,
    Deemphasis,
}

/// A list of items, each an own paragraph.
#[derive(Debug, Default, Eq, PartialEq)]
pub struct List {
    pub ltype: ListType,
    pub items: Vec<Paragraph>,
}

/// How list items are marked.
#[derive(Clone, Copy, Debug, Default, Eq, Hash, Ord, PartialEq, PartialOrd, Structural)]
pub enum ListType {
    /// Each item has a distinct number.
    Distinct,
    /// Each item is marked identically.
    #[default]
    Identical,
    /// Each item is either checked off or not.
    Checked,
}

/// Rows of cells; every cell is a paragraph.
#[derive(Debug, Default, Eq, PartialEq)]
pub struct Table {
    pub rows: Vec<TableRow>,
}

/// One table row.
#[derive(Debug, Default, Eq, PartialEq)]
pub struct TableRow {
    pub items: Vec<Paragraph>,
}

/// A piece of text with an accompanying target.
#[derive(Clone, Debug, Default, Eq, PartialEq)]
pub struct Link {
    pub items: Vec<EmOrText>,
}

/// A recursive navigation menu.
#[derive(Debug, Default, Eq, PartialEq)]
pub struct Nav {
    pub description: String,
    pub links: Vec<Link>,
    pub subs: Vec<Nav>,
}

/// Computer code to be shown as a block.
#[derive(Clone, Debug, Default, Eq, PartialEq)]
pub struct CodeBlock {
    /// Language the code is written in, handed on to the highlighter.
    pub language: String,
    /// The code itself.
    pub code: String,
}

/// The producer found the block's indentation malformed.
#[derive(Clone, Copy, Debug, Default, Eq, Hash, Ord, PartialEq, PartialOrd, Structural)]
pub struct CodeIdentError;

/// Whether one of `tags` reads `t`.
pub open spec fn tags_have(tags: Seq<String>, t: Seq<char>) -> bool {
    exists|i: int| 0 <= i < tags.len() && (#[trigger] tags[i])@ == t
}

/// Linear search for the tag `t`.
pub fn tags_contain(tags: &Vec<String>, t: &str) -> (r: bool)
    ensures
        r == tags_have(tags@, t@),
{
    let ts: String = t.to_owned();
    let n = tags.len();
    let mut i: usize = 0;
    while i < n
        invariant
            i <= n,
            n == tags@.len(),
            ts@ == t@,
            forall|k: int| 0 <= k < i ==> (#[trigger] tags@[k])@ != t@,
        decreases n - i,
    {
        if tags[i].eq(&ts) {
            return true;
        }
        i = i + 1;
    }
    false
}

/// A paragraph whose rendering needs no delegated highlighting call: no
/// well-formed code block occurs anywhere inside it.
pub open spec fn par_det(par: Paragraph) -> bool
    decreases par,
{
    forall|i: int|
        0 <= i < par.items@.len() ==> pitem_det(#[trigger] par.items@[i])
}

/// See [`par_det`].
pub open spec fn pitem_det(item: ParagraphItem) -> bool
    decreases item,
{
    match item {
        ParagraphItem::Code(code) => code is Err,
        ParagraphItem::List(l) => forall|i: int|
            0 <= i < l.items@.len() ==> par_det(#[trigger] l.items@[i]),
        ParagraphItem::Table(t) => forall|i: int, j: int|
            0 <= i < t.rows@.len() && 0 <= j < t.rows@[i].items@.len() ==> par_det(
                #[trigger] t.rows@[i].items@[j],
            ),
        _ => true,
    }
}

/// See [`par_det`], for a whole list.
pub open spec fn list_det(l: List) -> bool {
    forall|i: int| 0 <= i < l.items@.len() ==> par_det(#[trigger] l.items@[i])
}

/// See [`par_det`], for a whole table.
pub open spec fn table_det(t: Table) -> bool {
    forall|i: int, j: int|
        0 <= i < t.rows@.len() && 0 <= j < t.rows@[i].items@.len() ==> par_det(
            #[trigger] t.rows@[i].items@[j],
        )
}

/// A section whose rendering needs no delegated highlighting call.
pub open spec fn sec_det(sec: Section) -> bool
    decreases sec,
{
    forall|i: int|
        0 <= i < sec.items@.len() ==> sitem_det(#[trigger] sec.items@[i])
}

/// See [`sec_det`].
pub open spec fn sitem_det(item: SectionItem) -> bool
    decreases item,
{
    match item {
        SectionItem::Paragraph(par) => par_det(par),
        SectionItem::Section(sec) => sec_det(sec),
    }
}

/// A document whose rendering needs no delegated highlighting call.
pub open spec fn doc_det(doc: Doc) -> bool {
    forall|i: int|
        0 <= i < doc.items@.len() ==> ditem_det(#[trigger] doc.items@[i])
}

/// See [`doc_det`].
pub open spec fn ditem_det(item: DocItem) -> bool {
    match item {
        DocItem::Nav(_) => true,
        DocItem::Paragraph(par) => par_det(par),
        DocItem::Section(sec) => sec_det(sec),
    }
}

} // verus!
