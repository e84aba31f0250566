//! Spacing and indentation knobs recognized by the renderer's callers.
//!
//! Each knob names one spacing or indentation decision point in the layout
//! rules; the engine itself is driven by [`crate::Config`], which carries the
//! terminal width.

use vstd::prelude::*;

verus! {

/// All configuration recognized for a full document render.
#[derive(Clone, Copy, Default, Hash, Debug, Eq, PartialEq, Ord, PartialOrd)]
pub struct Config {
    pub width: usize,
    pub nav: NavConfig,
    pub section: SectionConfig,
    pub headed_section: HeadedSectionConfig,
    pub code_block: CodeBlockConfig,
    pub blockquote: BlockquoteConfig,
    pub list: ListConfig,
    pub table: TableConfig,
}

/// Spacing and indentation around navigation trees.
#[derive(Clone, Copy, Default, Hash, Debug, Eq, PartialEq, Ord, PartialOrd)]
pub struct NavConfig {
    pub link_indent: usize,
    pub sub_indent: usize,
    pub pre_description_mns: usize,
    pub post_description_ns: usize,
    pub pre_link_mns: usize,
}

/// Indentation of a section's child paragraphs and sub-sections.
#[derive(Clone, Copy, Default, Hash, Debug, Eq, PartialEq, Ord, PartialOrd)]
pub struct SectionConfig {
    pub paragraph_indent: usize,
    pub section_indent: usize,
    pub pre_item_mns: usize,
}

/// Blank lines around a headed section's heading.
#[derive(Clone, Copy, Default, Hash, Debug, Eq, PartialEq, Ord, PartialOrd)]
pub struct HeadedSectionConfig {
    pub pre_heading_mns: usize,
    pub post_heading_ns: usize,
}

/// Blank lines before a blockquote box.
#[derive(Clone, Copy, Default, Hash, Debug, Eq, PartialEq, Ord, PartialOrd)]
pub struct BlockquoteConfig {
    pub pre_quote_mns: usize,
}

/// Indentation and blank lines around a code block.
#[derive(Clone, Copy, Default, Hash, Debug, Eq, PartialEq, Ord, PartialOrd)]
pub struct CodeBlockConfig {
    pub indent: usize,
    pub pre_code_block_mns: usize,
}

/// Blank lines before each list item.
#[derive(Clone, Copy, Default, Hash, Debug, Eq, PartialEq, Ord, PartialOrd)]
pub struct ListConfig {
    pub pre_item_mns: usize,
}

/// Blank lines before a table block.
#[derive(Clone, Copy, Default, Hash, Debug, Eq, PartialEq, Ord, PartialOrd)]
pub struct TableConfig {
    pub pre_table_mns: usize,
}

} // verus!
