//! Diagram export: the pieces that need no drawing library.

pub mod card;
pub mod layout_icicle;
pub mod svg;
pub mod layout_tree;

use vstd::prelude::*;

use crate::config::RttBarConfig;

verus! {

/// The diagram's shape.
#[derive(Debug, Clone, Copy, PartialEq, Eq, Structural)]
pub enum ExportLayout {
    Tree,
    Icicle,
}

impl Default for ExportLayout {
    fn default() -> (r: Self)
        ensures
            r == ExportLayout::Tree,
    {
        ExportLayout::Tree
    }
}

/// The file format written.
#[derive(Debug, Clone, Copy, PartialEq, Eq, Structural)]
pub enum ExportFormat {
    Svg,
    Png,
}

impl Default for ExportFormat {
    fn default() -> (r: Self)
        ensures
            r == ExportFormat::Svg,
    {
        ExportFormat::Svg
    }
}

/// The diagram's title lines.
#[derive(Debug, Clone, PartialEq, Eq)]
pub struct SvgTitle {
    pub primary: String,
    pub secondary: Option<String>,
}

/// How to draw an exported diagram.
#[derive(Debug, Clone)]
pub struct ExportOptions {
    pub layout: ExportLayout,
    pub format: ExportFormat,
    pub title: SvgTitle,
    pub rtt_config: RttBarConfig,
}

/// An exported diagram.
#[derive(Debug, Clone, PartialEq, Eq)]
pub enum ExportOutput {
    Svg(String),
    Png(Vec<u8>),
}

/// Why a diagram could not be exported.
#[derive(Debug, Clone, PartialEq, Eq)]
pub enum ExportError {
    UnsupportedLayout(&'static str),
    UnsupportedFormat(&'static str),
    TreeIndexOutOfRange(usize),
    Rasterize(String),
}

impl ExportError {
    /// The message shown for the error.
    pub fn message(&self) -> (s: String)
        ensures
            s@ == match self {
                ExportError::UnsupportedLayout(l) => "layout "@ + l@ + " is not implemented yet"@,
                ExportError::UnsupportedFormat(f) => "format "@ + f@
                    + " is not available in this build"@,
                ExportError::TreeIndexOutOfRange(i) => "tree index "@ + crate::text::decimal(
                    *i as nat,
                ) + " is out of range"@,
                ExportError::Rasterize(m) => "failed to rasterize SVG: "@ + m@,
            },
    {
        let mut s = String::new();
        match self {
            ExportError::UnsupportedLayout(l) => {
                s.append("layout ");
                s.append(l);
                s.append(" is not implemented yet");
            },
            ExportError::UnsupportedFormat(f) => {
                s.append("format ");
                s.append(f);
                s.append(" is not available in this build");
            },
            ExportError::TreeIndexOutOfRange(i) => {
                s.append("tree index ");
                crate::text::push_decimal(&mut s, *i as u64);
                s.append(" is out of range");
            },
            ExportError::Rasterize(m) => {
                s.append("failed to rasterize SVG: ");
                s.append(m.as_str());
            },
        }
        s
    }
}

/// The tree to export: refused when the index names no tree of the session.
pub fn check_tree_index(tree_index: usize, tree_count: usize) -> (r: Result<usize, ExportError>)
    ensures
        tree_index < tree_count ==> r == Ok::<usize, ExportError>(tree_index),
        tree_index >= tree_count ==> r == Err::<usize, ExportError>(
            ExportError::TreeIndexOutOfRange(tree_index),
        ),
{
    if tree_index < tree_count {
        Ok(tree_index)
    } else {
        Err(ExportError::TreeIndexOutOfRange(tree_index))
    }
}

/// The output for a rendered SVG: the SVG itself, or, for PNG, the error
/// of a build without rasterizing.
pub fn export_output(format: ExportFormat, svg: String) -> (r: Result<ExportOutput, ExportError>)
    ensures
        match format {
            ExportFormat::Svg => r matches Ok(ExportOutput::Svg(s)) && s@ == svg@,
            ExportFormat::Png => r matches Err(ExportError::UnsupportedFormat(f)) && f@ == "png"@,
        },
{
    match format {
        ExportFormat::Svg => Ok(ExportOutput::Svg(svg)),
        ExportFormat::Png => Err(ExportError::UnsupportedFormat("png")),
    }
}

} // verus!
