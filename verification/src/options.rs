//! Configuration handed through by the binding layer: the input format and
//! rendering styles of a query run, and the switches of the HTML to markdown
//! conversion. Plain data.

use vstd::prelude::*;

verus! {

/// How the input text is parsed before evaluation.
#[derive(Clone, Copy, Debug, PartialEq, Eq, Structural)]
pub enum InputFormat {
    Markdown,
    Mdx,
    Text,
    Html,
    Raw,
    Null,
}

impl Default for InputFormat {
    fn default() -> (r: Self)
        ensures
            r == InputFormat::Markdown,
    {
        InputFormat::Markdown
    }
}

/// The bullet used when lists render.
#[derive(Clone, Copy, Debug, PartialEq, Eq, Structural)]
pub enum ListStyle {
    Dash,
    Plus,
    Star,
}

impl Default for ListStyle {
    fn default() -> (r: Self)
        ensures
            r == ListStyle::Dash,
    {
        ListStyle::Dash
    }
}

/// How link titles are surrounded when they render.
#[derive(Clone, Copy, Debug, PartialEq, Eq, Structural)]
pub enum TitleSurroundStyle {
    Double,
    Single,
    Paren,
}

impl Default for TitleSurroundStyle {
    fn default() -> (r: Self)
        ensures
            r == TitleSurroundStyle::Double,
    {
        TitleSurroundStyle::Double
    }
}

/// How link URLs are surrounded when they render.
#[derive(Clone, Copy, Debug, PartialEq, Eq, Structural)]
pub enum UrlSurroundStyle {
    Angle,
    Bare,
}

impl Default for UrlSurroundStyle {
    fn default() -> (r: Self)
        ensures
            r == UrlSurroundStyle::Bare,
    {
        UrlSurroundStyle::Bare
    }
}

/// Options of one query run; an unset field falls back to its default.
#[derive(Clone, Copy, Debug)]
pub struct Options {
    pub input_format: Option<InputFormat>,
    pub list_style: Option<ListStyle>,
    pub link_title_style: Option<TitleSurroundStyle>,
    pub link_url_style: Option<UrlSurroundStyle>,
}

impl Options {
    /// Fresh options with every field unset.
    pub fn new() -> (r: Self)
        ensures
            r.input_format is None,
            r.list_style is None,
            r.link_title_style is None,
            r.link_url_style is None,
    {
        Options { input_format: None, list_style: None, link_title_style: None, link_url_style: None }
    }
}

impl Default for Options {
    fn default() -> (r: Self)
        ensures
            r.input_format is None,
            r.list_style is None,
            r.link_title_style is None,
            r.link_url_style is None,
    {
        Options::new()
    }
}

/// Options of the HTML to markdown conversion.
#[derive(Clone, Copy, Debug)]
pub struct ConversionOptions {
    pub extract_scripts_as_code_blocks: bool,
    pub generate_front_matter: bool,
    pub use_title_as_h1: bool,
}

impl ConversionOptions {
    /// Fresh options with every switch off.
    pub fn new() -> (r: Self)
        ensures
            r == (ConversionOptions {
                extract_scripts_as_code_blocks: false,
                generate_front_matter: false,
                use_title_as_h1: false,
            }),
    {
        ConversionOptions {
            extract_scripts_as_code_blocks: false,
            generate_front_matter: false,
            use_title_as_h1: false,
        }
    }
}

impl Default for ConversionOptions {
    fn default() -> (r: Self)
        ensures
            r == (ConversionOptions {
                extract_scripts_as_code_blocks: false,
                generate_front_matter: false,
                use_title_as_h1: false,
            }),
    {
        ConversionOptions::new()
    }
}

} // verus!
