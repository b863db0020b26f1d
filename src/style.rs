use vstd::prelude::*;

verus! {

/// Style given to the shadow root of every instance of a component.
#[derive(Debug, Default)]
pub enum InjectedStyle {
    /// No style provided
    #[default]
    Empty,
    /// Raw CSS content to go in an HTML `<style>`
    Css(String),
    /// URL of a stylesheet to go in an HTML `<link rel="stylesheet" href="...">`
    Stylesheet(String),
    /// Several styles, injected in order
    Multiple(Vec<InjectedStyle>),
}

impl InjectedStyle {
    /// Build with CSS code
    pub fn css(css: &str) -> (r: InjectedStyle)
        ensures
            (r matches InjectedStyle::Css(c) && c@ == css@),
    {
        InjectedStyle::Css(css.to_owned())
    }

    /// Build with the path to a stylesheet, e.g. a URL
    pub fn stylesheet(url: &str) -> (r: InjectedStyle)
        ensures
            (r matches InjectedStyle::Stylesheet(u) && u@ == url@),
    {
        InjectedStyle::Stylesheet(url.to_owned())
    }
}

} // verus!
