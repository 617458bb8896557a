//! Widget configuration types.

use vstd::prelude::*;

verus! {

/// Configuration of a panel that folds away behind its title: built with
/// [`CollapsiblePanel::new`] and refined with the builder methods.
pub struct CollapsiblePanel<'a> {
    title: &'a str,
    default_open: bool,
    indent: bool,
}

impl<'a> CollapsiblePanel<'a> {
    /// The panel's title.
    pub closed spec fn spec_title(&self) -> &'a str {
        self.title
    }

    /// Whether the panel starts open.
    pub closed spec fn spec_default_open(&self) -> bool {
        self.default_open
    }

    /// Whether the contents are indented under the title.
    pub closed spec fn spec_indent(&self) -> bool {
        self.indent
    }

    /// A panel with the given title that starts open and indents its
    /// contents.
    pub fn new(title: &'a str) -> (r: Self)
        ensures
            r.spec_title() == title,
            r.spec_default_open(),
            r.spec_indent(),
    {
        CollapsiblePanel { title, default_open: true, indent: true }
    }

    /// Chooses whether the panel starts open.
    pub fn default_open(self, open: bool) -> (r: Self)
        ensures
            r.spec_title() == self.spec_title(),
            r.spec_default_open() == open,
            r.spec_indent() == self.spec_indent(),
    {
        CollapsiblePanel { default_open: open, ..self }
    }

    /// Chooses whether the contents are indented.
    pub fn indent(self, indent: bool) -> (r: Self)
        ensures
            r.spec_title() == self.spec_title(),
            r.spec_default_open() == self.spec_default_open(),
            r.spec_indent() == indent,
    {
        CollapsiblePanel { indent, ..self }
    }
}

} // verus!
