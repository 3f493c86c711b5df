//! Human output: colour preferences, and escaping of user-provided text.

use vstd::prelude::*;

use crate::cli::CommandContext;
use crate::ui::markup::{escape_markup, escape_spec, render_markup, render_spec};

verus! {

pub struct Renderer {
    pub color: bool,
}

impl Renderer {
    /// Colour is used unless the command asked for `--no-color` or `--plain`, or `NO_COLOR` is
    /// set in the environment (`no_color_env`).
    pub fn new(context: &CommandContext, no_color_env: bool) -> (r: Renderer)
        ensures
            r.color == (!context.global.no_color && !context.global.plain && !no_color_env),
    {
        Renderer { color: !context.global.no_color && !context.global.plain && !no_color_env }
    }

    /// Escapes user-provided text so it cannot inject markup or control characters.
    pub fn value(&self, value: &str) -> (escaped: String)
        ensures
            escaped@ == escape_spec(value@),
    {
        escape_markup(value)
    }

    /// Renders markup for a stream; only a terminal (`tty`) gets colour, and only when colour
    /// is on.
    pub fn format(&self, markup: &str, tty: bool) -> (rendered: String)
        ensures
            rendered@ == render_spec(markup@, Seq::empty(), self.color && tty),
    {
        render_markup(markup, self.color && tty)
    }
}

} // verus!
