//! The rendering stack as a session uses it, with a record of what went
//! through it: every piece of text pushed into it and every ANSI byte taken
//! out of it, in order. The stack itself is reached only through these
//! methods, so the record is the stack's real traffic.

use vstd::prelude::*;
use super::{
    AnsiRenderer, appends_to, rendered_output, renderer_held_bytes, renderer_options,
    renderer_tool_names, same_setup, ansi_renderer_new, renderer_set_tool_names, renderer_push,
    renderer_finish, renderer_take_output,
};
use trace_stream::render::RenderOptions;

verus! {

/// A rendering stack with the text pushed into it and the ANSI taken out of
/// it so far.
pub struct RenderStack {
    stack: AnsiRenderer,
    pushed: Ghost<Seq<char>>,
    taken: Ghost<Seq<u8>>,
}

impl RenderStack {
    /// The stack's state.
    pub closed spec fn stack(&self) -> AnsiRenderer {
        self.stack
    }

    /// All the text pushed into the stack so far, in order.
    pub closed spec fn pushed(&self) -> Seq<char> {
        self.pushed@
    }

    /// All the ANSI taken out of the stack so far, in order.
    pub closed spec fn taken(&self) -> Seq<u8> {
        self.taken@
    }

    /// A stack rendering with `opts`, knowing no tool names, through which
    /// nothing has passed yet.
    pub fn new(opts: RenderOptions) -> (r: Self)
        ensures
            rendered_output(r.stack()) == Seq::<u8>::empty(),
            renderer_held_bytes(r.stack()) == Seq::<u8>::empty(),
            renderer_options(r.stack()) == opts,
            renderer_tool_names(r.stack()) == Seq::<Seq<char>>::empty(),
            r.pushed() == Seq::<char>::empty(),
            r.taken() == Seq::<u8>::empty(),
    {
        RenderStack {
            stack: ansi_renderer_new(opts),
            pushed: Ghost(Seq::empty()),
            taken: Ghost(Seq::empty()),
        }
    }

    /// Tells the stack which tool names exist.
    pub fn set_tool_names(&mut self, names: Vec<String>)
        ensures
            rendered_output(final(self).stack()) == rendered_output(old(self).stack()),
            renderer_held_bytes(final(self).stack()) == renderer_held_bytes(old(self).stack()),
            renderer_options(final(self).stack()) == renderer_options(old(self).stack()),
            renderer_tool_names(final(self).stack()) == names@.map_values(
                |name: String| name@,
            ),
            final(self).pushed() == old(self).pushed(),
            final(self).taken() == old(self).taken(),
    {
        renderer_set_tool_names(&mut self.stack, names);
    }

    /// Pushes `text` into the stack.
    pub fn push(&mut self, text: &str)
        ensures
            appends_to(old(self).stack(), final(self).stack()),
            same_setup(old(self).stack(), final(self).stack()),
            final(self).pushed() == old(self).pushed() + text@,
            final(self).taken() == old(self).taken(),
    {
        renderer_push(&mut self.stack, text);
        self.pushed = Ghost(self.pushed@ + text@);
    }

    /// Ends the stream: the stack flushes what it held back.
    pub fn finish(&mut self)
        ensures
            appends_to(old(self).stack(), final(self).stack()),
            same_setup(old(self).stack(), final(self).stack()),
            renderer_held_bytes(final(self).stack()) == Seq::<u8>::empty(),
            final(self).pushed() == old(self).pushed(),
            final(self).taken() == old(self).taken(),
    {
        renderer_finish(&mut self.stack);
    }

    /// Takes out all the ANSI waiting in the stack.
    pub fn take_output(&mut self) -> (bytes: Vec<u8>)
        ensures
            bytes@ == rendered_output(old(self).stack()),
            rendered_output(final(self).stack()) == Seq::<u8>::empty(),
            renderer_held_bytes(final(self).stack()) == renderer_held_bytes(old(self).stack()),
            same_setup(old(self).stack(), final(self).stack()),
            final(self).pushed() == old(self).pushed(),
            final(self).taken() == old(self).taken() + bytes@,
    {
        let bytes = renderer_take_output(&mut self.stack);
        self.taken = Ghost(self.taken@ + bytes@);
        bytes
    }
}

} // verus!
