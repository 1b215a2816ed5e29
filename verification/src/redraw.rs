use vstd::prelude::*;

verus! {

/// The physical size of the surface a scene is drawn onto, in pixels.
#[derive(Debug, Clone, Copy, PartialEq, Eq)]
pub struct ViewportSize {
    pub width: u32,
    pub height: u32,
}

/// The part of a scene drawer's state that decides whether a draw request
/// has anything to do: the size the scene was last drawn at.
#[derive(Debug, Clone, Copy)]
pub struct RedrawState {
    pub drawn_size: Option<ViewportSize>,
}

/// One draw request at `size` from the state `drawn`: the size the scene is
/// drawn at afterwards, and whether the scene is reset and drawn again. A
/// request at the size last drawn does nothing.
pub open spec fn draw_step(drawn: Option<ViewportSize>, size: ViewportSize) -> (
    Option<ViewportSize>,
    bool,
) {
    if drawn == Some(size) {
        (drawn, false)
    } else {
        (Some(size), true)
    }
}

impl RedrawState {
    /// A drawer that has not drawn anything yet.
    pub fn new() -> (r: Self)
        ensures
            r.drawn_size == None::<ViewportSize>,
    {
        RedrawState { drawn_size: None }
    }

    /// Takes a draw request at `size`; returns whether the scene must be
    /// reset and drawn again, and remembers `size` as the drawn size.
    pub fn request_draw(&mut self, size: ViewportSize) -> (redraw: bool)
        ensures
            (final(self).drawn_size, redraw) == draw_step(old(self).drawn_size, size),
    {
        let unchanged = match self.drawn_size {
            Some(drawn) => drawn.width == size.width && drawn.height == size.height,
            None => false,
        };
        if unchanged {
            return false;
        }
        self.drawn_size = Some(size);
        true
    }
}

/// A draw request repeated at the same size finds nothing to do, and leaves
/// the state as the first request left it.
pub proof fn lemma_repeated_draw_is_noop(drawn: Option<ViewportSize>, size: ViewportSize)
    ensures
        draw_step(draw_step(drawn, size).0, size) == (draw_step(drawn, size).0, false),
{
}

/// A draw request redraws exactly when the size differs from the last drawn
/// size, and afterwards the drawn size is always the requested one.
pub proof fn lemma_redraw_iff_size_changed(drawn: Option<ViewportSize>, size: ViewportSize)
    ensures
        draw_step(drawn, size).1 <==> drawn != Some(size),
        draw_step(drawn, size).0 == Some(size),
{
}

} // verus!
