//! The zoom and pan state of the image on display, and how each intent of
//! the user changes it.

use crate::image_handler::geometry::{
    center, centered_offset, covers_viewport, drag, dragged_offset, half_rounded,
    lemma_scaled_dimension_bounds, lemma_scaled_dimension_monotonic, scale_dimension,
    scaled_dimension, MAX_OFFSET,
};
use vstd::prelude::*;

verus! {

/// The scale that content is loaded at, in percent of its natural size.
pub const INITIAL_SCALE: u32 = 100;

/// The change of scale that one zoom intent asks for, in percent.
pub const SCALE_STEP: u32 = 10;

/// The scale that zooming in never reaches, in percent.
pub const MAX_SCALE: u32 = 400;

/// The length in pixels that both sides of the scaled content stay above
/// when zooming out.
pub const MIN_RENDERED_DIMENSION: u64 = 20;

/// Why an intent left the viewport as it was.
#[derive(Clone, Copy, Debug, PartialEq, Eq, Structural)]
pub enum Rejection {
    /// One more step in would reach the largest scale.
    AtZoomCeiling,
    /// One more step out would leave a side of the content too short.
    AtZoomFloor,
    /// No drag is under way, or the content fits the viewport and there is
    /// nothing to pan.
    DragDisabled,
    /// No content has been loaded yet.
    MissingNaturalSize,
}

/// How the host is to draw the content: at which scale and size, and with
/// its top left corner where in the viewport.
#[derive(Clone, Copy, Debug, PartialEq, Eq, Structural)]
pub struct Transform {
    /// The scale, in percent of the natural size.
    pub scale_percent: u32,
    /// Where the left edge of the content lies, in pixels from the left edge
    /// of the viewport.
    pub offset_x: i64,
    /// Where the top edge of the content lies, in pixels from the top edge
    /// of the viewport.
    pub offset_y: i64,
    /// The width of the content at this scale, in pixels.
    pub scaled_width: u64,
    /// The height of the content at this scale, in pixels.
    pub scaled_height: u64,
}

/// A [`Transform`] over the integers.
pub struct TransformView {
    pub scale: int,
    pub offset: (int, int),
    pub scaled_size: (int, int),
}

impl View for Transform {
    type V = TransformView;

    open spec fn view(&self) -> TransformView {
        TransformView {
            scale: self.scale_percent as int,
            offset: (self.offset_x as int, self.offset_y as int),
            scaled_size: (self.scaled_width as int, self.scaled_height as int),
        }
    }
}

/// A drag under way: where the pointer was when it began, and the offset
/// that the content had at that moment.
pub struct DragView {
    pub anchor: (int, int),
    pub base_offset: (int, int),
}

/// What a [`ViewportController`] stands for. Lengths and offsets are in
/// pixels, pairs are (horizontal, vertical), and the scale is in percent.
pub struct ViewportState {
    pub scale: int,
    pub natural_size: Option<(int, int)>,
    pub viewport_size: (int, int),
    pub offset: (int, int),
    pub drag: Option<DragView>,
}

impl ViewportState {
    /// The state of a session before any content is loaded.
    pub open spec fn initial() -> Self {
        ViewportState {
            scale: INITIAL_SCALE as int,
            natural_size: None,
            viewport_size: (0, 0),
            offset: (0, 0),
            drag: None,
        }
    }

    /// The size of the content at `scale` percent, and (0, 0) while there is
    /// no content.
    pub open spec fn size_at(self, scale: int) -> (int, int) {
        match self.natural_size {
            Some((width, height)) => (
                scaled_dimension(width, scale),
                scaled_dimension(height, scale),
            ),
            None => (0, 0),
        }
    }

    /// The size of the content as it is drawn.
    pub open spec fn scaled_size(self) -> (int, int) {
        self.size_at(self.scale)
    }

    /// The content is no larger than the viewport, so there is nothing to pan.
    pub open spec fn fits_viewport(self) -> bool {
        &&& self.scaled_size().0 <= self.viewport_size.0
        &&& self.scaled_size().1 <= self.viewport_size.1
    }

    /// Both sides of the content are longer than the least rendered length.
    pub open spec fn above_floor(self) -> bool {
        &&& self.scaled_size().0 > MIN_RENDERED_DIMENSION
        &&& self.scaled_size().1 > MIN_RENDERED_DIMENSION
    }

    /// What every reachable state satisfies: the scale is a whole number of
    /// steps, at least one step and below the ceiling; no length is
    /// negative; and on an axis where the content is longer than the
    /// viewport, the content covers the viewport from edge to edge.
    pub open spec fn wf(self) -> bool {
        &&& SCALE_STEP <= self.scale < MAX_SCALE
        &&& self.scale % (SCALE_STEP as int) == 0
        &&& 0 <= self.viewport_size.0
        &&& 0 <= self.viewport_size.1
        &&& self.natural_size matches Some((width, height)) ==> 0 <= width && 0 <= height
        &&& covers_viewport(self.offset.0, self.scaled_size().0, self.viewport_size.0)
        &&& covers_viewport(self.offset.1, self.scaled_size().1, self.viewport_size.1)
    }

    /// The offsets are small enough for a drag to add a pointer movement to
    /// them.
    pub open spec fn within_limits(self) -> bool {
        &&& -MAX_OFFSET <= self.offset.0 <= MAX_OFFSET
        &&& -MAX_OFFSET <= self.offset.1 <= MAX_OFFSET
        &&& self.drag matches Some(drag) ==> {
            &&& -MAX_OFFSET <= drag.base_offset.0 <= MAX_OFFSET
            &&& -MAX_OFFSET <= drag.base_offset.1 <= MAX_OFFSET
        }
    }

    /// How the content is to be drawn in this state.
    pub open spec fn transform(self) -> TransformView {
        TransformView { scale: self.scale, offset: self.offset, scaled_size: self.scaled_size() }
    }

    /// This state with the content centered in the viewport.
    pub open spec fn recentered(self) -> Self {
        ViewportState {
            offset: (
                centered_offset(self.viewport_size.0, self.scaled_size().0),
                centered_offset(self.viewport_size.1, self.scaled_size().1),
            ),
            ..self
        }
    }

    /// The state after content of the given natural size is loaded: at the
    /// initial scale, in the top left corner, and with no drag under way.
    pub open spec fn after_load_content(self, width: int, height: int) -> Self {
        ViewportState {
            scale: INITIAL_SCALE as int,
            natural_size: Some((width, height)),
            viewport_size: self.viewport_size,
            offset: (0, 0),
            drag: None,
        }
    }

    /// Why zooming in is refused in this state, if it is.
    pub open spec fn zoom_in_rejection(self) -> Option<Rejection> {
        if self.scale + SCALE_STEP >= MAX_SCALE {
            Some(Rejection::AtZoomCeiling)
        } else if self.natural_size is None {
            Some(Rejection::MissingNaturalSize)
        } else {
            None
        }
    }

    /// The state after an intent to zoom in: one step larger and centered,
    /// or as before where the intent is refused.
    pub open spec fn after_zoom_in(self) -> Self {
        if self.zoom_in_rejection() is Some {
            self
        } else {
            ViewportState { scale: self.scale + SCALE_STEP, ..self }.recentered()
        }
    }

    /// Why zooming out is refused in this state, if it is.
    pub open spec fn zoom_out_rejection(self) -> Option<Rejection> {
        let size = self.size_at(self.scale - SCALE_STEP);
        if self.natural_size is None {
            Some(Rejection::MissingNaturalSize)
        } else if size.0 <= MIN_RENDERED_DIMENSION || size.1 <= MIN_RENDERED_DIMENSION {
            Some(Rejection::AtZoomFloor)
        } else {
            None
        }
    }

    /// The state after an intent to zoom out: one step smaller and centered,
    /// or as before where the intent is refused.
    pub open spec fn after_zoom_out(self) -> Self {
        if self.zoom_out_rejection() is Some {
            self
        } else {
            ViewportState { scale: self.scale - SCALE_STEP, ..self }.recentered()
        }
    }

    /// Why a resize cannot be answered with a transform, if it cannot.
    pub open spec fn resize_rejection(self) -> Option<Rejection> {
        if self.natural_size is None {
            Some(Rejection::MissingNaturalSize)
        } else {
            None
        }
    }

    /// The state after the viewport is reported to have the given size: with
    /// that size and the content centered in it, or as before where the size
    /// is the one already held or there is no content.
    pub open spec fn after_resize(self, width: int, height: int) -> Self {
        if self.viewport_size == (width, height) || self.natural_size is None {
            self
        } else {
            ViewportState { viewport_size: (width, height), ..self }.recentered()
        }
    }

    /// Why a drag cannot begin in this state, if it cannot.
    pub open spec fn begin_drag_rejection(self) -> Option<Rejection> {
        if self.natural_size is None {
            Some(Rejection::MissingNaturalSize)
        } else if self.fits_viewport() {
            Some(Rejection::DragDisabled)
        } else {
            None
        }
    }

    /// The state after the pointer is pressed at (`x`, `y`): with a drag
    /// under way from there and from the present offset, or as before where
    /// no drag can begin.
    pub open spec fn after_begin_drag(self, x: int, y: int) -> Self {
        if self.begin_drag_rejection() is Some {
            self
        } else {
            ViewportState {
                drag: Some(DragView { anchor: (x, y), base_offset: self.offset }),
                ..self
            }
        }
    }

    /// Why a pointer movement does not pan in this state, if it does not.
    pub open spec fn drag_to_rejection(self) -> Option<Rejection> {
        if self.natural_size is None {
            Some(Rejection::MissingNaturalSize)
        } else if self.drag is None || self.fits_viewport() {
            Some(Rejection::DragDisabled)
        } else {
            None
        }
    }

    /// The state after the pointer has moved to (`x`, `y`): on each axis
    /// where the content is longer than the viewport, the offset follows the
    /// pointer as far as the content still covers the viewport; or as before
    /// where the movement does not pan.
    pub open spec fn after_drag_to(self, x: int, y: int) -> Self {
        match self.drag {
            Some(drag) if self.drag_to_rejection() is None => ViewportState {
                offset: (
                    dragged_offset(
                        self.offset.0,
                        drag.base_offset.0 + (x - drag.anchor.0),
                        self.scaled_size().0,
                        self.viewport_size.0,
                    ),
                    dragged_offset(
                        self.offset.1,
                        drag.base_offset.1 + (y - drag.anchor.1),
                        self.scaled_size().1,
                        self.viewport_size.1,
                    ),
                ),
                ..self
            },
            _ => self,
        }
    }

    /// The state after the pointer is released: no drag is under way, and
    /// the content stays where it is.
    pub open spec fn after_end_drag(self) -> Self {
        ViewportState { drag: None, ..self }
    }

    /// The initial state is well formed, and every intent leads from a
    /// well-formed state to a well-formed state.
    pub proof fn lemma_intents_preserve_wf(self)
        requires
            self.wf(),
        ensures
            Self::initial().wf(),
            self.after_zoom_in().wf(),
            self.after_zoom_out().wf(),
            self.after_end_drag().wf(),
            forall|width: int, height: int|
                0 <= width && 0 <= height ==> (#[trigger] self.after_load_content(
                    width,
                    height,
                )).wf(),
            forall|width: int, height: int|
                0 <= width && 0 <= height ==> (#[trigger] self.after_resize(width, height)).wf(),
            forall|x: int, y: int| (#[trigger] self.after_begin_drag(x, y)).wf(),
            forall|x: int, y: int| (#[trigger] self.after_drag_to(x, y)).wf(),
    {
        if let Some((width, height)) = self.natural_size {
            lemma_scaled_dimension_bounds(width, 0);
            lemma_scaled_dimension_bounds(height, 0);
        }
    }
}

impl ViewportState {
    /// The state after `n` intents to zoom in.
    pub open spec fn after_zoom_in_n(self, n: nat) -> Self
        decreases n,
    {
        if n == 0 {
            self
        } else {
            self.after_zoom_in_n((n - 1) as nat).after_zoom_in()
        }
    }

    /// The state after `n` intents to zoom out.
    pub open spec fn after_zoom_out_n(self, n: nat) -> Self
        decreases n,
    {
        if n == 0 {
            self
        } else {
            self.after_zoom_out_n((n - 1) as nat).after_zoom_out()
        }
    }

    /// However often one zooms in, the scale stays below the ceiling, and an
    /// attempt that is refused leaves the state, and so the scale, as the
    /// last accepted attempt left it.
    pub proof fn lemma_zoom_in_repeated(self, n: nat)
        requires
            self.wf(),
        ensures
            self.after_zoom_in_n(n).wf(),
            self.after_zoom_in_n(n).scale < MAX_SCALE,
            self.after_zoom_in_n(n).zoom_in_rejection() is Some ==> self.after_zoom_in_n(n + 1)
                == self.after_zoom_in_n(n),
        decreases n,
    {
        if n > 0 {
            self.lemma_zoom_in_repeated((n - 1) as nat);
            self.after_zoom_in_n((n - 1) as nat).lemma_intents_preserve_wf();
        }
    }

    /// With content on display, `n` intents to zoom in raise the scale by
    /// `n` steps, but no further than one step below the ceiling, where the
    /// next intent is refused.
    pub proof fn lemma_zoom_in_reaches_ceiling(self, n: nat)
        requires
            self.wf(),
            self.natural_size is Some,
        ensures
            self.after_zoom_in_n(n).natural_size == self.natural_size,
            self.after_zoom_in_n(n).scale == if self.scale + n * SCALE_STEP < MAX_SCALE {
                self.scale + n * SCALE_STEP
            } else {
                MAX_SCALE - SCALE_STEP
            },
            self.scale + n * SCALE_STEP >= MAX_SCALE - SCALE_STEP ==> self.after_zoom_in_n(
                n,
            ).zoom_in_rejection() == Some(Rejection::AtZoomCeiling),
        decreases n,
    {
        if n > 0 {
            self.lemma_zoom_in_reaches_ceiling((n - 1) as nat);
        }
    }

    /// Where both sides of the content are longer than the least rendered
    /// length, they stay so however often one zooms out, and an attempt that
    /// is refused leaves the state, and so the scale, as the last accepted
    /// attempt left it.
    pub proof fn lemma_zoom_out_repeated(self, n: nat)
        requires
            self.wf(),
            self.above_floor(),
        ensures
            self.after_zoom_out_n(n).wf(),
            self.after_zoom_out_n(n).above_floor(),
            self.after_zoom_out_n(n).zoom_out_rejection() is Some ==> self.after_zoom_out_n(n + 1)
                == self.after_zoom_out_n(n),
        decreases n,
    {
        if n > 0 {
            self.lemma_zoom_out_repeated((n - 1) as nat);
            self.after_zoom_out_n((n - 1) as nat).lemma_intents_preserve_wf();
        }
    }

    /// Where a side of the content is no longer than the least rendered
    /// length, every intent to zoom out is refused.
    pub proof fn lemma_zoom_out_refused_at_floor(self, n: nat)
        requires
            self.wf(),
            self.natural_size is Some,
            !self.above_floor(),
        ensures
            self.zoom_out_rejection() == Some(Rejection::AtZoomFloor),
            self.after_zoom_out_n(n) == self,
        decreases n,
    {
        let (width, height) = self.natural_size->0;
        lemma_scaled_dimension_monotonic(width, self.scale - SCALE_STEP, self.scale);
        lemma_scaled_dimension_monotonic(height, self.scale - SCALE_STEP, self.scale);
        if n > 0 {
            self.lemma_zoom_out_refused_at_floor((n - 1) as nat);
        }
    }

    /// Content that is loaded and next meets a viewport lies centered in it
    /// at its natural size. A viewport of the size already held changes
    /// nothing, so there the content stays in the corner, which is its
    /// centered place only where the rounded halves of both sizes agree.
    pub proof fn lemma_load_then_resize_centers(
        self,
        width: int,
        height: int,
        viewport_width: int,
        viewport_height: int,
    )
        requires
            self.viewport_size != (viewport_width, viewport_height) || (centered_offset(
                viewport_width,
                width,
            ) == 0 && centered_offset(viewport_height, height) == 0),
        ensures
            self.after_load_content(width, height).after_resize(
                viewport_width,
                viewport_height,
            ).offset == (
                half_rounded(viewport_width) - half_rounded(width),
                half_rounded(viewport_height) - half_rounded(height),
            ),
    {
    }

    /// A pointer movement that pans puts each axis on which the content is
    /// longer than the viewport where the pointer asks for, but no further
    /// than to the edge of the content, and leaves the other axis alone.
    pub proof fn lemma_drag_clamps(self, x: int, y: int)
        requires
            self.wf(),
            self.drag_to_rejection() is None,
        ensures
            ({
                let drag = self.drag->0;
                let shift = drag.base_offset.0 + (x - drag.anchor.0);
                let overflow = self.scaled_size().0 - self.viewport_size.0;
                let offset = self.after_drag_to(x, y).offset.0;
                if overflow > 0 {
                    &&& -overflow <= offset <= 0
                    &&& -overflow <= shift <= 0 ==> offset == shift
                    &&& shift > 0 ==> offset == 0
                    &&& shift < -overflow ==> offset == -overflow
                } else {
                    offset == self.offset.0
                }
            }),
            ({
                let drag = self.drag->0;
                let shift = drag.base_offset.1 + (y - drag.anchor.1);
                let overflow = self.scaled_size().1 - self.viewport_size.1;
                let offset = self.after_drag_to(x, y).offset.1;
                if overflow > 0 {
                    &&& -overflow <= offset <= 0
                    &&& -overflow <= shift <= 0 ==> offset == shift
                    &&& shift > 0 ==> offset == 0
                    &&& shift < -overflow ==> offset == -overflow
                } else {
                    offset == self.offset.1
                }
            }),
    {
    }

    /// While the content fits the viewport, neither pressing nor moving the
    /// pointer changes the state, and so neither moves the content.
    pub proof fn lemma_no_drag_when_content_fits(self, x: int, y: int)
        requires
            self.fits_viewport(),
        ensures
            self.after_begin_drag(x, y) == self,
            self.after_drag_to(x, y) == self,
            self.after_begin_drag(x, y).offset == self.offset,
            self.after_drag_to(x, y).offset == self.offset,
    {
    }
}

/// `result` is what an intent is answered with: the reason where the intent
/// is refused for the reason `rejection`, and else the transform of `state`,
/// the state after the intent.
pub open spec fn answers(
    result: Result<Transform, Rejection>,
    rejection: Option<Rejection>,
    state: ViewportState,
) -> bool {
    match result {
        Ok(transform) => rejection is None && transform@ == state.transform(),
        Err(reason) => rejection == Some(reason),
    }
}

/// A drag under way.
#[derive(Clone, Copy, Debug)]
struct Drag {
    anchor: (i32, i32),
    base_offset: (i64, i64),
}

/// Owns the zoom scale, the sizes of content and viewport, the offset of the
/// content in the viewport, and the drag under way, if any.
#[derive(Debug)]
pub struct ViewportController {
    scale_percent: u32,
    natural_size: Option<(u32, u32)>,
    viewport_size: (u32, u32),
    offset: (i64, i64),
    drag: Option<Drag>,
}

impl View for ViewportController {
    type V = ViewportState;

    closed spec fn view(&self) -> ViewportState {
        ViewportState {
            scale: self.scale_percent as int,
            natural_size: match self.natural_size {
                Some((width, height)) => Some((width as int, height as int)),
                None => None,
            },
            viewport_size: (self.viewport_size.0 as int, self.viewport_size.1 as int),
            offset: (self.offset.0 as int, self.offset.1 as int),
            drag: match self.drag {
                Some(drag) => Some(
                    DragView {
                        anchor: (drag.anchor.0 as int, drag.anchor.1 as int),
                        base_offset: (drag.base_offset.0 as int, drag.base_offset.1 as int),
                    },
                ),
                None => None,
            },
        }
    }
}

impl ViewportController {
    /// Holds of every controller, whatever intents it has met.
    #[verifier::type_invariant]
    pub open spec fn inv(&self) -> bool {
        self@.wf() && self@.within_limits()
    }

    /// A controller for a session in which no content is loaded yet.
    pub fn new() -> (controller: Self)
        ensures
            controller@ == ViewportState::initial(),
            controller@.wf(),
    {
        ViewportController {
            scale_percent: INITIAL_SCALE,
            natural_size: None,
            viewport_size: (0, 0),
            offset: (0, 0),
            drag: None,
        }
    }

    /// How the content is to be drawn now, if there is any.
    pub fn transform(&self) -> (transform: Option<Transform>)
        ensures
            match transform {
                Some(transform) => self@.natural_size is Some && transform@ == self@.transform(),
                None => self@.natural_size is None,
            },
    {
        proof {
            use_type_invariant(self);
        }
        match self.natural_size {
            Some((width, height)) => Some(
                Transform {
                    scale_percent: self.scale_percent,
                    offset_x: self.offset.0,
                    offset_y: self.offset.1,
                    scaled_width: scale_dimension(width, self.scale_percent),
                    scaled_height: scale_dimension(height, self.scale_percent),
                },
            ),
            None => None,
        }
    }

    /// Takes content of the given natural size on display: at the initial
    /// scale, in the top left corner of the viewport, with no drag under way.
    pub fn load_content(&mut self, natural_width: u32, natural_height: u32)
        ensures
            final(self)@ == old(self)@.after_load_content(
                natural_width as int,
                natural_height as int,
            ),
            final(self)@.wf(),
    {
        proof {
            use_type_invariant(&*self);
        }
        *self = ViewportController {
            scale_percent: INITIAL_SCALE,
            natural_size: Some((natural_width, natural_height)),
            viewport_size: self.viewport_size,
            offset: (0, 0),
            drag: None,
        };
    }

    /// Centers the content of natural size `natural` at `scale_percent`
    /// percent in a viewport of size `viewport_size`.
    fn place(
        &mut self,
        scale_percent: u32,
        viewport_size: (u32, u32),
        natural: (u32, u32),
    ) -> (transform: Transform)
        requires
            old(self).natural_size == Some(natural),
            SCALE_STEP <= scale_percent < MAX_SCALE,
            scale_percent % SCALE_STEP == 0,
        ensures
            final(self)@ == (ViewportState {
                scale: scale_percent as int,
                viewport_size: (viewport_size.0 as int, viewport_size.1 as int),
                ..old(self)@
            }).recentered(),
            final(self)@.wf(),
            transform@ == final(self)@.transform(),
    {
        proof {
            use_type_invariant(&*self);
            lemma_scaled_dimension_monotonic(natural.0 as int, scale_percent as int, 400);
            lemma_scaled_dimension_monotonic(natural.1 as int, scale_percent as int, 400);
            lemma_scaled_dimension_bounds(natural.0 as int, scale_percent as int);
            lemma_scaled_dimension_bounds(natural.1 as int, scale_percent as int);
        }
        let scaled_width = scale_dimension(natural.0, scale_percent);
        let scaled_height = scale_dimension(natural.1, scale_percent);
        let offset = (center(viewport_size.0, scaled_width), center(viewport_size.1, scaled_height));
        *self = ViewportController {
            scale_percent,
            natural_size: self.natural_size,
            viewport_size,
            offset,
            drag: self.drag,
        };
        Transform {
            scale_percent,
            offset_x: offset.0,
            offset_y: offset.1,
            scaled_width,
            scaled_height,
        }
    }

    /// Zooms in by one step and centers the content, unless that would reach
    /// the largest scale or there is no content.
    pub fn zoom_in(&mut self) -> (result: Result<Transform, Rejection>)
        ensures
            final(self)@ == old(self)@.after_zoom_in(),
            final(self)@.wf(),
            answers(result, old(self)@.zoom_in_rejection(), final(self)@),
    {
        proof {
            use_type_invariant(&*self);
        }
        let scale_percent = self.scale_percent + SCALE_STEP;
        if scale_percent >= MAX_SCALE {
            return Err(Rejection::AtZoomCeiling);
        }
        match self.natural_size {
            None => Err(Rejection::MissingNaturalSize),
            Some(natural) => Ok(self.place(scale_percent, self.viewport_size, natural)),
        }
    }

    /// Zooms out by one step and centers the content, unless that would
    /// leave a side of the content no longer than the least rendered length
    /// or there is no content.
    pub fn zoom_out(&mut self) -> (result: Result<Transform, Rejection>)
        ensures
            final(self)@ == old(self)@.after_zoom_out(),
            final(self)@.wf(),
            answers(result, old(self)@.zoom_out_rejection(), final(self)@),
    {
        proof {
            use_type_invariant(&*self);
        }
        match self.natural_size {
            None => Err(Rejection::MissingNaturalSize),
            Some(natural) => {
                let scale_percent = self.scale_percent - SCALE_STEP;
                proof {
                    lemma_scaled_dimension_bounds(natural.0 as int, 0);
                }
                if scale_dimension(natural.0, scale_percent) <= MIN_RENDERED_DIMENSION
                    || scale_dimension(natural.1, scale_percent) <= MIN_RENDERED_DIMENSION {
                    Err(Rejection::AtZoomFloor)
                } else {
                    Ok(self.place(scale_percent, self.viewport_size, natural))
                }
            },
        }
    }

    /// Takes note of the size of the viewport and centers the content in
    /// it. Nothing changes where the size is the one already held, or where
    /// there is no content.
    pub fn on_resize(
        &mut self,
        viewport_width: u32,
        viewport_height: u32,
    ) -> (result: Result<Transform, Rejection>)
        ensures
            final(self)@ == old(self)@.after_resize(viewport_width as int, viewport_height as int),
            final(self)@.wf(),
            answers(result, old(self)@.resize_rejection(), final(self)@),
    {
        proof {
            use_type_invariant(&*self);
        }
        match self.natural_size {
            None => Err(Rejection::MissingNaturalSize),
            Some(natural) => {
                if self.viewport_size.0 == viewport_width && self.viewport_size.1
                    == viewport_height {
                    Ok(
                        Transform {
                            scale_percent: self.scale_percent,
                            offset_x: self.offset.0,
                            offset_y: self.offset.1,
                            scaled_width: scale_dimension(natural.0, self.scale_percent),
                            scaled_height: scale_dimension(natural.1, self.scale_percent),
                        },
                    )
                } else {
                    Ok(self.place(self.scale_percent, (viewport_width, viewport_height), natural))
                }
            },
        }
    }

    /// Begins a drag with the pointer at (`x`, `y`), unless the content fits
    /// the viewport or there is no content.
    pub fn begin_drag(&mut self, x: i32, y: i32) -> (result: Result<Transform, Rejection>)
        ensures
            final(self)@ == old(self)@.after_begin_drag(x as int, y as int),
            final(self)@.wf(),
            answers(result, old(self)@.begin_drag_rejection(), final(self)@),
    {
        proof {
            use_type_invariant(&*self);
        }
        match self.natural_size {
            None => Err(Rejection::MissingNaturalSize),
            Some(natural) => {
                let scaled_width = scale_dimension(natural.0, self.scale_percent);
                let scaled_height = scale_dimension(natural.1, self.scale_percent);
                if scaled_width <= self.viewport_size.0 as u64 && scaled_height
                    <= self.viewport_size.1 as u64 {
                    Err(Rejection::DragDisabled)
                } else {
                    self.drag = Some(Drag { anchor: (x, y), base_offset: self.offset });
                    Ok(
                        Transform {
                            scale_percent: self.scale_percent,
                            offset_x: self.offset.0,
                            offset_y: self.offset.1,
                            scaled_width,
                            scaled_height,
                        },
                    )
                }
            },
        }
    }

    /// Pans the content after the pointer, which is at (`x`, `y`) now, as
    /// far as the content still covers the viewport. Nothing changes where
    /// no drag is under way, the content fits the viewport, or there is no
    /// content.
    pub fn drag_to(&mut self, x: i32, y: i32) -> (result: Result<Transform, Rejection>)
        ensures
            final(self)@ == old(self)@.after_drag_to(x as int, y as int),
            final(self)@.wf(),
            answers(result, old(self)@.drag_to_rejection(), final(self)@),
    {
        proof {
            use_type_invariant(&*self);
        }
        let natural = match self.natural_size {
            None => {
                return Err(Rejection::MissingNaturalSize);
            },
            Some(natural) => natural,
        };
        let drag_state = match self.drag {
            None => {
                return Err(Rejection::DragDisabled);
            },
            Some(drag_state) => drag_state,
        };
        proof {
            lemma_scaled_dimension_monotonic(natural.0 as int, self.scale_percent as int, 400);
            lemma_scaled_dimension_monotonic(natural.1 as int, self.scale_percent as int, 400);
        }
        let scaled_width = scale_dimension(natural.0, self.scale_percent);
        let scaled_height = scale_dimension(natural.1, self.scale_percent);
        if scaled_width <= self.viewport_size.0 as u64 && scaled_height
            <= self.viewport_size.1 as u64 {
            return Err(Rejection::DragDisabled);
        }
        let offset = (
            drag(
                self.offset.0,
                drag_state.base_offset.0,
                drag_state.anchor.0,
                x,
                scaled_width,
                self.viewport_size.0,
            ),
            drag(
                self.offset.1,
                drag_state.base_offset.1,
                drag_state.anchor.1,
                y,
                scaled_height,
                self.viewport_size.1,
            ),
        );
        self.offset = offset;
        Ok(
            Transform {
                scale_percent: self.scale_percent,
                offset_x: offset.0,
                offset_y: offset.1,
                scaled_width,
                scaled_height,
            },
        )
    }

    /// Ends the drag under way, if any. The content stays where it is.
    pub fn end_drag(&mut self)
        ensures
            final(self)@ == old(self)@.after_end_drag(),
            final(self)@.wf(),
    {
        proof {
            use_type_invariant(&*self);
        }
        self.drag = None;
    }
}

} // verus!
