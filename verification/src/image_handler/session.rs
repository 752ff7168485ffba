//! One viewing session: the images to browse and the viewport they are shown
//! in, driven by one intent of the user at a time.

use crate::image_handler::image_set::{ImageSet, ImageSetView};
use crate::image_handler::viewport::{
    Rejection, Transform, TransformView, ViewportController, ViewportState,
};
use vstd::prelude::*;

verus! {

/// The key that steps to the preceding image, as a hardware keycode.
pub const LEFT_KEY: u16 = 113;

/// The key that steps to the following image, as a hardware keycode.
pub const RIGHT_KEY: u16 = 114;

/// The key that ends the session, as a hardware keycode.
pub const ESC: u16 = 9;

/// What the user asks for. Pointer positions and sizes are in pixels.
#[derive(Clone, Copy, Debug, PartialEq, Eq)]
pub enum Intent {
    /// Step to the preceding image.
    NavigatePrev,
    /// Step to the following image.
    NavigateNext,
    /// Show the content one step larger.
    ZoomIn,
    /// Show the content one step smaller.
    ZoomOut,
    /// The pointer was pressed here.
    BeginDrag { x: i32, y: i32 },
    /// The pointer has moved here.
    DragTo { x: i32, y: i32 },
    /// The pointer was released.
    EndDrag,
    /// The viewport has this size now.
    Resize { width: u32, height: u32 },
    /// End the session.
    Quit,
}

/// What the host is to do in answer to an intent.
#[derive(Debug, PartialEq, Eq)]
pub enum Response {
    /// Decode the image at this path, put it on display and report its
    /// natural size with [`Session::load_content`].
    Navigated(String),
    /// There is no image to step to.
    NoSibling,
    /// Draw the content like this.
    Transformed(Transform),
    /// Leave everything as it is, for this reason.
    Rejected(Rejection),
    /// The drag is over; leave the content where it is.
    DragEnded,
    /// End the session.
    Quit,
}

/// A [`Response`] over sequences and integers.
pub enum ResponseView {
    Navigated(Seq<char>),
    NoSibling,
    Transformed(TransformView),
    Rejected(Rejection),
    DragEnded,
    Quit,
}

impl View for Response {
    type V = ResponseView;

    open spec fn view(&self) -> ResponseView {
        match self {
            Response::Navigated(path) => ResponseView::Navigated(path@),
            Response::NoSibling => ResponseView::NoSibling,
            Response::Transformed(transform) => ResponseView::Transformed(transform@),
            Response::Rejected(rejection) => ResponseView::Rejected(*rejection),
            Response::DragEnded => ResponseView::DragEnded,
            Response::Quit => ResponseView::Quit,
        }
    }
}

/// The intent that a key stands for, if any.
pub open spec fn key_intent(keycode: u16) -> Option<Intent> {
    if keycode == LEFT_KEY {
        Some(Intent::NavigatePrev)
    } else if keycode == RIGHT_KEY {
        Some(Intent::NavigateNext)
    } else if keycode == ESC {
        Some(Intent::Quit)
    } else {
        None
    }
}

impl Intent {
    /// Computes [`key_intent`].
    pub fn from_keycode(keycode: u16) -> (intent: Option<Intent>)
        ensures
            intent == key_intent(keycode),
    {
        if keycode == LEFT_KEY {
            Some(Intent::NavigatePrev)
        } else if keycode == RIGHT_KEY {
            Some(Intent::NavigateNext)
        } else if keycode == ESC {
            Some(Intent::Quit)
        } else {
            None
        }
    }
}

/// What a [`Session`] stands for.
pub struct SessionState {
    pub images: ImageSetView,
    pub viewport: ViewportState,
}

/// The answer to a navigation intent that left the image set as `images`.
pub open spec fn navigation_response(images: ImageSetView) -> ResponseView {
    match images.current() {
        Some(path) => ResponseView::Navigated(path),
        None => ResponseView::NoSibling,
    }
}

/// The answer to a zoom, drag or resize intent that is refused for the
/// reason `rejection`, if any, and else led to the state `viewport`.
pub open spec fn viewport_response(
    rejection: Option<Rejection>,
    viewport: ViewportState,
) -> ResponseView {
    match rejection {
        Some(reason) => ResponseView::Rejected(reason),
        None => ResponseView::Transformed(viewport.transform()),
    }
}

impl SessionState {
    /// Both parts are well formed.
    pub open spec fn wf(self) -> bool {
        self.images.wf() && self.viewport.wf()
    }

    /// The state that `intent` leads to. Navigation moves the cursor and
    /// leaves the viewport alone until the new content is loaded.
    pub open spec fn after(self, intent: Intent) -> Self {
        match intent {
            Intent::NavigatePrev => SessionState { images: self.images.after_prev(), ..self },
            Intent::NavigateNext => SessionState { images: self.images.after_next(), ..self },
            Intent::ZoomIn => SessionState { viewport: self.viewport.after_zoom_in(), ..self },
            Intent::ZoomOut => SessionState { viewport: self.viewport.after_zoom_out(), ..self },
            Intent::BeginDrag { x, y } => SessionState {
                viewport: self.viewport.after_begin_drag(x as int, y as int),
                ..self
            },
            Intent::DragTo { x, y } => SessionState {
                viewport: self.viewport.after_drag_to(x as int, y as int),
                ..self
            },
            Intent::EndDrag => SessionState { viewport: self.viewport.after_end_drag(), ..self },
            Intent::Resize { width, height } => SessionState {
                viewport: self.viewport.after_resize(width as int, height as int),
                ..self
            },
            Intent::Quit => self,
        }
    }

    /// What `intent` is answered with in this state.
    pub open spec fn response_to(self, intent: Intent) -> ResponseView {
        let next = self.after(intent);
        match intent {
            Intent::NavigatePrev | Intent::NavigateNext => navigation_response(next.images),
            Intent::ZoomIn => viewport_response(self.viewport.zoom_in_rejection(), next.viewport),
            Intent::ZoomOut => viewport_response(self.viewport.zoom_out_rejection(), next.viewport),
            Intent::BeginDrag { .. } => viewport_response(
                self.viewport.begin_drag_rejection(),
                next.viewport,
            ),
            Intent::DragTo { .. } => viewport_response(
                self.viewport.drag_to_rejection(),
                next.viewport,
            ),
            Intent::EndDrag => ResponseView::DragEnded,
            Intent::Resize { .. } => viewport_response(
                self.viewport.resize_rejection(),
                next.viewport,
            ),
            Intent::Quit => ResponseView::Quit,
        }
    }

    /// The state after the host has loaded the content that navigation led
    /// to and found it to have the given natural size.
    pub open spec fn after_load_content(self, width: int, height: int) -> Self {
        SessionState { viewport: self.viewport.after_load_content(width, height), ..self }
    }
}

/// The single owner of the state of one viewing session.
#[derive(Debug)]
pub struct Session {
    image_set: ImageSet,
    viewport: ViewportController,
}

impl View for Session {
    type V = SessionState;

    closed spec fn view(&self) -> SessionState {
        SessionState { images: self.image_set@, viewport: self.viewport@ }
    }
}

/// Turns the answer of the viewport into the answer of the session.
fn respond(result: Result<Transform, Rejection>) -> (response: Response)
    ensures
        response@ == match result {
            Ok(transform) => ResponseView::Transformed(transform@),
            Err(reason) => ResponseView::Rejected(reason),
        },
{
    match result {
        Ok(transform) => Response::Transformed(transform),
        Err(reason) => Response::Rejected(reason),
    }
}

/// Turns the answer of the image set into the answer of the session.
fn respond_navigation(path: Option<String>) -> (response: Response)
    ensures
        response@ == match path {
            Some(path) => ResponseView::Navigated(path@),
            None => ResponseView::NoSibling,
        },
{
    match path {
        Some(path) => Response::Navigated(path),
        None => Response::NoSibling,
    }
}

impl Session {
    /// A session over `image_set` in which no content is loaded yet.
    pub fn new(image_set: ImageSet) -> (session: Self)
        ensures
            session@ == (SessionState { images: image_set@, viewport: ViewportState::initial() }),
            session@.wf(),
    {
        proof {
            use_type_invariant(&image_set);
        }
        Session { image_set, viewport: ViewportController::new() }
    }

    /// Takes content of the given natural size on display and says how to
    /// draw it: at its natural size in the top left corner of the viewport.
    pub fn load_content(&mut self, natural_width: u32, natural_height: u32) -> (transform: Transform)
        ensures
            final(self)@ == old(self)@.after_load_content(
                natural_width as int,
                natural_height as int,
            ),
            final(self)@.wf(),
            transform@ == final(self)@.viewport.transform(),
    {
        proof {
            use_type_invariant(&self.image_set);
        }
        self.viewport.load_content(natural_width, natural_height);
        Transform {
            scale_percent: 100,
            offset_x: 0,
            offset_y: 0,
            scaled_width: natural_width as u64,
            scaled_height: natural_height as u64,
        }
    }

    /// Carries out one intent and says what the host is to do.
    pub fn handle(&mut self, intent: Intent) -> (response: Response)
        ensures
            final(self)@ == old(self)@.after(intent),
            final(self)@.wf(),
            response@ == old(self)@.response_to(intent),
    {
        proof {
            use_type_invariant(&self.image_set);
            use_type_invariant(&self.viewport);
        }
        match intent {
            Intent::NavigatePrev => respond_navigation(self.image_set.prev()),
            Intent::NavigateNext => respond_navigation(self.image_set.next()),
            Intent::ZoomIn => respond(self.viewport.zoom_in()),
            Intent::ZoomOut => respond(self.viewport.zoom_out()),
            Intent::BeginDrag { x, y } => respond(self.viewport.begin_drag(x, y)),
            Intent::DragTo { x, y } => respond(self.viewport.drag_to(x, y)),
            Intent::EndDrag => {
                self.viewport.end_drag();
                Response::DragEnded
            },
            Intent::Resize { width, height } => respond(self.viewport.on_resize(width, height)),
            Intent::Quit => Response::Quit,
        }
    }
}

} // verus!
