//! Core of a desktop image viewer: cyclic navigation over the images of a
//! directory, and the zoom and pan state of the image on display.

pub mod image_handler;
