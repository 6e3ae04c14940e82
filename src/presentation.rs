//! What the actor hands to its presentation consumers.
use vstd::prelude::*;

verus! {

/// Width and height of the canvas, in pixels.
#[derive(Clone, Copy, Debug, PartialEq, Eq, Structural)]
pub struct Resolution {
    pub x: u32,
    pub y: u32,
}

impl Resolution {
    pub fn new(x: u32, y: u32) -> (r: Resolution)
        ensures
            r.x == x,
            r.y == y,
    {
        Resolution { x, y }
    }
}

/// One layer of the canvas, drawn in list order.
#[derive(Clone, Copy, Debug, PartialEq, Eq, Structural)]
pub enum Layer<T> {
    Texture(T),
}

/// The canvas as it is to be drawn: its size and its layers, bottom first.
#[derive(Clone, Debug)]
pub struct Canvas<T> {
    pub resolution: Resolution,
    pub layers: Vec<Layer<T>>,
}

/// A viewport presentation: the canvas and where it sits on screen.
#[derive(Clone, Debug)]
pub struct Viewport<X, T> {
    pub transform: X,
    pub canvas: Canvas<T>,
}

/// A color-picker presentation.
#[derive(Clone, Copy, Debug, PartialEq, Eq, Structural)]
pub struct ColorPicker {}

} // verus!
