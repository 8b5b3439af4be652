//! Render state shared between style resolution and painting.
use vstd::prelude::*;

verus! {

/// Vector clip shape in script coordinates with a drawing scale.
#[derive(Debug, Clone)]
pub struct VectorClip {
    pub scale: i32,
    pub drawing: String,
}

/// `\fade(a1, a2, a3, t1, t2, t3, t4)`: alphas and times, all `i32`
/// like libass.
#[derive(Debug, Clone, Copy)]
pub struct ComplexFade {
    pub a1: i32,
    pub a2: i32,
    pub a3: i32,
    pub t1: i32,
    pub t2: i32,
    pub t3: i32,
    pub t4: i32,
}

} // verus!
