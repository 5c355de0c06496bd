//! A line-oriented text console over a fixed 25 x 80 grid of colored
//! character cells, the layout VGA text mode expects.  The grid is held in
//! volatile cells so no store to it is ever elided, and a cursor-tracking
//! writer turns byte streams into cell writes, wrapping full lines and
//! scrolling when the bottom row is passed.

pub mod color;
pub mod screen;
pub mod writer;
