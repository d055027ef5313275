//! Fractal rendering: the integer side of a Mandelbrot escape-time image
//! (palette, pixel order, RGBA packing) and a Sierpinski triangle subdivision
//! with its outline.
pub mod mandelbrot;
pub mod palette;
pub mod sierpinski;
