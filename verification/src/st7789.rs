//! The ST7789 panel controller: what goes over its bus, how pixels are
//! gathered into rows and blocks, and which rectangles are filled.

pub mod batch;
pub mod graphics;
pub mod interface;
