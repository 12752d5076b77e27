//! Protocol core of a USB-attached pixel panel: pixel formats, the framed
//! wire protocol, the payload codec, the hand-off between the receiving and
//! the rendering side, and the byte streams that drive the panel.

pub mod bytes;
pub mod canvas;
pub mod chunks;
pub mod codec;
pub mod host;
pub mod panel;
pub mod pipeline;
pub mod protocol;
pub mod receive;
pub mod render;
pub mod resize;
pub mod rgb2yuv;
pub mod rgb565;
pub mod splash;
pub mod st7735;
pub mod st7789;
