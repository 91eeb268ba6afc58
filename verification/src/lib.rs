//! Verified core of the console's desktop pieces: the liveness marker's
//! decisions, the wallpaper logo's layout and rendering, and the stream
//! pipeline that turns raw model bytes into rendered ANSI.

pub mod liveness;
pub mod logo;
pub mod pipeline;
