//! An immediate-mode 2D primitive renderer core: callers describe shapes,
//! textured quads and text as an ordered list of draw operations; the list
//! batches them by texture binding, and a double-buffered frame submitter
//! plans how they are packed into staging memory and drawn.

pub mod font;
pub mod geom;
pub mod primitives;
pub mod program;
