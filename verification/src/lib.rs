//! Verified core of a scene renderer for a render tree: which side and style a
//! border has, when a viewport change calls for a redraw, the labels of the
//! debug tree outline, and the text payload of a DOM text node.

pub mod text;
pub mod border;
pub mod redraw;
pub mod outline;
