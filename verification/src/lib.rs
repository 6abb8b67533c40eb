//! Verified core of an image cut-line tool: the SVG export of traced
//! contours, the naming of exported files, the decisions behind saving an
//! image, the order of the image operations that each mode runs, and the
//! session state that the commands share.

pub mod decimal;
pub mod geometry;
pub mod svg;
pub mod ident;
pub mod names;
pub mod session;
pub mod pipeline;
