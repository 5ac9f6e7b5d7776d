//! A typesetting engine's region-and-fragment composition core.
//!
//! The centrepiece is the multi-column layout component: it subdivides one
//! region of drawing space into a number of equally wide column strips
//! ("pods"), lays its child out against those strips, and stitches the
//! resulting frames back into one finished frame per original region,
//! respecting gutter spacing and writing direction. Beside it stands a small
//! break-behaviour classifier that an external flow sequencer queries to
//! decide whether a break marker forces a new region or may be merged away.

pub mod colbreak;
pub mod columns;
pub mod content;
pub mod frame;
pub mod geom;
pub mod laws;
pub mod layout;
pub mod regions;
