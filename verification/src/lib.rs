//! The logic of STAR/FOLD's terminal layer: key tables, the column layout,
//! the modal overlays, the Places picker, and the OSC 72 drag-and-drop wire
//! format, each stated as a contract and checked by Verus.

pub mod text;
pub mod width;
pub mod geometry;
pub mod keys;
pub mod dnd;
pub mod uri;
pub mod remote;
pub mod ops;
pub mod input;
pub mod keymap;
pub mod overlays;
pub mod panels;
pub mod places;
pub mod layout;
pub mod status;
pub mod editor;
pub mod labels;
pub mod offer;
pub mod dispatch;
pub mod act;
pub mod refresh;

use vstd::prelude::*;

verus! {

/// One key per scrollbar the column can draw: the stack listing, a
/// commander pane's, the preview, the operations queue, or the conflict
/// prompt while it is the one overlay open.
#[derive(Debug, Clone, Copy, PartialEq, Eq, Structural)]
pub enum Bar {
    Stack,
    Commander(usize),
    Preview,
    Operations,
    Conflict,
}

} // verus!
