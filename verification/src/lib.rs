//! Selection, hovering and widget bookkeeping for the site editor's
//! interaction tools, stated over plain entity identifiers.

pub mod select;
pub mod interaction;
pub mod widget;
pub mod inspector;
