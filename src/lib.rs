//! The arrow core of a mind-map editor: anchors, the two-click drawing gesture,
//! the choice of the closest anchor pair, and the redraw of arrows when the nodes
//! they join change; plus the splitting of node text around links and the text
//! placement rules.

pub mod arrows;
pub mod gesture;
pub mod layout;
pub mod model;
pub mod redraw;
pub mod resolver;
pub mod sections;
