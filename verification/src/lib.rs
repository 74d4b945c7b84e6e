//! Veronica engine core: the procedural operator graph, its snapshot and
//! undo machinery, geometry parameter cooking, and the face-identity codec
//! that sub-element picking rides on.

pub mod face_id;

pub mod domain;
pub mod digraph;
pub mod node_graph;
pub mod text;
pub mod params;
pub mod operator_graph;
pub mod geometry;
pub mod topology;
pub mod frame;
pub mod pick;
pub mod selection;
pub mod session;
pub mod surface;
