pub mod quality;
pub mod edge_node;
pub mod stream;
