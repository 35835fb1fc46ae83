pub mod selection;
pub mod cache;
pub mod edge_manager;
