//! Frame-graph execution core: render phases that sort and batch draws, the
//! main 2d pass node, clear-color resolution, bind-group handles and the
//! settings of the image loader.
pub mod bind_group;
pub mod clear;
pub mod image_loader;
pub mod node;
pub mod phase;
