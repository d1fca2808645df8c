//! The phosphor demo: the components of its worlds and the layout of its meshes.

pub mod assemblage;
pub mod components;
