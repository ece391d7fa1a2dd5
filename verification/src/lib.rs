//! Window tiling core: focus stacks, workspaces, screens and the
//! pure decisions of the window manager.

pub mod stack;
pub mod window_system;
pub mod layout;
pub mod workspace;
pub mod screen;
pub mod workspaces;
pub mod window_manager;
pub mod arrange;
pub mod events;
pub mod decode;
pub mod handlers;
pub mod laws;
pub mod unique;
