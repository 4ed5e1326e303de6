pub mod transient;
pub mod menus;
pub mod input;
pub mod section;
pub mod pane;
pub mod help;
pub mod buffers;
pub mod bar;
