pub mod text;
pub mod layout;
pub mod state;
pub mod config;
pub mod protocol;
pub mod colors;
pub mod icons;
pub mod order;
pub mod util;
pub mod modules;
pub mod click;
