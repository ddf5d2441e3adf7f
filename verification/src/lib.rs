//! The decisions behind TinePlayer's menus, choosers, keys, soundtracks,
//! readings and audio alignment, with what each one promises stated and
//! proved.

pub mod text;
pub mod readings;
pub mod rows;
pub mod align;
pub mod choices;
pub mod chooser;
pub mod navigation;
pub mod screens;
pub mod strip;
pub mod input;
pub mod tracks;
pub mod markup;
pub mod browser;
pub mod server;
pub mod languages;
pub mod timing;
pub mod page;
pub mod session;
