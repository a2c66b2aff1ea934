pub mod document;
pub mod editor;
pub mod gui;
pub mod look;
pub mod openrgb;
pub mod presets;
pub mod render_map;
pub mod sensors;
pub mod settings;
pub mod text;
pub mod wire;
pub mod zones;
pub mod win;
