pub mod keybinding;
