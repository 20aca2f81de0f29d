//! Nano-9: the logic of a Pico-8 style fantasy console, verified with Verus.

pub mod hex;
pub mod text;
pub mod audio;
pub mod gfx;
pub mod lines;
pub mod code_check;
pub mod cart;
pub mod p8scii;
pub mod command;
pub mod api;
pub mod input;
pub mod bit_ops;
pub mod fillp;
pub mod pixel;
pub mod map;
pub mod gfx_handles;
pub mod clear;
pub mod palette;
pub mod keyboard;
pub mod line;
