//! Verified core of a LAN streaming helper for emulator GBA windows:
//! gamepad input mapping, key pools, stream planning, MJPEG part splitting,
//! viewer rendering, interface ranking, capture-source bookkeeping and window matching.

pub mod text;
pub mod input;
pub mod key_pool;
pub mod network;
pub mod stream;
pub mod wayland;
pub mod error;
pub mod windows;
pub mod pipewire;
pub mod remote_controller;
pub mod viewer;
pub mod mediamtx;
pub mod mjpeg;
