//! Per-frame control logic of a small 3D platformer, in fixed-point arithmetic.
//!
//! Every length, speed, time and ratio is an integer number of ticks, a
//! million ticks to the unit, so that each result is exact and the same on
//! every machine. The engine around the library turns its own numbers into
//! ticks and back.
//!
//! A frame runs through the modules in this order: `keyboard` reads the keys,
//! `input` sums what keys, joystick and touch screen ask for into one intent,
//! `locomotion` makes the command for the physics engine of it, and, once
//! the engine has moved the player, `camera` moves the camera after it and
//! `animation` picks the clip to play.

pub mod units;
pub mod vector;
pub mod input;
pub mod keyboard;
pub mod locomotion;
pub mod camera;
pub mod animation;
