//! Core of a 2D software-rendering engine: a storage-agnostic pixel-surface
//! contract, two verified backing stores (a run-time sized [`canvas::Canvas`]
//! and a compile-time sized [`sprite::Sprite`]), and the
//! [`vector::Vector`] value type used for coordinates and offsets.

pub mod canvas;
pub mod image;
pub mod sprite;
pub mod vector;
