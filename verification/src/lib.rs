//! Tile stacking and world-grid generation for a 2D factory game.
//!
//! A [`grid::Grid`] is a square field of [`tile::Tile`]s.  Each tile carries a
//! small stack of placed contents whose order is governed by the layer of
//! each [`tile_type::TileType`].  Every placement or removal is reported to the
//! renderer through a [`display::DisplayQueue`].

pub mod tile_type;
pub mod display;
pub mod direction;
pub mod tile;
pub mod rules;
pub mod random;
pub mod grid;
pub mod topology;
