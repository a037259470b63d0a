//! Parametric sewing-pattern engine: exact decimal geometry, bounding boxes,
//! pattern and template models, parameter application and a render sink.

pub mod decimal;
pub mod geometry;
pub mod pattern;
pub mod template;
pub mod render;
pub mod archive;
pub mod constraint;
