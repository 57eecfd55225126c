//! Pedestrian-crossing geometry selection and traffic-signal rendering plans
//! for intersections of a road network.
//!
//! Lengths are fixed-point integers: map coordinates in centimetres, screen
//! coordinates in hundredths of a pixel, durations in tenths of a second.
//! The library decides what is drawn, where and in which color; the host
//! paints.
pub mod model;
pub mod geometry;
pub mod derive;
pub mod color;
pub mod cycle;
pub mod label;
pub mod diagram;
pub mod intersection;
