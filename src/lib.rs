//! Control logic of a small 3D scene viewer on fixed-point geometry: camera-relative
//! locomotion, projection of the pointer onto the ground, the revolving sun and the
//! discrete rotation controls of the displayed object.
pub mod cursor;
pub mod light;
pub mod locomotion;
pub mod lookup;
pub mod rotation;
pub mod vector;
