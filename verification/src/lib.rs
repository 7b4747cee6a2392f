//! buckyboi: overlay UX, gaze lock, and local identity state machines.

pub mod text;
pub mod gate;
pub mod ux;
pub mod voice;
pub mod wake;
pub mod wizard;
pub mod display;
pub mod draw;
pub mod enroll;
pub mod face;
pub mod gaze;
pub mod hands;
pub mod num;
pub mod scrfd;
pub mod gaze_calib;
pub mod worker;
pub mod sim;
pub mod flags;
pub mod persist;
pub mod radial;
pub mod session;
pub mod ini;
pub mod blob;
pub mod gaze_track;
pub mod camera;
