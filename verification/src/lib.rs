//! Adaptive quality-of-service controller for a shared real-time video
//! encoder serving several viewers at once.
//!
//! Each viewer periodically reports a measured network delay. From those
//! reports the controller derives a round-trip-time baseline, a smoothed
//! transport delay, a delay trend and a discrete network-health tier per
//! viewer, and from these it decides a shared target frame rate and a
//! target bitrate scale factor.
//!
//! All quantities are integers: delays and timestamps in milliseconds,
//! bitrate ratios in permille (so `1000` stands for a scale factor of one).
//! The host process supplies timestamps from a monotonic clock; the
//! library itself never reads a clock.

pub mod delay;
pub mod fifo;
pub mod health;
pub mod qos;
pub mod quality;
pub mod rtt;
