//! Deterministic token-emission engine: fixed-point mathematics, the sigmoid
//! emission curve, time dilation driven by network activity, and the
//! per-block emission state machine.
pub mod math;
pub mod pallet;
pub mod curve;
pub mod engine;
