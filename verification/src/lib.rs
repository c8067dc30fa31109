//! Detection of the container runtime a process is running under.
//!
//! The detector probes a fixed, ordered list of filesystem markers
//! (OpenVZ, OCI, systemd-nspawn, podman, Docker) and reports the first
//! match as a short runtime name. All filesystem reads happen outside
//! this crate: the caller snapshots the markers into a [`container::MarkerProbe`]
//! of plain values, and everything from there on is verified.

pub mod container;
pub mod text;
