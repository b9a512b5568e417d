//! `kubectl`: what a pod is, how a cluster is asked about one, and when it
//! is asked again.

pub mod cadence;
pub mod kubectl;
pub mod laws;
pub mod pod;
pub mod reading;
pub mod watcher;

pub use kubectl::{kubectl_error, Kubectl};
pub use pod::{Container, Pod, PodKey};
pub use cadence::{Cadence, DEFAULT_REFRESH, HIDDEN_REFRESH};
pub use watcher::{Event, KubeSource, Request, Watcher};
