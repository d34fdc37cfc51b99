//! A container runtime shim: container lifecycle bookkeeping, the guest agent's
//! request handling, OCI configuration building, image references and pull
//! plans, resource readings from cgroup files, and the text formats the
//! runtime and its command-line tool use.

pub mod agent;
pub mod cli;
pub mod cri;
pub mod error;
pub mod events;
pub mod image;
pub mod macos;
pub mod metrics;
pub mod oci;
pub mod path;
pub mod proto;
pub mod runtime;
pub mod shim;
pub mod table;
pub mod text;
pub mod types;

pub use cri::{CriServer, ImageService, RuntimeService};
pub use error::{Result, ShimError};
pub use events::{EventBroadcaster, EventReceiver};
pub use image::{ImageInfo, ImageReference, PullProgress};
pub use runtime::ContainerRuntime;
pub use shim::ShimV2;
pub use types::{
    ContainerConfig, ContainerEvent, ContainerEventType, ContainerInfo, ContainerStatus,
    NetworkConfig, NetworkInterface, PortMapping, ResourceLimits, RuntimeConfig,
    RuntimeConfigBuilder, StdioConfig, VolumeMount,
};
