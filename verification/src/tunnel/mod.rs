//! The two ends of a tunnel and what runs between them.
pub mod address;
pub mod bytewords;
pub mod endpoint;
pub mod error;
pub mod forward;
pub mod history;
pub mod keypair;
pub mod queue;
pub mod trust;

pub use address::SocketAddr;
pub use bytewords::{CertificateByteWords, CertificateDer};
pub use endpoint::{Client, Server};
pub use error::TunnelError;
pub use forward::UdpTunnel;
