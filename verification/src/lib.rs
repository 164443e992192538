//! Per-message encryption core for a mail server: re-wraps an incoming
//! message into an OpenPGP/MIME or S/MIME envelope encrypted to the
//! recipient's stored public keys.

pub mod alpn;
pub mod bytes_util;
pub mod cms_ops;
pub mod codec;
pub mod envelope;
pub mod form;
pub mod message;
pub mod mime_ops;
pub mod pem;
pub mod pgp_ops;
pub mod rng_ops;
pub mod types;

pub use alpn::IsTlsAlpnChallenge;
pub use envelope::encrypt;
pub use envelope::EncryptMessage;
pub use message::ParsedMessage;
pub use pem::try_parse_certs;
pub use types::Algorithm;
pub use types::CryptoError;
pub use types::EncryptMessageError;
pub use types::EncryptionMethod;
pub use types::EncryptionParams;
