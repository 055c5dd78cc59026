//! License activation and encrypted-container decryption core: machine
//! fingerprint digesting, signed license verification, and parsing plus
//! hybrid RSA/AES-GCM decryption of the `.dat` payload container.
pub mod container;
pub mod hardware;
pub mod ingest;
pub mod date;
pub mod license;
pub mod machine;
