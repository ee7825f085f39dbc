//! The verified core of Nitum PDF: viewer navigation, the signing and
//! verification rules, the update channel and the file-name and byte-level
//! encodings the desktop application relies on.
pub mod text;
pub mod viewer;
pub mod model;
pub mod document;
pub mod ports;
pub mod token_crypto;
pub mod update;
pub mod signing;
pub mod summary;
pub mod order;
pub mod stores;
pub mod tokens;
pub mod stamp;
