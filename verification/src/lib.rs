//! Secrets of several hosts, moved between the directory they live in and
//! an encrypted export that can be carried around, and back.
//!
//! Each host has a profile; a profile owns the secrets it declares and may
//! import secrets that others own. An export encrypts the secrets of one
//! profile under a passphrase and keeps a manifest of SHA-256 digests beside
//! them; an import checks the manifest, decrypts, and writes each secret
//! only where no other content stands.
//!
//! The library decides and never touches the file system itself. Every
//! pipeline is a machine that asks for one operation at a time
//! ([`effects::Request`]) and is resumed with its outcome
//! ([`effects::Reply`]); the caller carries the operations out. What the
//! runs come to is stated over a file system that is a map from paths to
//! files: in [`model`] for the export and the import of one secret, in
//! [`runs`] for whole exports and imports.

use vstd::prelude::*;

pub mod checksum;
pub mod cli;
pub mod config;
pub mod crypto;
pub mod effects;
pub mod export;
pub mod import;
pub mod meta;
pub mod model;
pub mod runs;
pub mod safe_fs;
pub mod text;
pub mod utf8path_ext;
pub mod verify_export;
