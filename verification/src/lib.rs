//! Keeps the EasyTier toolset of a host installed and in step with the
//! latest upstream release.
//!
//! The library holds the rules: which files an installation needs and what
//! role each plays (`efile`, `platform`), which release assets suit the
//! host (`http`), what the installed executables say of their version
//! (`easytier`, `decode`), which entries of a downloaded archive are to be
//! written out (`archive`), and in which order a synchronization run does
//! its work (`sync`). It touches neither the network nor the disk: what
//! surrounds it fetches, probes and writes, and hands plain values in and
//! out.
//!
//! Every function is verified against its contract. The outside functions
//! that the library calls are listed where they are called, each with what
//! is taken on trust of it.

pub mod archive;
pub mod constant;
pub mod decode;
pub mod easytier;
pub mod efile;
pub mod error;
pub mod handlers;
pub mod http;
pub mod model;
pub mod platform;
pub mod sync;
pub mod text;
pub mod token;
