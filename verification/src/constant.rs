//! The fixed names that the service works with.

use vstd::prelude::*;

verus! {

/// The mirror through which release assets are downloaded.
pub const GITHUB_PROXY: &'static str = "https://ghp.ci";

/// The file that holds the bearer tokens, one on a line.
pub const AUTH_FILE_NAME: &'static str = ".auth_token";

} // verus!
