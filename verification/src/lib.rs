pub mod cookies;
pub mod hosts;
pub mod pattern;

pub use cookies::replace_cookie_domain_on_page;
pub use hosts::replace_host;

use vstd::prelude::*;

verus! {

/// Configuration for one proxy route: which origin host to look for in a
/// response body, and which host and port to put in its place.
pub struct RewriteContext {
    pub host_to_replace: String,
    pub target_host: String,
    pub target_port: u16,
}

} // verus!
