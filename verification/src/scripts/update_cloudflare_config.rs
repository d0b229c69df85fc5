//! The Cloudflare credentials file certbot's DNS plugin reads.
use vstd::prelude::*;

use crate::text::copy_str;

verus! {

/// Where the credentials live.
pub const CLOUDFLARE_CONFIG_PATH: &'static str = "/cloudflare.ini";

/// The credentials file's text for `api_token`.
pub open spec fn cloudflare_config_of(api_token: Seq<char>) -> Seq<char> {
    "# Cloudflare API token used by Certbot\ndns_cloudflare_api_token = "@ + api_token
}

/// The credentials file's text for `api_token`.
pub fn cloudflare_config_content(api_token: &str) -> (r: String)
    ensures
        r@ == cloudflare_config_of(api_token@),
{
    let mut r = copy_str("# Cloudflare API token used by Certbot\ndns_cloudflare_api_token = ");
    r.append(api_token);
    r
}

} // verus!
