//! Settings that do not come from the environment as they are.
use vstd::prelude::*;
use vstd::string::*;
use crate::text::str_equals;

verus! {

/// Environment used when `DERIBIT_ENV` is unset.
pub const DEFAULT_ENV: &'static str = "test";

/// Seconds between the exchange's heartbeats.
pub const HEARTBEAT_INTERVAL_SECS: u64 = 30;

/// The websocket endpoint of an environment: the production endpoint for
/// `prod`, the test endpoint for anything else.
pub open spec fn ws_url_spec(env: Seq<char>) -> Seq<char> {
    if env == "prod"@ {
        "wss://www.deribit.com/ws/api/v2"@
    } else {
        "wss://test.deribit.com/ws/api/v2"@
    }
}

/// The websocket endpoint of an environment.
pub fn ws_url_for_env(env: &str) -> (url: String)
    ensures
        url@ == ws_url_spec(env@),
{
    if str_equals(env, "prod") {
        String::from_str("wss://www.deribit.com/ws/api/v2")
    } else {
        String::from_str("wss://test.deribit.com/ws/api/v2")
    }
}


/// `prod` selects the production endpoint, and every other environment,
/// the default `test` among them, the test endpoint.
pub proof fn endpoints(env: Seq<char>)
    ensures
        env == "prod"@ ==> ws_url_spec(env) == "wss://www.deribit.com/ws/api/v2"@,
        env != "prod"@ ==> ws_url_spec(env) == "wss://test.deribit.com/ws/api/v2"@,
{
}

} // verus!
