//! Defaults of the bridge's configuration.
use vstd::prelude::*;

verus! {

/// The address the ingestion endpoints listen on unless configured otherwise.
pub fn default_bind_address() -> (r: &'static str)
    ensures
        r@ == "127.0.0.1:8080"@,
{
    proof {
        reveal_strlit("127.0.0.1:8080");
    }
    "127.0.0.1:8080"
}

/// The console command that shows relayed chat, unless configured otherwise:
/// a raw text message to every player.
pub fn default_tellraw_prefix() -> (r: &'static str)
    ensures
        r@ == "tellraw @a"@,
{
    proof {
        reveal_strlit("tellraw @a");
    }
    "tellraw @a"
}

} // verus!
