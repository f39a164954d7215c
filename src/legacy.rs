//! What the ingestion endpoints answer, and the notices they relay for
//! players who join or leave.
use vstd::prelude::*;

verus! {

/// The answer to a chat post: whether the game should show the message as usual.
#[derive(Debug, Clone, Copy, PartialEq, Eq, Structural)]
pub struct LegacyChatResponse {
    pub pass_through: bool,
}

/// The sender name under which join and leave notices are relayed.
pub open spec fn system_sender_spec() -> Seq<char> {
    "System"@
}

/// The notice for a player who joined.
pub open spec fn join_notice_spec(name: Seq<char>) -> Seq<char> {
    name + " joined the game"@
}

/// The notice for a player who left.
pub open spec fn leave_notice_spec(name: Seq<char>) -> Seq<char> {
    name + " left the game"@
}

impl LegacyChatResponse {
    /// The answer that lets the game show the message as usual.
    pub fn passing() -> (r: LegacyChatResponse)
        ensures
            r.pass_through,
    {
        LegacyChatResponse { pass_through: true }
    }
}

/// The sender name under which join and leave notices are relayed.
pub fn system_sender() -> (r: &'static str)
    ensures
        r@ == system_sender_spec(),
{
    proof {
        reveal_strlit("System");
    }
    "System"
}

/// The notice for a player named `name` who joined.
pub fn join_notice(name: &str) -> (r: String)
    ensures
        r@ == join_notice_spec(name@),
{
    let mut notice = name.to_owned();
    notice.append(" joined the game");
    proof {
        reveal_strlit(" joined the game");
    }
    notice
}

/// The notice for a player named `name` who left.
pub fn leave_notice(name: &str) -> (r: String)
    ensures
        r@ == leave_notice_spec(name@),
{
    let mut notice = name.to_owned();
    notice.append(" left the game");
    proof {
        reveal_strlit(" left the game");
    }
    notice
}

} // verus!
