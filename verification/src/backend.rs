use vstd::prelude::*;

verus! {

/// What the login manager is asked when a lock is created: which activity
/// to inhibit, on whose behalf, why, and in which mode.
#[derive(Debug, PartialEq, Eq)]
pub struct LockRequest {
    pub what: String,
    pub who: String,
    pub why: String,
    pub mode: String,
}

/// The reason that a backend is given for a lock: the application's name,
/// one space, and the application's own reason.
pub open spec fn reason_text(application_name: Seq<char>, reason: Seq<char>) -> Seq<char> {
    application_name + seq![' '] + reason
}

/// Joins the application's name and its reason into the reason that the
/// backend is given.
pub fn describe_reason(application_name: &str, reason: &str) -> (why: String)
    ensures
        why@ == reason_text(application_name@, reason@),
{
    proof {
        reveal_strlit(" ");
    }
    let mut why = String::from_str(application_name);
    why.append(" ");
    assert(" "@ =~= seq![' ']);
    why.append(reason);
    why
}

impl LockRequest {
    /// The request for a lock that blocks idling, made by `who` for the
    /// reason `why`. Both texts are metadata only.
    pub fn idle_block(who: &str, why: &str) -> (request: Self)
        ensures
            request.what@ == "idle"@,
            request.who@ == who@,
            request.why@ == why@,
            request.mode@ == "block"@,
    {
        LockRequest {
            what: String::from_str("idle"),
            who: String::from_str(who),
            why: String::from_str(why),
            mode: String::from_str("block"),
        }
    }
}

} // verus!
