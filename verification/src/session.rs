//! Per-branch session identifiers and their gateway allow-listing.
//!
//! Every funnel branch owns exactly one session identifier for its
//! lifetime: the identifier registered when the branch's SKU discovery
//! begins is the one presented by every later call attributable to that
//! branch. The registry records identifiers by branch index in order of
//! registration and never replaces one.
//!
//! Allow-listing policy: a gateway failure is fatal. The pipeline does not
//! proceed with a session the gateway rejected or could not be told about.

use vstd::prelude::*;

use crate::error::ResolveError;

verus! {

/// Relies on `uuid::Uuid::new_v4` and the `Display` impl of `Uuid`: the
/// hyphenated text of a UUID is 36 characters. The value is freshly drawn
/// at random, so nothing is promised about which string comes back.
#[verifier::external_body]
pub fn new_session_id() -> (r: String)
    ensures
        r@.len() == 36,
{
    uuid::Uuid::new_v4().to_string()
}

/// Relies on `uuid::Uuid::new_v4` and `Uuid::as_u128` for an arbitrary
/// 128-bit draw; nothing is promised of the value.
#[verifier::external_body]
pub fn random_draw() -> (r: u128)
{
    uuid::Uuid::new_v4().as_u128()
}

/// The fixed vendor identifiers a run presents, with its base session.
pub struct SessionData {
    pub session_id: String,
    pub org_id: String,
    pub profile_id: String,
}

impl Default for SessionData {
    /// A fresh base session with the fixed organisation and profile
    /// identifiers the vendor expects.
    fn default() -> (r: Self)
        ensures
            r.session_id@.len() == 36,
            r.org_id@ == "y6jn8c31"@,
            r.profile_id@ == "606624d44113"@,
    {
        SessionData {
            session_id: new_session_id(),
            org_id: "y6jn8c31".to_owned(),
            profile_id: "606624d44113".to_owned(),
        }
    }
}

/// The branch-indexed session store. Branch `b`'s identifier is the one
/// handed to the `b`-th call of [`SessionRegistry::register`], and lookups
/// return exactly that identifier, never a fresh one.
pub struct SessionRegistry {
    ids: Vec<String>,
}

impl View for SessionRegistry {
    type V = Seq<Seq<char>>;

    closed spec fn view(&self) -> Seq<Seq<char>> {
        self.ids@.map_values(|s: String| s@)
    }
}

impl SessionRegistry {
    /// An empty registry: no branch has a session yet.
    pub fn new() -> (r: Self)
        ensures
            r@ == Seq::<Seq<char>>::empty(),
    {
        let r = SessionRegistry { ids: Vec::new() };
        proof {
            assert(r@ =~= Seq::<Seq<char>>::empty());
        }
        r
    }

    /// How many branches have a session.
    pub fn len(&self) -> (n: usize)
        ensures
            n == self@.len(),
    {
        self.ids.len()
    }

    /// Records `id` for the next branch and returns that branch's index.
    /// Existing branches keep their identifiers unchanged.
    pub fn register(&mut self, id: String) -> (branch: usize)
        ensures
            final(self)@ == old(self)@.push(id@),
            branch == old(self)@.len(),
    {
        let branch = self.ids.len();
        self.ids.push(id);
        proof {
            assert(final(self)@ =~= old(self)@.push(final(self).ids@[branch as int]@));
        }
        branch
    }

    /// The session registered for `branch`; `SessionNotFound` when the
    /// branch was never registered, which indicates an ordering fault.
    pub fn session_for(&self, branch: usize) -> (r: Result<&String, ResolveError>)
        ensures
            match r {
                Ok(s) => branch < self@.len() && s@ == self@[branch as int],
                Err(e) => branch >= self@.len() && (e matches ResolveError::SessionNotFound {
                    index,
                } && index == branch),
            },
    {
        if branch < self.ids.len() {
            Ok(&self.ids[branch])
        } else {
            Err(ResolveError::SessionNotFound { index: branch })
        }
    }
}

/// The gateway allow-listing URL for one session of one organisation.
pub open spec fn spec_whitelist_url(org: Seq<char>, session: Seq<char>) -> Seq<char> {
    "https://vlscppe.microsoft.com/tags?org_id="@ + org + "&session_id="@ + session
}

/// Builds the gateway allow-listing URL for a session.
pub fn whitelist_url(org_id: &str, session_id: &str) -> (r: String)
    ensures
        r@ == spec_whitelist_url(org_id@, session_id@),
{
    let mut u = "https://vlscppe.microsoft.com/tags?org_id=".to_owned();
    u.append(org_id);
    u.append("&session_id=");
    u.append(session_id);
    u
}

/// Applies the allow-listing policy to the gateway call's outcome: success
/// passes, and any failure is fatal, surfaced as a `Whitelist` error with
/// the transport's own description.
pub fn whitelist_outcome(ok: bool, detail: String) -> (r: Result<(), ResolveError>)
    ensures
        match r {
            Ok(_) => ok,
            Err(e) => !ok && (e matches ResolveError::Whitelist { detail: d } && d@ == detail@),
        },
{
    if ok {
        Ok(())
    } else {
        Err(ResolveError::Whitelist { detail })
    }
}

} // verus!
