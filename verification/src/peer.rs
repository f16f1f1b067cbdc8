//! Saved peers: the record the local directory keeps for a remote, and
//! the decisions around looking one up and remembering one.
use vstd::prelude::*;
use vstd::string::*;
use crate::Cli;
use crate::keys;

verus! {

/// A peer as the local directory stores it: its first known address,
/// its nickname, when it was last seen, its peer id, and its row id.
#[derive(Debug, Clone, PartialEq)]
pub struct ScsPeer {
    addrs: String,
    name: String,
    last_seen: String,
    peer_id: String,
    id: Option<i32>,
}

/// Why a peer id could not be produced.
#[derive(Debug, Clone, PartialEq)]
pub enum PeerError {
    /// The stored peer id string is not a well-formed peer id.
    InvalidPeerId,
}

impl PeerError {
    /// The operator-facing description.
    pub fn message(&self) -> (r: String)
        ensures
            r@ == "stored peer id is not a valid peer id"@,
    {
        "stored peer id is not a valid peer id".to_owned()
    }
}

/// Relies on `time::OffsetDateTime::now_utc` and its rendering: the
/// moment a peer was seen, as text; only that the text is non-empty is
/// assumed, since the value depends on the clock.
#[verifier::external_body]
fn now_utc_string() -> (r: String)
    ensures
        r@.len() > 0,
{
    time::OffsetDateTime::now_utc().to_string()
}

impl ScsPeer {
    /// The stored address, as a spec value.
    pub closed spec fn spec_addrs(&self) -> Seq<char> {
        self.addrs@
    }

    /// The nickname, as a spec value.
    pub closed spec fn spec_name(&self) -> Seq<char> {
        self.name@
    }

    /// The last-seen text, as a spec value.
    pub closed spec fn spec_last_seen(&self) -> Seq<char> {
        self.last_seen@
    }

    /// The stored peer id string, as a spec value.
    pub closed spec fn spec_peer_id(&self) -> Seq<char> {
        self.peer_id@
    }

    /// The row id, as a spec value.
    pub closed spec fn spec_id(&self) -> Option<i32> {
        self.id
    }

    /// A record from its stored parts.
    pub fn from_parts(
        addrs: String,
        name: String,
        last_seen: String,
        peer_id: String,
        id: Option<i32>,
    ) -> (r: ScsPeer)
        ensures
            r.spec_addrs() == addrs@,
            r.spec_name() == name@,
            r.spec_last_seen() == last_seen@,
            r.spec_peer_id() == peer_id@,
            r.spec_id() == id,
    {
        ScsPeer { addrs, name, last_seen, peer_id, id }
    }

    /// A fresh record for a remote seen now: no row id yet, last seen
    /// set to the present moment's rendering.
    pub fn new_seen_now(addr: String, name: String, peer_id: String) -> (r: ScsPeer)
        ensures
            r.spec_addrs() == addr@,
            r.spec_name() == name@,
            r.spec_peer_id() == peer_id@,
            r.spec_id() is None,
            r.spec_last_seen().len() > 0,
    {
        let last_seen = now_utc_string();
        ScsPeer { addrs: addr, name, last_seen, peer_id, id: Option::None }
    }

    /// The nickname.
    pub fn name(&self) -> (r: String)
        ensures
            r@ == self.spec_name(),
    {
        self.name.clone()
    }

    /// The stored address.
    pub fn addrs(&self) -> (r: String)
        ensures
            r@ == self.spec_addrs(),
    {
        self.addrs.clone()
    }

    /// The last-seen text.
    pub fn last_seen(&self) -> (r: String)
        ensures
            r@ == self.spec_last_seen(),
    {
        self.last_seen.clone()
    }

    /// The stored peer id, validated: returned exactly when it is a
    /// well-formed peer id, and unchanged.
    pub fn peer_id(&self) -> (r: Result<String, PeerError>)
        ensures
            r is Ok <==> keys::peer_id_wf(self.spec_peer_id()),
            r matches Ok(s) ==> s@ == self.spec_peer_id(),
            r is Err ==> r->Err_0 == PeerError::InvalidPeerId,
    {
        if keys::peer_id_is_valid(self.peer_id.as_str()) {
            Result::Ok(self.peer_id.clone())
        } else {
            Result::Err(PeerError::InvalidPeerId)
        }
    }
}

/// Why resolving the remote peer failed.
#[derive(Debug, Clone, PartialEq)]
pub enum ResolveError {
    /// Neither a peer id nor a nickname was given.
    MissingSelector,
    /// No saved peer has the given nickname; carries the nickname.
    NotFound(String),
    /// The saved peer's stored id is not a well-formed peer id.
    InvalidStoredPeerId,
}

impl ResolveError {
    /// The operator-facing description of the failure.
    pub fn message(&self) -> (r: String)
        ensures
            *self is MissingSelector ==> r@
                == "Either a remote peer id or a name must be present"@,
            self matches ResolveError::NotFound(n) ==> r@ == "Cannot find peer with name: "@
                + n@,
            *self is InvalidStoredPeerId ==> r@ == "stored peer id is not a valid peer id"@,
    {
        match self {
            ResolveError::MissingSelector => "Either a remote peer id or a name must be present"
                .to_owned(),
            ResolveError::NotFound(n) => "Cannot find peer with name: ".to_owned().concat(
                n.as_str(),
            ),
            ResolveError::InvalidStoredPeerId => "stored peer id is not a valid peer id"
                .to_owned(),
        }
    }
}

/// Resolve the remote peer a send goes to: the peer id given on the
/// command line when present; otherwise the record looked up under the
/// given nickname, whose stored id must be well formed.  With neither a
/// peer id nor a nickname the selection is refused, and with a nickname
/// no record was found under, the nickname is reported.
pub fn remote_peer_id_polyfill(opts: &Cli, lookup: Option<ScsPeer>) -> (r: Result<
    String,
    ResolveError,
>)
    ensures
        opts.remote_peer_id matches Some(rid) ==> (r matches Ok(s) && s@ == rid@),
        opts.remote_peer_id is None && opts.name is None ==> r == Result::<
            String,
            ResolveError,
        >::Err(ResolveError::MissingSelector),
        opts.remote_peer_id is None && opts.name is Some && lookup is None ==> (r matches Err(
            e,
        ) && e matches ResolveError::NotFound(n) && n@ == opts.name->0@),
        opts.remote_peer_id is None && opts.name is Some ==> (lookup matches Some(peer) ==> {
            &&& (r is Ok <==> keys::peer_id_wf(peer.spec_peer_id()))
            &&& (r matches Ok(s) ==> s@ == peer.spec_peer_id())
            &&& (r is Err ==> r->Err_0 == ResolveError::InvalidStoredPeerId)
        }),
{
    match &opts.remote_peer_id {
        Option::Some(rid) => Result::Ok(rid.clone()),
        Option::None => {
            let name = match &opts.name {
                Option::Some(name) => name,
                Option::None => {
                    return Result::Err(ResolveError::MissingSelector);
                },
            };
            match lookup {
                Option::None => Result::Err(ResolveError::NotFound(name.clone())),
                Option::Some(peer) => match peer.peer_id() {
                    Result::Ok(s) => Result::Ok(s),
                    Result::Err(_) => Result::Err(ResolveError::InvalidStoredPeerId),
                },
            }
        },
    }
}

/// What the peer-directory hook does after a successful exchange: with
/// the remote already known, or the operator declining, nothing is
/// stored; otherwise a fresh record under the given nickname, carrying
/// the first external address.
pub fn store_peer_decision(
    peer_known: bool,
    confirmed: bool,
    name: String,
    first_external_addr: Option<String>,
    peer_id: String,
) -> (r: Option<ScsPeer>)
    requires
        !peer_known && confirmed ==> first_external_addr is Some,
    ensures
        peer_known || !confirmed ==> r is None,
        !peer_known && confirmed ==> (r matches Some(p) && p.spec_name() == name@
            && p.spec_peer_id() == peer_id@ && p.spec_addrs() == first_external_addr->0@
            && p.spec_id() is None && p.spec_last_seen().len() > 0),
{
    if peer_known || !confirmed {
        Option::None
    } else {
        let addr = match first_external_addr {
            Option::Some(a) => a,
            Option::None => {
                proof {
                    assert(false);
                }
                vstd::pervasive::unreached()
            },
        };
        Option::Some(ScsPeer::new_seen_now(addr, name, peer_id))
    }
}

} // verus!
