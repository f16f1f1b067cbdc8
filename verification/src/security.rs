//! The IPv4 allow/deny policy on advertised addresses.
//!
//! On an identify notification the policy check reads the leading protocol
//! component of each address the remote advertises.  A configured
//! deny-list closes the connection when any advertised IPv4 address is
//! in it; a configured allow-list closes it when not every advertised
//! address is an IPv4 address in it.  Absent policy passes, and
//! notifications other than `Received` are ignored.
use vstd::prelude::*;
use crate::config::Config;

verus! {

/// An IPv4 address, as its four octets.
#[derive(Debug, Clone, Copy, PartialEq, Eq, Hash, Structural)]
pub struct Ipv4Address {
    pub a: u8,
    pub b: u8,
    pub c: u8,
    pub d: u8,
}

impl Ipv4Address {
    /// The address `a.b.c.d`.
    pub fn new(a: u8, b: u8, c: u8, d: u8) -> (r: Ipv4Address)
        ensures
            r == (Ipv4Address { a, b, c, d }),
    {
        Ipv4Address { a, b, c, d }
    }
}

/// The leading protocol component of an advertised listen address:
/// an IPv4 address, or anything else.
#[derive(Debug, Clone, Copy, PartialEq, Eq, Structural)]
pub enum AddrProtocol {
    Ip4(Ipv4Address),
    Other,
}

/// An identify notification, reduced to what the engine reads: for a
/// `Received` notification, the leading component of each address the
/// remote advertises, and the address the remote observed us under.
#[derive(Debug, Clone, PartialEq)]
pub enum IdentifyEvent {
    Sent,
    Received { listen_heads: Vec<AddrProtocol>, observed_addr: String },
    Other,
}

/// A head counts as allowed when it is an IPv4 address on the list.
pub open spec fn head_allowed(h: AddrProtocol, allow: Seq<Ipv4Address>) -> bool {
    match h {
        AddrProtocol::Ip4(ip) => allow.contains(ip),
        AddrProtocol::Other => false,
    }
}

/// A head counts as denied when it is an IPv4 address on the list.
pub open spec fn head_denied(h: AddrProtocol, deny: Seq<Ipv4Address>) -> bool {
    match h {
        AddrProtocol::Ip4(ip) => deny.contains(ip),
        AddrProtocol::Other => false,
    }
}

/// Every head of the list is allowed.
pub open spec fn all_heads_allowed(heads: Seq<AddrProtocol>, allow: Seq<Ipv4Address>) -> bool {
    forall|i: int| 0 <= i < heads.len() ==> head_allowed(#[trigger] heads[i], allow)
}

/// Some head of the list is denied.
pub open spec fn some_head_denied(heads: Seq<AddrProtocol>, deny: Seq<Ipv4Address>) -> bool {
    exists|i: int| 0 <= i < heads.len() && head_denied(#[trigger] heads[i], deny)
}

/// The allow check: with no allow-list every notification passes; with
/// one, a `Received` notification passes only when every advertised
/// head is allowed, and every other notification passes.
pub open spec fn whitelist_passes(event: IdentifyEvent, config: Config) -> bool {
    match config.spec_whitelists() {
        Option::None => true,
        Option::Some(allow) => match event {
            IdentifyEvent::Received { listen_heads, .. } => all_heads_allowed(
                listen_heads@,
                allow@,
            ),
            _ => true,
        },
    }
}

/// The deny check: with no deny-list nothing is denied; with one, a
/// `Received` notification is denied when any advertised head is on
/// the list, and every other notification is not denied.
pub open spec fn blacklist_hits(event: IdentifyEvent, config: Config) -> bool {
    match config.spec_blacklists() {
        Option::None => false,
        Option::Some(deny) => match event {
            IdentifyEvent::Received { listen_heads, .. } => some_head_denied(
                listen_heads@,
                deny@,
            ),
            _ => false,
        },
    }
}

/// The policy check closes the connection iff the deny check hits or the allow
/// check fails.
pub open spec fn policy_closes(event: IdentifyEvent, config: Config) -> bool {
    blacklist_hits(event, config) || !whitelist_passes(event, config)
}

fn ip_in_list(list: &Vec<Ipv4Address>, ip: Ipv4Address) -> (r: bool)
    ensures
        r == list@.contains(ip),
{
    let mut i: usize = 0;
    while i < list.len()
        invariant
            i <= list@.len(),
            forall|j: int| 0 <= j < i ==> list@[j] != ip,
        decreases list@.len() - i,
    {
        if list[i] == ip {
            return true;
        }
        i += 1;
    }
    false
}

/// Whether the notification passes the allow check of this
/// configuration.
#[verifier::loop_isolation(false)]
pub fn is_ip_whitelisted(event: &IdentifyEvent, config: &Config) -> (r: bool)
    ensures
        r == whitelist_passes(*event, *config),
{
    match config.whitelists() {
        Option::None => true,
        Option::Some(allow) => match event {
            IdentifyEvent::Received { listen_heads, .. } => {
                let mut i: usize = 0;
                let ghost aseq = config.spec_whitelists()->0@;
                proof {
                    assert(allow@ =~= aseq);
                }
                while i < listen_heads.len()
                    invariant
                        i <= listen_heads@.len(),
                        allow@ == aseq,
                        forall|j: int|
                            0 <= j < i ==> head_allowed(#[trigger] listen_heads@[j], aseq),
                    decreases listen_heads@.len() - i,
                {
                    match listen_heads[i] {
                        AddrProtocol::Ip4(ip) => {
                            if !ip_in_list(&allow, ip) {
                                proof {
                                    assert(!head_allowed(listen_heads@[i as int], aseq));
                                    assert(!all_heads_allowed(listen_heads@, aseq));
                                }
                                return false;
                            }
                        },
                        AddrProtocol::Other => {
                            proof {
                                assert(!head_allowed(listen_heads@[i as int], aseq));
                                assert(!all_heads_allowed(listen_heads@, aseq));
                            }
                            return false;
                        },
                    }
                    i += 1;
                }
                proof {
                    assert(all_heads_allowed(listen_heads@, aseq));
                }
                true
            },
            _ => true,
        },
    }
}

/// Whether the notification hits the deny check of this configuration.
#[verifier::loop_isolation(false)]
pub fn is_ip_blacklisted(event: &IdentifyEvent, config: &Config) -> (r: bool)
    ensures
        r == blacklist_hits(*event, *config),
{
    match config.blacklists() {
        Option::None => false,
        Option::Some(deny) => match event {
            IdentifyEvent::Received { listen_heads, .. } => {
                let mut i: usize = 0;
                let ghost dseq = config.spec_blacklists()->0@;
                proof {
                    assert(deny@ =~= dseq);
                }
                while i < listen_heads.len()
                    invariant
                        i <= listen_heads@.len(),
                        deny@ == dseq,
                        forall|j: int|
                            0 <= j < i ==> !head_denied(#[trigger] listen_heads@[j], dseq),
                    decreases listen_heads@.len() - i,
                {
                    match listen_heads[i] {
                        AddrProtocol::Ip4(ip) => {
                            if ip_in_list(&deny, ip) {
                                proof {
                                    assert(head_denied(listen_heads@[i as int], dseq));
                                    assert(some_head_denied(listen_heads@, dseq));
                                }
                                return true;
                            }
                        },
                        AddrProtocol::Other => {},
                    }
                    i += 1;
                }
                proof {
                    assert(!some_head_denied(listen_heads@, dseq));
                }
                false
            },
            _ => false,
        },
    }
}

/// Law: for any configuration and any `Received` notification, the
/// policy closes the connection iff the deny-list meets one advertised
/// IPv4 address, or an allow-list is configured and not every
/// advertised address is an IPv4 address it holds.
pub proof fn lemma_policy_closes_iff(listen_heads: Vec<AddrProtocol>, observed_addr: String, config: Config)
    ensures
        policy_closes(IdentifyEvent::Received { listen_heads, observed_addr }, config) <==> ({
            ||| (config.spec_blacklists() matches Some(deny) && some_head_denied(
                listen_heads@,
                deny@,
            ))
            ||| (config.spec_whitelists() matches Some(allow) && !all_heads_allowed(
                listen_heads@,
                allow@,
            ))
        }),
{
}

/// Law: the address policy never closes a connection on a notification other
/// than `Received`.
pub proof fn lemma_policy_ignores_other(event: IdentifyEvent, config: Config)
    requires
        !(event matches IdentifyEvent::Received { .. }),
    ensures
        !policy_closes(event, config),
{
}

} // verus!
