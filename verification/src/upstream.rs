//! Selection of an upstream recursive resolver: among the containers
//! advertising the `DNS_SERVER` label, pick one uniformly at random and
//! read the first IPv4 address of its networks. The UDP exchange itself
//! is the caller's concern; its outcome is resumed through
//! `resolve::process_resume`.

use vstd::prelude::*;
use crate::resolve::{
    copy_bytes, is_dns_server, spec_has_upstream, spec_is_dns_server, ContainerInfo,
};

verus! {

/// The first recorded address from position `i` on.
pub open spec fn spec_first_ip_from(ips: Seq<Option<Vec<u8>>>, i: int) -> Option<Seq<u8>>
    decreases ips.len() - i,
{
    if i < 0 || i >= ips.len() {
        None
    } else {
        match ips[i] {
            Some(v) => Some(v@),
            None => spec_first_ip_from(ips, i + 1),
        }
    }
}

/// The first non-empty address among a container's networks.
pub open spec fn spec_first_ip(c: ContainerInfo) -> Option<Seq<u8>> {
    spec_first_ip_from(c.network_ips@, 0)
}

/// The first non-empty address among a container's networks (executable).
pub fn first_ip(c: &ContainerInfo) -> (r: Option<Vec<u8>>)
    ensures
        match r {
            Some(v) => spec_first_ip(*c) == Some(v@),
            None => spec_first_ip(*c) is None,
        },
{
    let mut i: usize = 0;
    while i < c.network_ips.len()
        invariant
            i <= c.network_ips@.len(),
            spec_first_ip(*c) == spec_first_ip_from(c.network_ips@, i as int),
        decreases c.network_ips@.len() - i,
    {
        match &c.network_ips[i] {
            Some(v) => {
                return Some(copy_bytes(v));
            },
            None => {
                proof {
                    assert(spec_first_ip_from(c.network_ips@, i as int) == spec_first_ip_from(
                        c.network_ips@,
                        i + 1,
                    ));
                }
            },
        }
        i += 1;
    }
    None
}

/// Relies on `rand`'s `thread_rng` and `Rng::gen_range`: a uniformly
/// random index below `n`.
#[verifier::external_body]
fn random_below(n: usize) -> (r: usize)
    requires
        1 <= n,
    ensures
        r < n,
{
    rand::Rng::gen_range(&mut rand::thread_rng(), 0..n)
}

/// Pick an advertised upstream resolver at random and read its address.
/// Yields an address only of a container advertising `DNS_SERVER`; yields
/// nothing only when none is advertised or the picked one records no
/// address.
pub fn pick_upstream_server(cs: &Vec<ContainerInfo>) -> (r: Option<Vec<u8>>)
    ensures
        match r {
            Some(ip) => exists|i: int|
                0 <= i < cs@.len() && spec_is_dns_server(cs@[i]) && spec_first_ip(cs@[i]) == Some(
                    ip@,
                ),
            None => !spec_has_upstream(cs@) || exists|i: int|
                0 <= i < cs@.len() && spec_is_dns_server(cs@[i]) && spec_first_ip(cs@[i]) is None,
        },
{
    let mut indices: Vec<usize> = Vec::new();
    let mut i: usize = 0;
    while i < cs.len()
        invariant
            i <= cs@.len(),
            forall|k: int|
                0 <= k < indices@.len() ==> #[trigger] indices@[k] < cs@.len()
                    && spec_is_dns_server(cs@[indices@[k] as int]),
            indices@.len() == 0 ==> forall|j: int| 0 <= j < i ==> !spec_is_dns_server(cs@[j]),
        decreases cs@.len() - i,
    {
        if is_dns_server(&cs[i]) {
            indices.push(i);
        }
        i += 1;
    }
    if indices.len() == 0 {
        proof {
            assert(!spec_has_upstream(cs@));
        }
        return None;
    }
    let j = random_below(indices.len());
    let chosen = indices[j];
    first_ip(&cs[chosen])
}

} // verus!
