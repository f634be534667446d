//! The WireGuard mesh between the hosts of a stage: addresses and the
//! interface configuration of each host.

use vstd::prelude::*;
use crate::config::HostConfig;
use crate::release::{decimal, push_decimal};
use crate::text::push_all;

verus! {

/// The UDP port WireGuard listens on.
pub const WG_PORT: u16 = 51820;

/// The mesh address of the host at `index` (from 0): `10.10.0.<index+1>`.
pub open spec fn wg_ip_spec(index: nat) -> Seq<char> {
    "10.10.0."@ + decimal(index + 1)
}

/// The mesh address of the host at `index` (from 0).
pub fn wg_ip(index: usize) -> (r: String)
    requires
        index < usize::MAX,
    ensures
        r@ == wg_ip_spec(index as nat),
{
    let mut r = String::new();
    push_all(&mut r, "10.10.0.");
    push_decimal(&mut r, (index + 1) as u64);
    r
}

pub open spec fn interface_block(my_index: nat, private_key: Seq<char>) -> Seq<char> {
    "[Interface]\nPrivateKey = "@ + private_key + "\nAddress = "@ + wg_ip_spec(my_index) + "/24\nListenPort = "@
        + decimal(WG_PORT as nat) + "\n"@
}

pub open spec fn peer_block(index: nat, public_key: Seq<char>, address: Seq<char>) -> Seq<char> {
    "\n[Peer]\nPublicKey = "@ + public_key + "\nAllowedIPs = "@ + wg_ip_spec(index) + "/32\nEndpoint = "@
        + address + ":"@ + decimal(WG_PORT as nat) + "\nPersistentKeepalive = 25\n"@
}

/// The peer blocks for the first `n` hosts, skipping `my_index`.
pub open spec fn peers_text(
    my_index: nat,
    hosts: Seq<HostConfig>,
    keys: Seq<String>,
    n: nat,
) -> Seq<char>
    decreases n,
{
    if n == 0 {
        seq![]
    } else {
        let i = (n - 1) as nat;
        let rest = peers_text(my_index, hosts, keys, i);
        if i == my_index {
            rest
        } else {
            rest + peer_block(i, keys[i as int]@, hosts[i as int].address@)
        }
    }
}

/// The `wg0.conf` of the host at `my_index`: its interface, then one peer
/// for every other host, with that host's public key.
pub fn build_wg_config(
    my_index: usize,
    private_key: &str,
    hosts: &Vec<HostConfig>,
    public_keys: &Vec<String>,
) -> (r: String)
    requires
        public_keys@.len() >= hosts@.len(),
        my_index < usize::MAX,
        hosts@.len() < usize::MAX,
    ensures
        r@ == interface_block(my_index as nat, private_key@) + peers_text(
            my_index as nat,
            hosts@,
            public_keys@,
            hosts@.len(),
        ),
{
    let mut r = String::new();
    push_all(&mut r, "[Interface]\nPrivateKey = ");
    push_all(&mut r, private_key);
    push_all(&mut r, "\nAddress = ");
    let ip = wg_ip(my_index);
    push_all(&mut r, ip.as_str());
    push_all(&mut r, "/24\nListenPort = ");
    push_decimal(&mut r, WG_PORT as u64);
    push_all(&mut r, "\n");
    let ghost head = r@;
    assert(head =~= interface_block(my_index as nat, private_key@));
    let mut i: usize = 0;
    while i < hosts.len()
        invariant
            i <= hosts@.len(),
            public_keys@.len() >= hosts@.len(),
            hosts@.len() < usize::MAX,
            r@ == head + peers_text(my_index as nat, hosts@, public_keys@, i as nat),
        decreases hosts@.len() - i,
    {
        if i != my_index {
            let ghost before = r@;
            push_all(&mut r, "\n[Peer]\nPublicKey = ");
            push_all(&mut r, public_keys[i].as_str());
            push_all(&mut r, "\nAllowedIPs = ");
            let pip = wg_ip(i);
            push_all(&mut r, pip.as_str());
            push_all(&mut r, "/32\nEndpoint = ");
            push_all(&mut r, hosts[i].address.as_str());
            push_all(&mut r, ":");
            push_decimal(&mut r, WG_PORT as u64);
            push_all(&mut r, "\nPersistentKeepalive = 25\n");
            assert(r@ =~= before + peer_block(i as nat, public_keys@[i as int]@, hosts@[i as int].address@));
        }
        i = i + 1;
    }
    r
}

} // verus!
