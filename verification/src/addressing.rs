//! Socket addresses written as text, and the hosts of the local subnet that
//! discovery sweeps when broadcast does not get through.

use vstd::prelude::*;
use crate::text::{chars_of, decimal_chars, decimal_string, push_all, split_chars, split_on, string_of};

verus! {

/// The text `host:port`.
pub open spec fn spec_socket_target(host: Seq<char>, port: u16) -> Seq<char> {
    host + ":"@ + decimal_string(port as nat)
}

/// The text `host:port` of a socket address.
pub fn socket_target(host: &str, port: u16) -> (r: String)
    ensures
        r@ == spec_socket_target(host@, port),
{
    let mut s = string_of(chars_of(host).as_slice());
    s.push(':');
    let d = decimal_chars(port as u64);
    push_all(&mut s, d.as_slice());
    proof {
        reveal_strlit(":");
    }
    assert(s@ =~= spec_socket_target(host@, port));
    s
}

/// The first three parts of a dotted IPv4 address (`a.b.c` of `a.b.c.d`);
/// nothing when the text does not have four dot-separated parts.
pub open spec fn spec_subnet_prefix(ip: Seq<char>) -> Option<Seq<char>> {
    let parts = split_on(ip, '.');
    if parts.len() == 4 {
        Some(parts[0] + "."@ + parts[1] + "."@ + parts[2])
    } else {
        None
    }
}

/// The subnet prefix of the local address, for the directed sweep.
pub fn subnet_prefix(ip: &str) -> (r: Option<String>)
    ensures
        r matches Some(p) ==> spec_subnet_prefix(ip@) == Some(p@),
        r is None ==> spec_subnet_prefix(ip@) is None,
{
    let v = chars_of(ip);
    let parts = split_chars(v.as_slice(), '.');
    assert(parts@.len() == split_on(ip@, '.').len());
    if parts.len() != 4 {
        return None;
    }
    assert(parts@[0]@ == split_on(ip@, '.')[0]);
    assert(parts@[1]@ == split_on(ip@, '.')[1]);
    assert(parts@[2]@ == split_on(ip@, '.')[2]);
    let mut s = string_of(parts[0].as_slice());
    s.push('.');
    push_all(&mut s, parts[1].as_slice());
    s.push('.');
    push_all(&mut s, parts[2].as_slice());
    proof {
        reveal_strlit(".");
    }
    assert(s@ =~= spec_subnet_prefix(ip@)->Some_0);
    Some(s)
}

/// The address `prefix.i` of host number `i` of the subnet.
pub open spec fn spec_subnet_host(prefix: Seq<char>, i: nat) -> Seq<char> {
    prefix + "."@ + decimal_string(i)
}

/// The 254 host addresses `prefix.1` to `prefix.254` that the directed
/// sweep writes to, in order.
pub fn subnet_hosts(prefix: &str) -> (r: Vec<String>)
    ensures
        r@.len() == 254,
        forall|k: int| 0 <= k < 254 ==> #[trigger] r@[k]@ == spec_subnet_host(prefix@, (k + 1) as nat),
{
    let mut out: Vec<String> = Vec::new();
    let mut i: u64 = 1;
    while i <= 254
        invariant
            1 <= i <= 255,
            out@.len() == i - 1,
            forall|k: int| 0 <= k < i - 1 ==> #[trigger] out@[k]@ == spec_subnet_host(prefix@, (k + 1) as nat),
        decreases 255 - i,
    {
        let mut s = string_of(chars_of(prefix).as_slice());
        s.push('.');
        let d = decimal_chars(i);
        push_all(&mut s, d.as_slice());
        proof {
            reveal_strlit(".");
        }
        assert(s@ =~= spec_subnet_host(prefix@, i as nat));
        out.push(s);
        i = i + 1;
    }
    out
}

} // verus!
