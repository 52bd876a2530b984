//! The query layer's verified edge: building the origin URL that clients
//! and the startup health check address.

use crate::numfmt::{dec_rep, u64_string};
use vstd::prelude::*;
use vstd::string::StringExecFns;

verus! {

/// The HTTP origin of a listen address: `http://` followed by the four
/// dotted decimal address bytes, a colon, and the decimal port.
pub open spec fn origin_url_spec(addr: ([u8; 4], u16)) -> Seq<char> {
    "http://"@ + dec_rep(addr.0@[0] as nat) + seq!['.'] + dec_rep(addr.0@[1] as nat) + seq!['.']
        + dec_rep(addr.0@[2] as nat) + seq!['.'] + dec_rep(addr.0@[3] as nat) + seq![':'] + dec_rep(
        addr.1 as nat,
    )
}

/// Renders the HTTP origin of a listen address.
pub fn origin_url(addr: ([u8; 4], u16)) -> (r: String)
    ensures
        r@ == origin_url_spec(addr),
{
    let mut r = String::from_str("http://");
    proof {
        reveal_strlit("http://");
        reveal_strlit(".");
        reveal_strlit(":");
        assert("."@ =~= seq!['.']);
        assert(":"@ =~= seq![':']);
    }
    let b0 = u64_string(addr.0[0] as u64);
    r.append(b0.as_str());
    r.append(".");
    let b1 = u64_string(addr.0[1] as u64);
    r.append(b1.as_str());
    r.append(".");
    let b2 = u64_string(addr.0[2] as u64);
    r.append(b2.as_str());
    r.append(".");
    let b3 = u64_string(addr.0[3] as u64);
    r.append(b3.as_str());
    r.append(":");
    let p = u64_string(addr.1 as u64);
    r.append(p.as_str());
    r
}

} // verus!
