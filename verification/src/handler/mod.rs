//! Request handlers.

use vstd::prelude::*;

pub mod common;
pub mod compound;
pub mod compound_response;
pub mod copychunk;
pub mod create;
pub mod create_context;
pub mod create_grant;
pub mod create_response;
pub mod dispatch;
pub mod durable;
pub mod io;
pub mod ioctl;
pub mod lease_break;
pub mod lock;
pub mod message;
pub mod negotiate;
pub mod query;
pub mod session;
pub mod set_info;
pub mod signing;
pub mod tree;

verus! {

/// What a sequence with one more element contains.
pub proof fn lemma_push_contains<T>(s: Seq<T>, last: T, x: T)
    ensures
        s.push(last).contains(x) <==> s.contains(x) || x == last,
{
    let longer = s.push(last);
    if s.contains(x) {
        let k = choose|k: int| 0 <= k < s.len() && s[k] == x;
        assert(longer[k] == x);
    }
    assert(longer[s.len() as int] == last);
    if longer.contains(x) {
        let k = choose|k: int| 0 <= k < longer.len() && longer[k] == x;
        if k < s.len() {
            assert(s[k] == x);
        }
    }
}

} // verus!
