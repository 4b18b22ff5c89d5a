//! Delegation records and their paginated query responses.
//!
//! A page of delegations carries an opaque cursor: its presence is the key
//! to resume from, its absence signals the end of results. Following the
//! cursor until it is absent visits every delegation exactly once, in the
//! order the server keeps them.

use vstd::prelude::*;

use crate::amount::clone_amount;
use crate::amount::Amount;
use crate::digits::all_dec_digits;
use crate::digits::append_dec;
use crate::digits::append_str;
use crate::digits::dec_digits;
use crate::digits::dec_string;
use crate::digits::dec_value;
use crate::digits::lemma_dec_digits;
use crate::digits::parse_dec;

verus! {

/// One delegation: the identity of the node delegated to and the staked
/// amount; immutable once constructed.
#[derive(Clone, Debug, PartialEq)]
pub struct Delegation {
    pub node_identity: String,
    pub amount: Amount,
}

/// Two delegations agree in identity, magnitude and denomination.
pub open spec fn delegation_eq(a: Delegation, b: Delegation) -> bool {
    a.node_identity@ == b.node_identity@ && a.amount.value == b.amount.value && a.amount.denom@
        == b.amount.denom@
}

/// Two delegation lists agree element by element.
pub open spec fn delegations_eq(a: Seq<Delegation>, b: Seq<Delegation>) -> bool {
    a.len() == b.len() && (forall|i: int|
        0 <= i < a.len() ==> delegation_eq(#[trigger] a[i], b[i]))
}

/// The display line of a delegation: amount, denomination, node identity.
pub open spec fn delegation_display(d: Delegation) -> Seq<char> {
    dec_digits(d.amount.value as nat) + " "@ + d.amount.denom@ + " delegated to "@
        + d.node_identity@
}

impl Delegation {
    /// Constructs a delegation from its parts.
    pub fn new(node_identity: String, amount: Amount) -> (d: Delegation)
        ensures
            d.node_identity == node_identity,
            d.amount == amount,
    {
        Delegation { node_identity, amount }
    }

    /// The staked amount.
    pub fn amount(&self) -> (r: &Amount)
        ensures
            r == &self.amount,
    {
        &self.amount
    }

    /// The identity of the node delegated to.
    pub fn node_identity(&self) -> (r: &String)
        ensures
            r == &self.node_identity,
    {
        &self.node_identity
    }

    /// Renders the delegation for display:
    /// `<amount> <denom> delegated to <identity>`.
    pub fn display_string(&self) -> (r: String)
        ensures
            r@ == delegation_display(*self),
    {
        let mut out = String::new();
        append_dec(&mut out, self.amount.value);
        append_str(&mut out, " ");
        append_str(&mut out, self.amount.denom.as_str());
        append_str(&mut out, " delegated to ");
        append_str(&mut out, self.node_identity.as_str());
        proof {
            assert(out@ =~= delegation_display(*self));
        }
        out
    }
}

/// Copies a delegation field for field, exactly.
fn clone_delegation(d: &Delegation) -> (r: Delegation)
    ensures
        delegation_eq(r, *d),
{
    Delegation { node_identity: d.node_identity.clone(), amount: clone_amount(&d.amount) }
}

/// One page of delegations on a mix node, with the cursor to resume from;
/// an absent cursor signals the end of results.
#[derive(Clone, Debug, PartialEq)]
pub struct PagedMixDelegationsResponse {
    pub node_identity: String,
    pub delegations: Vec<Delegation>,
    pub start_next_after: Option<String>,
}

impl PagedMixDelegationsResponse {
    /// Constructs a page from its parts.
    pub fn new(
        node_identity: String,
        delegations: Vec<Delegation>,
        start_next_after: Option<String>,
    ) -> (r: PagedMixDelegationsResponse)
        ensures
            r.node_identity == node_identity,
            r.delegations == delegations,
            r.start_next_after == start_next_after,
    {
        PagedMixDelegationsResponse { node_identity, delegations, start_next_after }
    }
}

/// One page of delegations on a gateway, with the cursor to resume from;
/// an absent cursor signals the end of results.
#[derive(Clone, Debug, PartialEq)]
pub struct PagedGatewayDelegationsResponse {
    pub node_identity: String,
    pub delegations: Vec<Delegation>,
    pub start_next_after: Option<String>,
}

impl PagedGatewayDelegationsResponse {
    /// Constructs a page from its parts.
    pub fn new(
        node_identity: String,
        delegations: Vec<Delegation>,
        start_next_after: Option<String>,
    ) -> (r: PagedGatewayDelegationsResponse)
        ensures
            r.node_identity == node_identity,
            r.delegations == delegations,
            r.start_next_after == start_next_after,
    {
        PagedGatewayDelegationsResponse { node_identity, delegations, start_next_after }
    }
}

/// The view of an optional cursor string.
pub open spec fn opt_view(c: Option<String>) -> Option<Seq<char>> {
    match c {
        Some(s) => Some(s@),
        None => None,
    }
}

/// The position a cursor resumes from in a store of the given length:
/// absence means the start; a cursor the server did not issue resolves to
/// the end, yielding one final empty page.
pub open spec fn cursor_index(c: Option<Seq<char>>, len: nat) -> nat {
    match c {
        None => 0,
        Some(s) => if all_dec_digits(s) && s.len() >= 1 && dec_value(s) <= len {
            dec_value(s)
        } else {
            len
        },
    }
}

/// The slice of the store one page returns, and the cursor for the next:
/// issued exactly while results remain.
pub open spec fn page_post(
    all: Seq<Delegation>,
    start_after: Option<Seq<char>>,
    limit: nat,
    delegations: Seq<Delegation>,
    next: Option<String>,
) -> bool {
    let start = cursor_index(start_after, all.len()) as int;
    let end = if start + limit <= all.len() {
        start + limit
    } else {
        all.len() as int
    };
    &&& delegations_eq(delegations, all.subrange(start, end))
    &&& (match next {
        Some(c) => end < all.len() && c@ == dec_digits(end as nat),
        None => end == all.len(),
    })
}

/// Serves one page of a delegation store: the `limit` delegations from the
/// cursor's position on, in stored order, with the cursor to resume from if
/// any remain.
fn page_slice(all: &Vec<Delegation>, start_after: &Option<String>, limit: usize) -> (r: (
    Vec<Delegation>,
    Option<String>,
))
    requires
        limit >= 1,
    ensures
        page_post(all@, opt_view(*start_after), limit as nat, r.0@, r.1),
{
    let n = all.len();
    let start: usize = match start_after {
        None => 0,
        Some(s) => {
            match parse_dec(s.as_str()) {
                Some(v) => {
                    if v <= n as u128 {
                        v as usize
                    } else {
                        n
                    }
                },
                None => n,
            }
        },
    };
    let end: usize = if n - start > limit {
        start + limit
    } else {
        n
    };
    let mut page: Vec<Delegation> = Vec::new();
    let mut i: usize = start;
    proof {
        assert(all@.subrange(start as int, start as int) =~= Seq::<Delegation>::empty());
    }
    while i < end
        invariant
            start <= i <= end <= n,
            n == all@.len(),
            delegations_eq(page@, all@.subrange(start as int, i as int)),
        decreases end - i,
    {
        page.push(clone_delegation(&all[i]));
        proof {
            assert(all@.subrange(start as int, i as int + 1).drop_last() =~= all@.subrange(
                start as int,
                i as int,
            ));
            assert(all@.subrange(start as int, i as int + 1).last() == all@[i as int]);
        }
        i = i + 1;
    }
    let next: Option<String> = if end < n {
        Some(dec_string(end as u128))
    } else {
        None
    };
    (page, next)
}

/// Serves one page of the delegations on a mix node.
pub fn query_mix_delegations_page(
    all: &Vec<Delegation>,
    node_identity: &String,
    start_after: &Option<String>,
    limit: usize,
) -> (r: PagedMixDelegationsResponse)
    requires
        limit >= 1,
    ensures
        r.node_identity@ == node_identity@,
        page_post(all@, opt_view(*start_after), limit as nat, r.delegations@, r.start_next_after),
{
    let (delegations, next) = page_slice(all, start_after, limit);
    PagedMixDelegationsResponse {
        node_identity: node_identity.clone(),
        delegations,
        start_next_after: next,
    }
}

/// Serves one page of the delegations on a gateway.
pub fn query_gateway_delegations_page(
    all: &Vec<Delegation>,
    node_identity: &String,
    start_after: &Option<String>,
    limit: usize,
) -> (r: PagedGatewayDelegationsResponse)
    requires
        limit >= 1,
    ensures
        r.node_identity@ == node_identity@,
        page_post(all@, opt_view(*start_after), limit as nat, r.delegations@, r.start_next_after),
{
    let (delegations, next) = page_slice(all, start_after, limit);
    PagedGatewayDelegationsResponse {
        node_identity: node_identity.clone(),
        delegations,
        start_next_after: next,
    }
}

/// Pagination termination: repeatedly following `start_next_after` until it
/// is absent visits each delegation exactly once, in the server's order,
/// with no duplicates or omissions.
pub fn collect_mix_delegations(all: &Vec<Delegation>, node_identity: &String, limit: usize) -> (r:
    Vec<Delegation>)
    requires
        limit >= 1,
    ensures
        delegations_eq(r@, all@),
{
    let mut out: Vec<Delegation> = Vec::new();
    let mut cursor: Option<String> = None;
    let mut done = false;
    let ghost mut pos: int = 0;
    proof {
        assert(all@.take(0int) =~= Seq::<Delegation>::empty());
    }
    while !done
        invariant
            limit >= 1,
            0 <= pos <= all@.len(),
            delegations_eq(out@, all@.take(pos)),
            !done ==> cursor_index(opt_view(cursor), all@.len()) == pos,
            done ==> pos == all@.len(),
        decreases all@.len() - pos + (if done {
            0int
        } else {
            1int
        }),
    {
        let page = query_mix_delegations_page(all, node_identity, &cursor, limit);
        let ghost start = pos;
        let ghost end = if start + limit <= all@.len() {
            start + limit as int
        } else {
            all@.len() as int
        };
        let mut j: usize = 0;
        let page_len = page.delegations.len();
        while j < page_len
            invariant
                0 <= j <= page_len,
                page_len == page.delegations@.len(),
                0 <= start <= end <= all@.len(),
                end - start == page_len,
                delegations_eq(page.delegations@, all@.subrange(start, end)),
                delegations_eq(out@, all@.take(start + j)),
            decreases page_len - j,
        {
            out.push(clone_delegation(&page.delegations[j]));
            proof {
                assert(all@.take(start + j + 1).drop_last() =~= all@.take(start + j));
                assert(all@.take(start + j + 1).last() == all@[start + j]);
                assert(all@.subrange(start, end)[j as int] == all@[start + j]);
            }
            j = j + 1;
        }
        proof {
            pos = end;
        }
        match page.start_next_after {
            Some(c) => {
                proof {
                    lemma_dec_digits(end as nat);
                    assert(cursor_index(Some(c@), all@.len()) == end);
                }
                cursor = Some(c);
            },
            None => {
                done = true;
            },
        }
    }
    proof {
        assert(all@.take(all@.len() as int) =~= all@);
    }
    out
}

/// The gateway-side counterpart of `collect_mix_delegations`: following the
/// cursors of gateway pages gathers the whole store once, in order.
pub fn collect_gateway_delegations(all: &Vec<Delegation>, node_identity: &String, limit: usize) -> (r:
    Vec<Delegation>)
    requires
        limit >= 1,
    ensures
        delegations_eq(r@, all@),
{
    let mut out: Vec<Delegation> = Vec::new();
    let mut cursor: Option<String> = None;
    let mut done = false;
    let ghost mut pos: int = 0;
    proof {
        assert(all@.take(0int) =~= Seq::<Delegation>::empty());
    }
    while !done
        invariant
            limit >= 1,
            0 <= pos <= all@.len(),
            delegations_eq(out@, all@.take(pos)),
            !done ==> cursor_index(opt_view(cursor), all@.len()) == pos,
            done ==> pos == all@.len(),
        decreases all@.len() - pos + (if done {
            0int
        } else {
            1int
        }),
    {
        let page = query_gateway_delegations_page(all, node_identity, &cursor, limit);
        let ghost start = pos;
        let ghost end = if start + limit <= all@.len() {
            start + limit as int
        } else {
            all@.len() as int
        };
        let mut j: usize = 0;
        let page_len = page.delegations.len();
        while j < page_len
            invariant
                0 <= j <= page_len,
                page_len == page.delegations@.len(),
                0 <= start <= end <= all@.len(),
                end - start == page_len,
                delegations_eq(page.delegations@, all@.subrange(start, end)),
                delegations_eq(out@, all@.take(start + j)),
            decreases page_len - j,
        {
            out.push(clone_delegation(&page.delegations[j]));
            proof {
                assert(all@.take(start + j + 1).drop_last() =~= all@.take(start + j));
                assert(all@.take(start + j + 1).last() == all@[start + j]);
                assert(all@.subrange(start, end)[j as int] == all@[start + j]);
            }
            j = j + 1;
        }
        proof {
            pos = end;
        }
        match page.start_next_after {
            Some(c) => {
                proof {
                    lemma_dec_digits(end as nat);
                    assert(cursor_index(Some(c@), all@.len()) == end);
                }
                cursor = Some(c);
            },
            None => {
                done = true;
            },
        }
    }
    proof {
        assert(all@.take(all@.len() as int) =~= all@);
    }
    out
}

} // verus!
