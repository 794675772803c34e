//! Pagination: slicing the ordered post sequence into fixed-size pages and
//! counting the pages.
//!
//! Pages are 1-based. A `page` value of 0 is clamped to 1: the request is
//! answered as a request for the first page rather than rejected. A page
//! past the end is answered with an empty slice.

use vstd::prelude::*;
use vstd::arithmetic::div_mod::lemma_fundamental_div_mod;
use vstd::arithmetic::div_mod::lemma_div_pos_is_pos;
use vstd::arithmetic::div_mod::lemma_mod_bound;

use crate::store::Post;
use crate::store::sorted_by_id;
use crate::store::PostV;
use crate::store::Store;
use crate::store::posts_view;

verus! {

/// How many pages a listing of `total` posts has at `per` posts per page:
/// zero when there is nothing to list, else the ceiling of `total / per`.
pub open spec fn spec_num_pages(total: nat, per: nat) -> nat
    recommends
        per >= 1,
{
    if total == 0 {
        0
    } else {
        (total - 1) as nat / per + 1
    }
}

/// `spec_num_pages` is the ceiling of `total / per`: the pages cover all
/// posts, and every page but possibly the last is needed.
pub proof fn lemma_num_pages_is_ceiling(total: nat, per: nat)
    requires
        per >= 1,
    ensures
        spec_num_pages(total, per) * per >= total,
        total > 0 ==> (spec_num_pages(total, per) - 1) * per < total,
        total == 0 ==> spec_num_pages(total, per) == 0,
{
    if total > 0 {
        let x = total - 1;
        let p = per as int;
        lemma_fundamental_div_mod(x, p);
        lemma_div_pos_is_pos(x, p);
        lemma_mod_bound(x, p);
        let q = x / p;
        let r = x % p;
        assert((q + 1) * p == p * q + p) by (nonlinear_arith);
        assert(q * p == p * q) by (nonlinear_arith);
        assert((q + 1) * p == x - r + p);
        assert((q + 1) * p >= total);
        assert(q * p == x - r);
        assert(q * p < total);
    }
}

/// The effective page number: a request for page 0 means page 1.
pub open spec fn effective_page(page: u64) -> nat {
    if page == 0 {
        1
    } else {
        page as nat
    }
}

/// The slice of `s` that page `page` shows at `per` posts per page:
/// the posts from offset `(page - 1) * per` on, at most `per` of them.
/// A page past the end is empty.
pub open spec fn spec_page(s: Seq<PostV>, page: nat, per: nat) -> Seq<PostV>
    recommends
        page >= 1,
        per >= 1,
{
    let start = (page - 1) * per;
    if start >= s.len() {
        Seq::<PostV>::empty()
    } else if start + per >= s.len() {
        s.subrange(start as int, s.len() as int)
    } else {
        s.subrange(start as int, (start + per) as int)
    }
}

impl Store {
    /// The number of pages a listing has at `per_page` posts per page:
    /// the ceiling of the post count divided by `per_page`. The pages
    /// cover all posts, and every page but possibly the last is needed.
    pub fn num_pages(&self, per_page: u64) -> (n: u64)
        requires
            per_page >= 1,
        ensures
            n == spec_num_pages(self@.len(), per_page as nat),
            n * per_page >= self@.len(),
            self@.len() > 0 ==> (n - 1) * per_page < self@.len(),
            self@.len() == 0 ==> n == 0,
    {
        proof {
            lemma_num_pages_is_ceiling(self@.len(), per_page as nat);
        }
        let total = self.count() as u64;
        if total == 0 {
            0
        } else {
            (total - 1) / per_page + 1
        }
    }

    /// The page of posts shown for the given 1-based page number, in store
    /// order (ascending id). Page 0 is answered as page 1; a page past the
    /// end is empty. At most `per_page` posts come back, with their ids
    /// still strictly ascending.
    pub fn page(&self, page: u64, per_page: u64) -> (v: Vec<Post>)
        requires
            self.wf(),
            per_page >= 1,
        ensures
            posts_view(v@) == spec_page(self@, effective_page(page), per_page as nat),
            v@.len() <= per_page,
            sorted_by_id(posts_view(v@)),
    {
        proof {
            crate::laws::lemma_listing_page(self@, effective_page(page), per_page as nat);
        }
        let eff: u64 = if page == 0 { 1 } else { page };
        let len = self.count();
        let ghost gpage = spec_page(self@, effective_page(page), per_page as nat);
        let start_u64 = match (eff - 1).checked_mul(per_page) {
            Some(s) => s,
            None => {
                // The offset exceeds `u64::MAX`, so it is past any length.
                proof {
                    assert((eff - 1) * per_page > u64::MAX);
                    assert(self@.len() == len as u64);
                    assert(gpage =~= Seq::<PostV>::empty());
                }
                return Vec::new();
            },
        };
        if start_u64 >= len as u64 {
            proof {
                assert(gpage =~= Seq::<PostV>::empty());
            }
            return Vec::new();
        }
        let start = start_u64 as usize;
        let end: usize = if per_page >= (len - start) as u64 {
            len
        } else {
            start + per_page as usize
        };
        let mut v: Vec<Post> = Vec::new();
        let mut i: usize = start;
        proof {
            assert(gpage =~= self@.subrange(start as int, end as int));
        }
        while i < end
            invariant
                start <= i <= end <= self@.len(),
                self.wf(),
                len == self@.len(),
                posts_view(v@) =~= self@.subrange(start as int, i as int),
            decreases end - i,
        {
            let p = self.get_at(i);
            let ghost before = v@;
            v.push(p);
            proof {
                assert(posts_view(v@) =~= posts_view(before).push(self@[i as int]));
                assert(posts_view(v@) =~= self@.subrange(start as int, i as int + 1));
            }
            i = i + 1;
        }
        proof {
            assert(posts_view(v@) =~= gpage);
        }
        v
    }
}

} // verus!
