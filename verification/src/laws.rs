//! The laws of the library: facts that relate several operations, stated
//! over the mathematical values the operations' own contracts use.

use vstd::prelude::*;

use crate::pagination::lemma_num_pages_is_ceiling;
use crate::pagination::spec_num_pages;
use crate::pagination::spec_page;
use crate::store::PostV;
use crate::store::contains_id;
use crate::store::index_of_id;
use crate::store::lemma_unique_index;
use crate::store::sorted_by_id;

verus! {

/// A listing page holds at most `per` posts, keeps the ascending id order
/// of the store, and the page count is the ceiling of `total / per`: the
/// pages cover all posts, and every page but possibly the last is needed.
pub proof fn lemma_listing_page(s: Seq<PostV>, page: nat, per: nat)
    requires
        sorted_by_id(s),
        page >= 1,
        per >= 1,
    ensures
        spec_page(s, page, per).len() <= per,
        sorted_by_id(spec_page(s, page, per)),
        spec_num_pages(s.len(), per) * per >= s.len(),
        s.len() > 0 ==> (spec_num_pages(s.len(), per) - 1) * per < s.len(),
        s.len() == 0 ==> spec_num_pages(s.len(), per) == 0,
{
    lemma_num_pages_is_ceiling(s.len(), per);
    let p = spec_page(s, page, per);
    let start = (page - 1) * per;
    assert forall|i: int, j: int| 0 <= i < j < p.len() implies #[trigger] p[i].id < #[trigger] p[j].id by {
        assert(p[i] == s[start + i]);
        assert(p[j] == s[start + j]);
    }
}

/// A created post appears in the listing: after appending a post, the
/// first page shows it whenever the page size covers the new total.
pub proof fn lemma_create_then_list(s: Seq<PostV>, p: PostV, per: nat)
    requires
        per >= s.len() + 1,
    ensures
        spec_page(s.push(p), 1, per).contains(p),
{
    let s2 = s.push(p);
    assert(spec_page(s2, 1, per) =~= s2);
    assert(s2[s.len() as int] == p);
}

/// Updating a post rewrites its title and text in place: the id keeps its
/// position, and a fetch of that id afterwards sees exactly the new values.
pub proof fn lemma_update_then_fetch(s: Seq<PostV>, id: u64, title: Seq<char>, text: Seq<char>)
    requires
        sorted_by_id(s),
        contains_id(s, id),
    ensures
        ({
            let s2 = s.update(index_of_id(s, id), PostV { id, title, text });
            &&& sorted_by_id(s2)
            &&& contains_id(s2, id)
            &&& s2[index_of_id(s2, id)] == PostV { id, title, text }
        }),
{
    let i = index_of_id(s, id);
    assert(0 <= i < s.len() && s[i].id == id);
    let s2 = s.update(i, PostV { id, title, text });
    assert forall|a: int, b: int| 0 <= a < b < s2.len() implies #[trigger] s2[a].id
        < #[trigger] s2[b].id by {
        assert(s2[a].id == s[a].id);
        assert(s2[b].id == s[b].id);
    }
    lemma_unique_index(s2, id, i);
}

/// Updating a post with the values it already holds changes nothing:
/// the whole sequence, and with it every listing page, stays as it was.
pub proof fn lemma_update_same_values_identity(s: Seq<PostV>, id: u64)
    requires
        sorted_by_id(s),
        contains_id(s, id),
    ensures
        ({
            let i = index_of_id(s, id);
            s.update(i, PostV { id, title: s[i].title, text: s[i].text }) == s
        }),
{
    let i = index_of_id(s, id);
    assert(0 <= i < s.len() && s[i].id == id);
    assert(PostV { id, title: s[i].title, text: s[i].text } =~= s[i]);
    assert(s.update(i, s[i]) =~= s);
}

/// Deleting a post removes its id for good: after removing the position
/// that holds an id, no position holds that id.
pub proof fn lemma_delete_then_fetch_absent(s: Seq<PostV>, id: u64)
    requires
        sorted_by_id(s),
        contains_id(s, id),
    ensures
        !contains_id(s.remove(index_of_id(s, id)), id),
{
    let i = index_of_id(s, id);
    assert(0 <= i < s.len() && s[i].id == id);
    crate::store::lemma_remove_absent(s, id, i);
}

} // verus!
