//! The decision logic of the HTTP surface: one function from the parsed
//! request and the store state to the next store state and the response
//! action. The host around the library performs the action (renders a
//! template or sends a redirect); every decision is made here.
//!
//! Policies this module fixes (the behaviour is otherwise underspecified):
//! a requested page of 0 and a requested page size of 0 are both answered
//! as 1, not rejected; a request that names an absent post id is answered
//! with [`Action::Missing`], a structured per-request failure, instead of
//! aborting the request.

use vstd::prelude::*;

use crate::form::spec_field;
use crate::form::spec_field_u64;
use crate::form::field;
use crate::form::field_u64;
use crate::pagination::effective_page;
use crate::pagination::spec_num_pages;
use crate::pagination::spec_page;
use crate::store::Post;
use crate::store::PostV;
use crate::store::Store;
use crate::store::contains_id;
use crate::store::index_of_id;
use crate::store::posts_view;

verus! {

/// The page size used when the listing request names none.
pub const DEFAULT_POSTS_PER_PAGE: u64 = 5;

/// The listing's optional query parameters.
pub struct Params {
    pub page: Option<u64>,
    pub posts_per_page: Option<u64>,
}

/// The bytes of the query key "page".
pub open spec fn page_key() -> Seq<u8> {
    seq![112u8, 97u8, 103u8, 101u8]
}

/// The bytes of the query key "posts_per_page".
pub open spec fn posts_per_page_key() -> Seq<u8> {
    seq![
        112u8,
        111u8,
        115u8,
        116u8,
        115u8,
        95u8,
        112u8,
        101u8,
        114u8,
        95u8,
        112u8,
        97u8,
        103u8,
        101u8,
    ]
}

/// Read the listing parameters out of a query string: the numeric fields
/// "page" and "posts_per_page", each absent when missing or non-numeric.
pub fn params_from_query(q: &[u8]) -> (p: Params)
    ensures
        p.page == spec_field_u64(q@, page_key()),
        p.posts_per_page == spec_field_u64(q@, posts_per_page_key()),
{
    let kp: Vec<u8> = vec![112u8, 97, 103, 101];
    let kpp: Vec<u8> = vec![112u8, 111, 115, 116, 115, 95, 112, 101, 114, 95, 112, 97, 103, 101];
    proof {
        assert(kp@ =~= page_key());
        assert(kpp@ =~= posts_per_page_key());
    }
    Params {
        page: field_u64(q, kp.as_slice()),
        posts_per_page: field_u64(q, kpp.as_slice()),
    }
}

/// The bytes of the form key "title".
pub open spec fn title_key() -> Seq<u8> {
    seq![116u8, 105u8, 116u8, 108u8, 101u8]
}

/// The bytes of the form key "text".
pub open spec fn text_key() -> Seq<u8> {
    seq![116u8, 101u8, 120u8, 116u8]
}

/// Read the decoded "title" and "text" fields out of a form body; nothing
/// when either is missing or undecodable.
pub fn form_fields(body: &[u8]) -> (r: Option<(Vec<u8>, Vec<u8>)>)
    ensures
        match r {
            Some(p) => spec_field(body@, title_key()) == Some(p.0@) && spec_field(
                body@,
                text_key(),
            ) == Some(p.1@),
            None => spec_field(body@, title_key()) is None || spec_field(body@, text_key())
                is None,
        },
{
    let kt: Vec<u8> = vec![116u8, 105, 116, 108, 101];
    let kx: Vec<u8> = vec![116u8, 101, 120, 116];
    proof {
        assert(kt@ =~= title_key());
        assert(kx@ =~= text_key());
    }
    match field(body, kt.as_slice()) {
        Some(title) => match field(body, kx.as_slice()) {
            Some(text) => Some((title, text)),
            None => None,
        },
        None => None,
    }
}

/// A parsed inbound request, one variant per route.
pub enum Request {
    /// The listing root, with its optional query parameters.
    List { page: Option<u64>, posts_per_page: Option<u64> },
    /// The blank creation form.
    NewForm,
    /// Create a post from the submitted form fields. A client never
    /// supplies the id: the store assigns it.
    Create { title: String, text: String },
    /// The edit form for the post with the given id.
    Edit { id: u64 },
    /// Overwrite title and text of the post with the given id.
    Update { id: u64, title: String, text: String },
    /// Remove the post with the given id.
    Delete { id: u64 },
    /// Any path that matches no route; the path is echoed back.
    Other { path: String },
}

/// What the host must do to answer a request.
pub enum Action {
    /// Render the listing: the page of posts, the effective page number
    /// and page size, and the total page count.
    ListPage { posts: Vec<Post>, page: u64, posts_per_page: u64, num_pages: u64 },
    /// Render the blank creation form.
    NewForm,
    /// Render the edit form for one post.
    EditForm { post: Post },
    /// Redirect to the listing root.
    Redirect,
    /// Render the not-found page, echoing the requested path.
    NotFound { uri: String },
    /// The request named a post that is not there; the request fails.
    Missing,
}

/// The page number a listing request asks for, after the defaults:
/// an absent parameter means page 1, and page 0 is answered as page 1.
pub open spec fn spec_list_page(page: Option<u64>) -> nat {
    match page {
        Some(p) => effective_page(p),
        None => 1,
    }
}

/// The page size a listing request asks for, after the defaults: an
/// absent parameter means `DEFAULT_POSTS_PER_PAGE`, and 0 is answered as 1.
pub open spec fn spec_list_per_page(posts_per_page: Option<u64>) -> nat {
    match posts_per_page {
        Some(p) => if p == 0 { 1 } else { p as nat },
        None => DEFAULT_POSTS_PER_PAGE as nat,
    }
}

/// Answer one request against the store: perform the one store operation
/// the route calls for and say what the host must send back.
pub fn handle(store: &mut Store, req: Request) -> (a: Action)
    requires
        old(store).wf(),
        req is Create ==> old(store).next_id_spec() < u64::MAX,
    ensures
        final(store).wf(),
        match req {
            Request::List { page, posts_per_page } => {
                &&& final(store)@ == old(store)@
                &&& final(store).next_id_spec() == old(store).next_id_spec()
                &&& (a matches Action::ListPage { posts, page: p, posts_per_page: pp, num_pages } ==> {
                    &&& p as nat == spec_list_page(page)
                    &&& pp as nat == spec_list_per_page(posts_per_page)
                    &&& posts_view(posts@) == spec_page(old(store)@, p as nat, pp as nat)
                    &&& num_pages as nat == spec_num_pages(old(store)@.len(), pp as nat)
                })
                &&& a is ListPage
            },
            Request::NewForm => {
                &&& final(store)@ == old(store)@
                &&& final(store).next_id_spec() == old(store).next_id_spec()
                &&& a is NewForm
            },
            Request::Create { title, text } => {
                &&& final(store)@ == old(store)@.push(
                    PostV { id: old(store).next_id_spec(), title: title@, text: text@ },
                )
                &&& final(store).next_id_spec() == old(store).next_id_spec() + 1
                &&& a is Redirect
            },
            Request::Edit { id } => {
                &&& final(store)@ == old(store)@
                &&& final(store).next_id_spec() == old(store).next_id_spec()
                &&& contains_id(old(store)@, id) ==> (
                    a matches Action::EditForm { post }
                        && post@ == old(store)@[index_of_id(old(store)@, id)]
                        && post@.id == id
                )
                &&& !contains_id(old(store)@, id) ==> a is Missing
            },
            Request::Update { id, title, text } => {
                &&& final(store).next_id_spec() == old(store).next_id_spec()
                &&& contains_id(old(store)@, id) ==> {
                    &&& final(store)@ == old(store)@.update(
                        index_of_id(old(store)@, id),
                        PostV { id, title: title@, text: text@ },
                    )
                    &&& a is Redirect
                }
                &&& !contains_id(old(store)@, id) ==> {
                    &&& final(store)@ == old(store)@
                    &&& a is Missing
                }
            },
            Request::Delete { id } => {
                &&& final(store).next_id_spec() == old(store).next_id_spec()
                &&& !contains_id(final(store)@, id)
                &&& contains_id(old(store)@, id) ==> {
                    &&& final(store)@ == old(store)@.remove(index_of_id(old(store)@, id))
                    &&& a is Redirect
                }
                &&& !contains_id(old(store)@, id) ==> {
                    &&& final(store)@ == old(store)@
                    &&& a is Missing
                }
            },
            Request::Other { path } => {
                &&& final(store)@ == old(store)@
                &&& final(store).next_id_spec() == old(store).next_id_spec()
                &&& (a matches Action::NotFound { uri } ==> uri@ == path@)
                &&& a is NotFound
            },
        },
{
    match req {
        Request::List { page, posts_per_page } => {
            let p: u64 = match page {
                Some(p) => if p == 0 { 1 } else { p },
                None => 1,
            };
            let pp: u64 = match posts_per_page {
                Some(pp) => if pp == 0 { 1 } else { pp },
                None => DEFAULT_POSTS_PER_PAGE,
            };
            let posts = store.page(p, pp);
            let num_pages = store.num_pages(pp);
            Action::ListPage { posts, page: p, posts_per_page: pp, num_pages }
        },
        Request::NewForm => Action::NewForm,
        Request::Create { title, text } => {
            store.insert(title, text);
            Action::Redirect
        },
        Request::Edit { id } => {
            match store.find(id) {
                Some(post) => Action::EditForm { post },
                None => Action::Missing,
            }
        },
        Request::Update { id, title, text } => {
            if store.update(id, title, text) {
                Action::Redirect
            } else {
                Action::Missing
            }
        },
        Request::Delete { id } => {
            if store.delete(id) {
                Action::Redirect
            } else {
                Action::Missing
            }
        },
        Request::Other { path } => Action::NotFound { uri: path },
    }
}

} // verus!
