//! The post store: an ordered table of posts with server-assigned ids.
//!
//! Posts are kept in ascending id order, ids are unique and never reused,
//! and every id is assigned by the store itself on insertion.

use vstd::prelude::*;

verus! {

/// A blog post: a server-assigned identifier and free-text title and body.
#[derive(Debug)]
pub struct Post {
    pub id: u64,
    pub title: String,
    pub text: String,
}

/// The mathematical value of a post: its id and the character sequences
/// of its title and body.
#[verifier::ext_equal]
pub ghost struct PostV {
    pub id: u64,
    pub title: Seq<char>,
    pub text: Seq<char>,
}

impl View for Post {
    type V = PostV;

    open spec fn view(&self) -> PostV {
        PostV { id: self.id, title: self.title@, text: self.text@ }
    }
}

impl Clone for Post {
    fn clone(&self) -> (r: Post)
        ensures
            r@ == self@,
    {
        Post { id: self.id, title: self.title.clone(), text: self.text.clone() }
    }
}

/// The sequence of mathematical values of a sequence of posts.
pub open spec fn posts_view(s: Seq<Post>) -> Seq<PostV> {
    s.map_values(|p: Post| p@)
}

/// Ids strictly ascend along the sequence; in particular they are unique.
pub open spec fn sorted_by_id(s: Seq<PostV>) -> bool {
    forall|i: int, j: int| 0 <= i < j < s.len() ==> #[trigger] s[i].id < #[trigger] s[j].id
}

/// True when the sequence holds a post with the given id.
pub open spec fn contains_id(s: Seq<PostV>, id: u64) -> bool {
    exists|i: int| 0 <= i < s.len() && s[i].id == id
}

/// The index of the post with the given id, when one is there.
pub open spec fn index_of_id(s: Seq<PostV>, id: u64) -> int {
    choose|i: int| 0 <= i < s.len() && s[i].id == id
}

/// The table of posts. Its value is the sequence of posts in ascending
/// id order; `next_id` is the id the next insertion will receive.
pub struct Store {
    posts: Vec<Post>,
    next_id: u64,
}

impl View for Store {
    type V = Seq<PostV>;

    closed spec fn view(&self) -> Seq<PostV> {
        posts_view(self.posts@)
    }
}

impl Store {
    /// The id the next inserted post will receive.
    pub closed spec fn next_id_spec(&self) -> u64 {
        self.next_id
    }

    /// Well-formedness: ids are at least 1, strictly ascending, and all
    /// below the next id to be assigned.
    pub open spec fn wf(&self) -> bool {
        &&& 1 <= self.next_id_spec()
        &&& forall|i: int| 0 <= i < self@.len() ==> 1 <= #[trigger] self@[i].id < self.next_id_spec()
        &&& sorted_by_id(self@)
    }

    /// An empty store; the first post will receive id 1.
    pub fn new() -> (s: Store)
        ensures
            s.wf(),
            s@ == Seq::<PostV>::empty(),
            s.next_id_spec() == 1,
    {
        let s = Store { posts: Vec::new(), next_id: 1 };
        proof {
            assert(s@ =~= Seq::<PostV>::empty());
        }
        s
    }

    /// How many posts the store holds.
    pub fn count(&self) -> (n: usize)
        ensures
            n == self@.len(),
    {
        self.posts.len()
    }

    /// The id the next inserted post will receive.
    pub fn next_id_val(&self) -> (n: u64)
        ensures
            n == self.next_id_spec(),
    {
        self.next_id
    }

    /// The post at a position of the store order.
    pub fn get_at(&self, i: usize) -> (p: Post)
        requires
            i < self@.len(),
        ensures
            p@ == self@[i as int],
    {
        self.posts[i].clone()
    }

    /// Insert a new post. The store assigns the id: any id supplied by a
    /// client is ignored by the callers of this method. The new post goes
    /// to the end, which keeps the ascending id order.
    pub fn insert(&mut self, title: String, text: String) -> (id: u64)
        requires
            old(self).wf(),
            old(self).next_id_spec() < u64::MAX,
        ensures
            final(self).wf(),
            id == old(self).next_id_spec(),
            final(self)@ == old(self)@.push(PostV { id, title: title@, text: text@ }),
            final(self).next_id_spec() == old(self).next_id_spec() + 1,
    {
        let id = self.next_id;
        let ghost prev = self@;
        self.posts.push(Post { id, title, text });
        self.next_id = self.next_id + 1;
        proof {
            assert(self@ =~= prev.push(PostV { id, title: title@, text: text@ }));
        }
        id
    }

    /// The position of the post with the given id, if it is present.
    fn find_index(&self, id: u64) -> (r: Option<usize>)
        requires
            self.wf(),
        ensures
            match r {
                Some(i) => i < self@.len() && self@[i as int].id == id
                    && index_of_id(self@, id) == i as int,
                None => !contains_id(self@, id),
            },
    {
        let n = self.posts.len();
        let mut i: usize = 0;
        while i < n
            invariant
                self.wf(),
                n == self@.len(),
                i <= n,
                forall|j: int| 0 <= j < i ==> #[trigger] self@[j].id != id,
            decreases n - i,
        {
            if self.posts[i].id == id {
                proof {
                    lemma_unique_index(self@, id, i as int);
                }
                return Some(i);
            }
            i = i + 1;
        }
        None
    }

    /// Fetch the post with the given id. Returns the stored post exactly
    /// when a post with that id is present, and nothing otherwise.
    pub fn find(&self, id: u64) -> (r: Option<Post>)
        requires
            self.wf(),
        ensures
            match r {
                Some(p) => contains_id(self@, id) && p@ == self@[index_of_id(self@, id)]
                    && p@.id == id,
                None => !contains_id(self@, id),
            },
    {
        match self.find_index(id) {
            Some(i) => Some(self.posts[i].clone()),
            None => None,
        }
    }

    /// Overwrite the title and text of the post with the given id, keeping
    /// the id and the position. Returns whether such a post was present;
    /// an absent id leaves the store unchanged.
    pub fn update(&mut self, id: u64, title: String, text: String) -> (found: bool)
        requires
            old(self).wf(),
        ensures
            final(self).wf(),
            final(self).next_id_spec() == old(self).next_id_spec(),
            found == contains_id(old(self)@, id),
            found ==> final(self)@ == old(self)@.update(
                index_of_id(old(self)@, id),
                PostV { id, title: title@, text: text@ },
            ),
            !found ==> final(self)@ == old(self)@,
    {
        let ghost prev = self@;
        match self.find_index(id) {
            Some(i) => {
                self.posts[i] = Post { id, title, text };
                proof {
                    assert(self@ =~= prev.update(
                        index_of_id(prev, id),
                        PostV { id, title: title@, text: text@ },
                    ));
                }
                true
            },
            None => false,
        }
    }

    /// Remove the post with the given id. Returns whether such a post was
    /// present; an absent id leaves the store unchanged.
    pub fn delete(&mut self, id: u64) -> (found: bool)
        requires
            old(self).wf(),
        ensures
            final(self).wf(),
            final(self).next_id_spec() == old(self).next_id_spec(),
            found == contains_id(old(self)@, id),
            found ==> final(self)@ == old(self)@.remove(index_of_id(old(self)@, id)),
            !found ==> final(self)@ == old(self)@,
            !contains_id(final(self)@, id),
    {
        let ghost prev = self@;
        match self.find_index(id) {
            Some(i) => {
                self.posts.remove(i);
                proof {
                    assert(self@ =~= prev.remove(index_of_id(prev, id)));
                    lemma_remove_absent(prev, id, index_of_id(prev, id));
                }
                true
            },
            None => false,
        }
    }
}

/// In a sequence of strictly ascending ids any position holding an id
/// is the position `index_of_id` picks.
pub(crate) proof fn lemma_unique_index(s: Seq<PostV>, id: u64, i: int)
    requires
        sorted_by_id(s),
        0 <= i < s.len(),
        s[i].id == id,
    ensures
        contains_id(s, id),
        index_of_id(s, id) == i,
{
    assert(contains_id(s, id));
    let j = index_of_id(s, id);
    assert(0 <= j < s.len() && s[j].id == id);
    if i < j {
        assert(s[i].id < s[j].id);
    } else if j < i {
        assert(s[j].id < s[i].id);
    }
}

/// Removing the only position that holds an id leaves no post with that id,
/// when ids are strictly ascending.
pub(crate) proof fn lemma_remove_absent(s: Seq<PostV>, id: u64, i: int)
    requires
        sorted_by_id(s),
        0 <= i < s.len(),
        s[i].id == id,
    ensures
        !contains_id(s.remove(i), id),
{
    let t = s.remove(i);
    assert forall|k: int| 0 <= k < t.len() implies #[trigger] t[k].id != id by {
        if k < i {
            assert(t[k] == s[k]);
            assert(s[k].id < s[i].id);
        } else {
            assert(t[k] == s[k + 1]);
            assert(s[i].id < s[k + 1].id);
        }
    }
}

} // verus!
