//! The routing table: which route a request's verb and path name, with the
//! post id parsed out of the path where the route carries one.
//!
//! Unroutable paths (unknown verbs, unknown paths, a non-numeric or
//! out-of-range id segment) all go to [`Route::NotFound`]; the host then
//! answers with the not-found page.

use vstd::prelude::*;

verus! {

/// A decimal digit.
pub open spec fn is_digit_char(c: char) -> bool {
    '0' <= c && c <= '9'
}

/// The value of a decimal digit.
pub open spec fn digit_val(c: char) -> nat
    recommends
        is_digit_char(c),
{
    (c as nat - '0' as nat) as nat
}

/// Every character of the sequence is a decimal digit.
pub open spec fn all_digits(s: Seq<char>) -> bool {
    forall|i: int| 0 <= i < s.len() ==> is_digit_char(#[trigger] s[i])
}

/// The number a sequence of decimal digits denotes, most significant first.
pub open spec fn dec_value(s: Seq<char>) -> nat
    recommends
        all_digits(s),
    decreases s.len(),
{
    if s.len() == 0 {
        0
    } else {
        dec_value(s.drop_last()) * 10 + digit_val(s.last())
    }
}

/// A digit string never shrinks in value when digits are appended: the
/// value of a prefix is at most the value of the whole.
proof fn lemma_dec_value_prefix_le(s: Seq<char>, j: int)
    requires
        0 <= j <= s.len(),
    ensures
        dec_value(s.take(j)) <= dec_value(s),
    decreases s.len() - j,
{
    if j == s.len() {
        assert(s.take(j) =~= s);
    } else {
        assert(s.take(j + 1).drop_last() =~= s.take(j));
        assert(s.take(j + 1).last() == s[j]);
        lemma_dec_value_prefix_le(s, j + 1);
    }
}

/// A path tail that names a post id: nonempty, all digits, and in range.
pub open spec fn id_tail_ok(t: Seq<char>) -> bool {
    t.len() > 0 && all_digits(t) && dec_value(t) <= u64::MAX
}

/// Parse the decimal number that runs from position `from` to the end of
/// `s`. Succeeds exactly on a nonempty all-digit tail whose value fits in
/// a `u64`, and then returns that value.
pub fn parse_digits(s: &str, from: usize) -> (r: Option<u64>)
    requires
        from <= s@.len(),
    ensures
        match r {
            Some(v) => id_tail_ok(s@.skip(from as int)) && v == dec_value(s@.skip(from as int)),
            None => !id_tail_ok(s@.skip(from as int)),
        },
{
    let ghost t = s@.skip(from as int);
    let len = s.unicode_len();
    if from == len {
        proof {
            assert(t =~= Seq::<char>::empty());
        }
        return None;
    }
    let mut acc: u64 = 0;
    let mut i: usize = from;
    while i < len
        invariant
            from <= i <= len,
            len == s@.len(),
            t == s@.skip(from as int),
            all_digits(t.take(i - from)),
            acc == dec_value(t.take(i - from)),
        decreases len - i,
    {
        let c = s.get_char(i);
        let u = c as u32;
        proof {
            assert(t[i - from] == s@[i as int]);
            assert(t.take(i - from + 1).drop_last() =~= t.take(i - from));
            assert(t.take(i - from + 1).last() == t[i - from]);
        }
        if u < 48 || u > 57 {
            proof {
                assert(!is_digit_char(t[i - from]));
            }
            return None;
        }
        let d = (u - 48) as u64;
        proof {
            assert(d == digit_val(t[i - from]));
        }
        let next = match acc.checked_mul(10) {
            Some(m) => match m.checked_add(d) {
                Some(n) => n,
                None => {
                    proof {
                        lemma_dec_value_prefix_le(t, i - from + 1);
                    }
                    return None;
                },
            },
            None => {
                proof {
                    lemma_dec_value_prefix_le(t, i - from + 1);
                    assert(dec_value(t.take(i - from + 1)) >= acc * 10);
                }
                return None;
            },
        };
        acc = next;
        i = i + 1;
    }
    proof {
        assert(t.take(len - from) =~= t);
    }
    Some(acc)
}

/// Parse a whole string as a decimal `u64`: succeeds exactly on a
/// nonempty all-digit string whose value fits.
pub fn parse_u64(s: &str) -> (r: Option<u64>)
    ensures
        match r {
            Some(v) => id_tail_ok(s@) && v == dec_value(s@),
            None => !id_tail_ok(s@),
        },
{
    proof {
        assert(s@.skip(0) =~= s@);
    }
    parse_digits(s, 0)
}

/// Whether two strings hold the same characters.
pub fn str_eq(a: &str, b: &str) -> (r: bool)
    ensures
        r == (a@ == b@),
{
    let sa = a.to_owned();
    let sb = b.to_owned();
    sa == sb
}

/// Whether `s` begins with `p`.
pub fn str_starts_with(s: &str, p: &str) -> (r: bool)
    ensures
        r == (s@.len() >= p@.len() && s@.take(p@.len() as int) == p@),
{
    let plen = p.unicode_len();
    let slen = s.unicode_len();
    if slen < plen {
        return false;
    }
    let mut i: usize = 0;
    while i < plen
        invariant
            0 <= i <= plen,
            plen == p@.len(),
            slen == s@.len(),
            plen <= slen,
            forall|j: int| 0 <= j < i ==> s@[j] == p@[j],
        decreases plen - i,
    {
        if s.get_char(i) != p.get_char(i) {
            proof {
                assert(s@.take(plen as int)[i as int] != p@[i as int]);
            }
            return false;
        }
        i = i + 1;
    }
    proof {
        assert(s@.take(plen as int) =~= p@);
    }
    true
}

/// The routes of the blog, one variant per verb-and-path pattern.
pub enum Route {
    /// `GET /` — the listing.
    List,
    /// `GET /new` — the blank creation form.
    NewForm,
    /// `POST /` — create a post.
    Create,
    /// `GET /static/...` — a static asset, served verbatim by the host.
    Static,
    /// `GET /{id}` — the edit form for a post.
    Edit { id: u64 },
    /// `POST /{id}` — overwrite a post.
    Update { id: u64 },
    /// `POST /delete/{id}` — remove a post.
    Delete { id: u64 },
    /// Anything else.
    NotFound,
}

/// The route a verb and path name.
pub open spec fn route_spec(method: Seq<char>, path: Seq<char>) -> Route {
    if method == "GET"@ {
        if path == "/"@ {
            Route::List
        } else if path == "/new"@ {
            Route::NewForm
        } else if path.len() >= "/static/"@.len() && path.take("/static/"@.len() as int)
            == "/static/"@ {
            Route::Static
        } else if path.len() > 1 && path[0] == '/' && id_tail_ok(path.skip(1)) {
            Route::Edit { id: dec_value(path.skip(1)) as u64 }
        } else {
            Route::NotFound
        }
    } else if method == "POST"@ {
        if path == "/"@ {
            Route::Create
        } else if path.len() >= "/delete/"@.len() && path.take("/delete/"@.len() as int)
            == "/delete/"@ && id_tail_ok(path.skip("/delete/"@.len() as int)) {
            Route::Delete { id: dec_value(path.skip("/delete/"@.len() as int)) as u64 }
        } else if path.len() > 1 && path[0] == '/' && id_tail_ok(path.skip(1)) {
            Route::Update { id: dec_value(path.skip(1)) as u64 }
        } else {
            Route::NotFound
        }
    } else {
        Route::NotFound
    }
}

/// Match a verb and path against the routing table.
pub fn route(method: &str, path: &str) -> (r: Route)
    ensures
        r == route_spec(method@, path@),
{
    proof {
        reveal_strlit("/static/");
        reveal_strlit("/delete/");
    }
    let plen = path.unicode_len();
    if str_eq(method, "GET") {
        if str_eq(path, "/") {
            Route::List
        } else if str_eq(path, "/new") {
            Route::NewForm
        } else if str_starts_with(path, "/static/") {
            Route::Static
        } else if plen > 1 && path.get_char(0) == '/' {
            match parse_digits(path, 1) {
                Some(id) => Route::Edit { id },
                None => Route::NotFound,
            }
        } else {
            Route::NotFound
        }
    } else if str_eq(method, "POST") {
        if str_eq(path, "/") {
            Route::Create
        } else if str_starts_with(path, "/delete/") {
            match parse_digits(path, 8) {
                Some(id) => Route::Delete { id },
                None => {
                    // The tail after "/delete/" is no id, and the path cannot
                    // name the update route either: its second character is
                    // the 'd' of "delete", not a digit.
                    proof {
                        assert(path@.take(8)[1] == "/delete/"@[1]);
                        assert(path@.skip(1)[0] == path@[1]);
                        assert(!is_digit_char(path@.skip(1)[0]));
                        assert(!all_digits(path@.skip(1)));
                    }
                    Route::NotFound
                },
            }
        } else if plen > 1 && path.get_char(0) == '/' {
            match parse_digits(path, 1) {
                Some(id) => Route::Update { id },
                None => Route::NotFound,
            }
        } else {
            Route::NotFound
        }
    } else {
        Route::NotFound
    }
}

} // verus!
