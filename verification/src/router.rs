//! The router: from method, path and query to exactly one handler, or to a
//! rejection.
//!
//! Four routes exist, all under `GET`: `/{seconds}` (wait), `/re/{text}`
//! (escape echo), `/api/gif/{category}` (fetch), and the same path with a
//! `url` query parameter (insert). Insert and fetch share a path shape and
//! are told apart solely by the presence of the `url` parameter. A path
//! that matches no shape is `NotFound`; a matching path under any other
//! method is `MethodNotAllowed`.

use crate::errors::ApiError;
use crate::text::parse_seconds;
use crate::text::spec_parse_seconds;
use vstd::prelude::*;

verus! {

/// The request methods the router distinguishes. Every route is a `GET`
/// route; the variants only serve to classify everything else as
/// `MethodNotAllowed`.
#[derive(Clone, Copy, Debug, PartialEq, Eq, Structural)]
pub enum Method {
    Get,
    Post,
    Put,
    Delete,
    Head,
    Options,
    Patch,
    Other,
}

/// The router's decision: which handler runs with which arguments, or which
/// error the request is rejected with.
#[derive(Debug)]
pub enum Dispatch {
    /// Suspend for the given number of seconds, then confirm.
    Wait(u8),
    /// Echo the text with `%20` replaced by spaces.
    ReplaceEcho(Vec<u8>),
    /// Fetch a random item of the category.
    Fetch(Vec<u8>),
    /// Insert a new item with a generated id.
    Insert { category: Vec<u8>, url: Vec<u8> },
    /// No handler runs; answer with this error's envelope.
    Reject(ApiError),
}

/// The mathematical shape of a `Dispatch`.
pub enum SpecDispatch {
    Wait(u8),
    ReplaceEcho(Seq<u8>),
    Fetch(Seq<u8>),
    Insert { category: Seq<u8>, url: Seq<u8> },
    Reject(ApiError),
}

impl View for Dispatch {
    type V = SpecDispatch;

    open spec fn view(&self) -> SpecDispatch {
        match self {
            Dispatch::Wait(s) => SpecDispatch::Wait(*s),
            Dispatch::ReplaceEcho(t) => SpecDispatch::ReplaceEcho(t@),
            Dispatch::Fetch(c) => SpecDispatch::Fetch(c@),
            Dispatch::Insert { category, url } => SpecDispatch::Insert {
                category: category@,
                url: url@,
            },
            Dispatch::Reject(e) => SpecDispatch::Reject(*e),
        }
    }
}

/// The bytes of the fixed path segment `re`.
pub open spec fn re_seg() -> Seq<u8> {
    seq![114u8, 101u8]
}

/// The bytes of the fixed path segment `api`.
pub open spec fn api_seg() -> Seq<u8> {
    seq![97u8, 112u8, 105u8]
}

/// The bytes of the fixed path segment `gif`.
pub open spec fn gif_seg() -> Seq<u8> {
    seq![103u8, 105u8, 102u8]
}

/// `s` split at every `/` (byte 47): one segment more than there are
/// slashes, empty segments kept.
pub open spec fn split_slash(s: Seq<u8>) -> Seq<Seq<u8>>
    decreases s.len(),
{
    if s.len() == 0 {
        seq![Seq::<u8>::empty()]
    } else {
        let rest = split_slash(s.skip(1));
        if s[0] == 47u8 {
            seq![Seq::<u8>::empty()] + rest
        } else {
            seq![seq![s[0]] + rest[0]] + rest.skip(1)
        }
    }
}

/// A split always yields at least one segment.
pub proof fn lemma_split_slash_len(s: Seq<u8>)
    ensures
        split_slash(s).len() >= 1,
    decreases s.len(),
{
    if s.len() > 0 {
        lemma_split_slash_len(s.skip(1));
    }
}

/// The views of a vector of byte vectors.
pub open spec fn seq_views(v: Seq<Vec<u8>>) -> Seq<Seq<u8>> {
    v.map_values(|x: Vec<u8>| x@)
}

/// Which handler the path and query select, before the method is looked at:
/// one segment that parses as seconds is the wait route; `re` and a
/// non-empty segment is the echo route; `api`, `gif` and a non-empty
/// category is insert when the `url` parameter is present, fetch when it is
/// absent; everything else matches no route.
pub open spec fn spec_shape(path: Seq<u8>, q: Option<Seq<u8>>) -> SpecDispatch {
    if path.len() == 0 || path[0] != 47u8 {
        SpecDispatch::Reject(ApiError::NotFound)
    } else {
        let segs = split_slash(path.skip(1));
        if segs.len() == 1 {
            match spec_parse_seconds(segs[0]) {
                Some(n) => SpecDispatch::Wait(n),
                None => SpecDispatch::Reject(ApiError::NotFound),
            }
        } else if segs.len() == 2 && segs[0] == re_seg() && segs[1].len() > 0 {
            SpecDispatch::ReplaceEcho(segs[1])
        } else if segs.len() == 3 && segs[0] == api_seg() && segs[1] == gif_seg() && segs[2].len()
            > 0 {
            match q {
                Some(u) => SpecDispatch::Insert { category: segs[2], url: u },
                None => SpecDispatch::Fetch(segs[2]),
            }
        } else {
            SpecDispatch::Reject(ApiError::NotFound)
        }
    }
}

/// The full routing rule: an unmatched path is `NotFound` whatever the
/// method; a matched path under anything but `GET` is `MethodNotAllowed`;
/// a matched path under `GET` runs its handler.
pub open spec fn spec_route(m: Method, path: Seq<u8>, q: Option<Seq<u8>>) -> SpecDispatch {
    let shape = spec_shape(path, q);
    if shape == SpecDispatch::Reject(ApiError::NotFound) {
        shape
    } else if m != Method::Get {
        SpecDispatch::Reject(ApiError::MethodNotAllowed)
    } else {
        shape
    }
}

/// Law: every route is a `GET` route — under any other method no handler
/// ever runs — and the router itself rejects only with `NotFound` or
/// `MethodNotAllowed`; an `Internal` rejection can arise solely from a
/// handler's own failure.
pub proof fn lemma_route_method_discipline(m: Method, path: Seq<u8>, q: Option<Seq<u8>>)
    ensures
        m != Method::Get ==> spec_route(m, path, q) matches SpecDispatch::Reject(_),
        spec_route(m, path, q) matches SpecDispatch::Reject(e) ==> e != ApiError::Internal,
{
}

/// The view of an optional query value.
pub open spec fn view_opt(q: Option<Vec<u8>>) -> Option<Seq<u8>> {
    match q {
        Some(u) => Some(u@),
        None => None,
    }
}

/// Splits `path` after its leading slash into segments.
fn split_slash_exec(path: &Vec<u8>) -> (r: Vec<Vec<u8>>)
    requires
        path@.len() >= 1,
    ensures
        seq_views(r@) == split_slash(path@.skip(1)),
{
    let ghost target = split_slash(path@.skip(1));
    let mut done: Vec<Vec<u8>> = Vec::new();
    let mut cur: Vec<u8> = Vec::new();
    let mut i: usize = 1;
    proof {
        lemma_split_slash_len(path@.skip(1));
        assert(target =~~= seq_views(done@) + seq![cur@ + split_slash(path@.skip(1))[0]]
            + split_slash(path@.skip(1)).skip(1));
    }
    while i < path.len()
        invariant
            1 <= i <= path@.len(),
            target == split_slash(path@.skip(1)),
            split_slash(path@.skip(i as int)).len() >= 1,
            target == seq_views(done@) + seq![cur@ + split_slash(path@.skip(i as int))[0]]
                + split_slash(path@.skip(i as int)).skip(1),
        decreases path@.len() - i,
    {
        let ghost rest = path@.skip(i as int);
        let b = path[i];
        proof {
            assert(rest[0] == path@[i as int]);
            assert(rest.skip(1) =~= path@.skip(i as int + 1));
            lemma_split_slash_len(path@.skip(i as int + 1));
        }
        if b == 47 {
            let ghost old_done = done@;
            let ghost old_cur = cur@;
            done.push(cur);
            cur = Vec::new();
            proof {
                assert(seq_views(done@) =~~= seq_views(old_done).push(old_cur));
                assert(split_slash(rest) =~~= seq![Seq::<u8>::empty()] + split_slash(
                    path@.skip(i as int + 1),
                ));
                assert(target =~~= seq_views(done@) + seq![cur@ + split_slash(
                    path@.skip(i as int + 1),
                )[0]] + split_slash(path@.skip(i as int + 1)).skip(1));
            }
        } else {
            let ghost old_cur = cur@;
            cur.push(b);
            proof {
                assert(split_slash(rest) =~~= seq![seq![path@[i as int]] + split_slash(
                    path@.skip(i as int + 1),
                )[0]] + split_slash(path@.skip(i as int + 1)).skip(1));
                assert(cur@ + split_slash(path@.skip(i as int + 1))[0] =~= old_cur + split_slash(
                    rest,
                )[0]);
                assert(target =~~= seq_views(done@) + seq![cur@ + split_slash(
                    path@.skip(i as int + 1),
                )[0]] + split_slash(path@.skip(i as int + 1)).skip(1));
            }
        }
        i = i + 1;
    }
    proof {
        assert(path@.skip(i as int) =~= Seq::<u8>::empty());
        assert(split_slash(path@.skip(i as int)) =~~= seq![Seq::<u8>::empty()]);
    }
    let ghost old_done = done@;
    let ghost old_cur = cur@;
    done.push(cur);
    proof {
        assert(seq_views(done@) =~~= seq_views(old_done).push(old_cur));
        assert(seq_views(done@) =~~= target);
    }
    done
}

/// True exactly when the segment is the literal `re`.
fn is_re(v: &Vec<u8>) -> (r: bool)
    ensures
        r == (v@ == re_seg()),
{
    let r = v.len() == 2 && v[0] == 114 && v[1] == 101;
    proof {
        if r {
            assert(v@ =~= re_seg());
        }
    }
    r
}

/// True exactly when the segment is the literal `api`.
fn is_api(v: &Vec<u8>) -> (r: bool)
    ensures
        r == (v@ == api_seg()),
{
    let r = v.len() == 3 && v[0] == 97 && v[1] == 112 && v[2] == 105;
    proof {
        if r {
            assert(v@ =~= api_seg());
        }
    }
    r
}

/// True exactly when the segment is the literal `gif`.
fn is_gif(v: &Vec<u8>) -> (r: bool)
    ensures
        r == (v@ == gif_seg()),
{
    let r = v.len() == 3 && v[0] == 103 && v[1] == 105 && v[2] == 102;
    proof {
        if r {
            assert(v@ =~= gif_seg());
        }
    }
    r
}

/// Routes one request. `path` is the raw request path; `url_query` is the
/// value of the `url` query parameter if the request carried one.
pub fn route(method: Method, path: &Vec<u8>, url_query: Option<Vec<u8>>) -> (d: Dispatch)
    ensures
        d@ == spec_route(method, path@, view_opt(url_query)),
{
    if path.len() == 0 || path[0] != 47 {
        return Dispatch::Reject(ApiError::NotFound);
    }
    let mut segs = split_slash_exec(path);
    let ghost sv = seq_views(segs@);
    let shape: Dispatch = if segs.len() == 1 {
        proof {
            assert(sv[0] == segs@[0]@);
        }
        match parse_seconds(&segs[0]) {
            Some(n) => Dispatch::Wait(n),
            None => Dispatch::Reject(ApiError::NotFound),
        }
    } else if segs.len() == 2 {
        proof {
            assert(sv[0] == segs@[0]@);
            assert(sv[1] == segs@[1]@);
        }
        if is_re(&segs[0]) && segs[1].len() > 0 {
            let text = segs.pop().unwrap();
            Dispatch::ReplaceEcho(text)
        } else {
            Dispatch::Reject(ApiError::NotFound)
        }
    } else if segs.len() == 3 {
        proof {
            assert(sv[0] == segs@[0]@);
            assert(sv[1] == segs@[1]@);
            assert(sv[2] == segs@[2]@);
        }
        if is_api(&segs[0]) && is_gif(&segs[1]) && segs[2].len() > 0 {
            let category = segs.pop().unwrap();
            match url_query {
                Some(u) => Dispatch::Insert { category, url: u },
                None => Dispatch::Fetch(category),
            }
        } else {
            Dispatch::Reject(ApiError::NotFound)
        }
    } else {
        Dispatch::Reject(ApiError::NotFound)
    };
    match &shape {
        Dispatch::Reject(_) => shape,
        _ => {
            if method == Method::Get {
                shape
            } else {
                Dispatch::Reject(ApiError::MethodNotAllowed)
            }
        },
    }
}

} // verus!
