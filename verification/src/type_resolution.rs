//! Item names to ESI type ids, with a cache: which names to look up,
//! which to ask ESI for, and how the answers are merged.
//!
//! Names are compared by their aggregation key (see
//! [`crate::multibuy::name_key`]); the first spelling of a key is the one
//! shown and sent to ESI, so ESI can echo it back.

use vstd::prelude::*;

use crate::domain::ResolvedType;
use crate::multibuy::{name_key, name_key_of};
use crate::text::{
    chars_of, replace_nbsp, replace_nbsp_range, str_eq, string_of_range, trim, trim_range,
};

verus! {

pub open spec fn keys_of(req: Seq<(Seq<char>, Seq<char>)>) -> Seq<Seq<char>> {
    req.map_values(|e: (Seq<char>, Seq<char>)| e.0)
}

/// The names to resolve: one `(key, display name)` per distinct non-empty
/// key, in order of first appearance; the display name is the first
/// spelling, trimmed, with no-break spaces made plain.
pub open spec fn requested_spec(names: Seq<Seq<char>>) -> Seq<(Seq<char>, Seq<char>)>
    decreases names.len(),
{
    if names.len() == 0 {
        Seq::<(Seq<char>, Seq<char>)>::empty()
    } else {
        let prev = requested_spec(names.drop_last());
        let k = name_key_of(names.last());
        if k.len() == 0 || keys_of(prev).contains(k) {
            prev
        } else {
            prev.push((k, replace_nbsp(trim(names.last()))))
        }
    }
}

pub open spec fn pair_views(v: Seq<(String, String)>) -> Seq<(Seq<char>, Seq<char>)> {
    v.map_values(|e: (String, String)| (e.0@, e.1@))
}

fn display_name(n: &str) -> (r: String)
    ensures
        r@ == replace_nbsp(trim(n@)),
{
    let v = chars_of(n);
    let len = v.len();
    proof {
        assert(v@.subrange(0, len as int) =~= v@);
    }
    let (a, b) = trim_range(&v, 0, len);
    let w = replace_nbsp_range(&v, a, b);
    let m = w.len();
    proof {
        assert(w@.subrange(0, m as int) =~= w@);
    }
    string_of_range(&w, 0, m)
}

fn has_key(req: &Vec<(String, String)>, k: &str) -> (r: bool)
    ensures
        r == keys_of(pair_views(req@)).contains(k@),
{
    let ghost ks = keys_of(pair_views(req@));
    let mut i: usize = 0;
    while i < req.len()
        invariant
            i <= req@.len(),
            ks == keys_of(pair_views(req@)),
            forall|j: int| 0 <= j < i ==> ks[j] != k@,
        decreases req@.len() - i,
    {
        if str_eq(req[i].0.as_str(), k) {
            assert(ks[i as int] == k@);
            return true;
        }
        i = i + 1;
    }
    false
}

/// The distinct names to resolve, keyed.
pub fn requested_names(names: &Vec<String>) -> (r: Vec<(String, String)>)
    ensures
        pair_views(r@) == requested_spec(crate::auth::views(names@)),
{
    let ghost ns = crate::auth::views(names@);
    let mut out: Vec<(String, String)> = Vec::new();
    let mut i: usize = 0;
    while i < names.len()
        invariant
            i <= names@.len(),
            ns == crate::auth::views(names@),
            pair_views(out@) == requested_spec(ns.take(i as int)),
        decreases names@.len() - i,
    {
        assert(ns.take(i + 1).drop_last() =~= ns.take(i as int));
        let n = names[i].as_str();
        let k = name_key(n);
        if !k.as_str().is_empty() && !has_key(&out, k.as_str()) {
            let d = display_name(n);
            let ghost before = pair_views(out@);
            out.push((k, d));
            assert(pair_views(out@) =~= before.push((name_key_of(ns[i as int]), replace_nbsp(trim(ns[i as int])))));
        }
        i = i + 1;
    }
    assert(ns.take(ns.len() as int) =~= ns);
    out
}

/// The display names whose keys the cache does not hold: what ESI is
/// asked to resolve.
pub open spec fn to_fetch_spec(req: Seq<(Seq<char>, Seq<char>)>, cached: Seq<Seq<char>>) -> Seq<Seq<char>>
    decreases req.len(),
{
    if req.len() == 0 {
        Seq::<Seq<char>>::empty()
    } else if cached.contains(req.last().0) {
        to_fetch_spec(req.drop_last(), cached)
    } else {
        to_fetch_spec(req.drop_last(), cached).push(req.last().1)
    }
}

fn contains_str(v: &Vec<String>, s: &str) -> (r: bool)
    ensures
        r == crate::auth::views(v@).contains(s@),
{
    let ghost vs = crate::auth::views(v@);
    let mut i: usize = 0;
    while i < v.len()
        invariant
            i <= v@.len(),
            vs == crate::auth::views(v@),
            forall|j: int| 0 <= j < i ==> vs[j] != s@,
        decreases v@.len() - i,
    {
        if str_eq(v[i].as_str(), s) {
            assert(vs[i as int] == s@);
            return true;
        }
        i = i + 1;
    }
    false
}

/// The names to send to ESI.
pub fn names_to_fetch(req: &Vec<(String, String)>, cached_keys: &Vec<String>) -> (r: Vec<String>)
    ensures
        crate::auth::views(r@) == to_fetch_spec(pair_views(req@), crate::auth::views(cached_keys@)),
{
    let ghost rs = pair_views(req@);
    let ghost cs = crate::auth::views(cached_keys@);
    let mut out: Vec<String> = Vec::new();
    let mut i: usize = 0;
    while i < req.len()
        invariant
            i <= req@.len(),
            rs == pair_views(req@),
            cs == crate::auth::views(cached_keys@),
            crate::auth::views(out@) == to_fetch_spec(rs.take(i as int), cs),
        decreases req@.len() - i,
    {
        assert(rs.take(i + 1).drop_last() =~= rs.take(i as int));
        if !contains_str(cached_keys, req[i].0.as_str()) {
            let ghost before = crate::auth::views(out@);
            out.push(req[i].1.clone());
            assert(crate::auth::views(out@) =~= before.push(rs[i as int].1));
        }
        i = i + 1;
    }
    assert(rs.take(rs.len() as int) =~= rs);
    out
}

/// What ESI echoed for a key: the last echoed entry whose name has that key.
pub open spec fn echo_for(echoed_keys: Seq<Seq<char>>, echoed: Seq<(i64, Seq<char>)>, k: Seq<char>) -> Option<
    (i64, Seq<char>),
>
    decreases echoed.len(),
{
    if echoed.len() == 0 || echoed_keys.len() != echoed.len() {
        None
    } else if echoed_keys.last() == k {
        Some(echoed.last())
    } else {
        echo_for(echoed_keys.drop_last(), echoed.drop_last(), k)
    }
}

/// The outcome of a resolution: types by key, names ESI did not know, and
/// the cache rows to write `(key, name, type id, type name)`.
#[derive(Debug, Clone)]
pub struct Resolution {
    pub resolved: Vec<(String, ResolvedType)>,
    pub unresolved: Vec<String>,
    pub to_upsert: Vec<(String, String, i64, String)>,
}

/// The entries ESI resolved, in request order, for the uncached names.
pub open spec fn fresh_spec(
    req: Seq<(Seq<char>, Seq<char>)>,
    cached: Seq<Seq<char>>,
    echoed_keys: Seq<Seq<char>>,
    echoed: Seq<(i64, Seq<char>)>,
) -> Seq<(Seq<char>, i64, Seq<char>)>
    decreases req.len(),
{
    if req.len() == 0 {
        Seq::<(Seq<char>, i64, Seq<char>)>::empty()
    } else {
        let prev = fresh_spec(req.drop_last(), cached, echoed_keys, echoed);
        let (k, _) = req.last();
        if cached.contains(k) {
            prev
        } else {
            match echo_for(echoed_keys, echoed, k) {
                Some((id, name)) => prev.push((k, id, name)),
                None => prev,
            }
        }
    }
}

/// The display names of the uncached names ESI did not resolve, in order.
pub open spec fn unresolved_spec(
    req: Seq<(Seq<char>, Seq<char>)>,
    cached: Seq<Seq<char>>,
    echoed_keys: Seq<Seq<char>>,
    echoed: Seq<(i64, Seq<char>)>,
) -> Seq<Seq<char>>
    decreases req.len(),
{
    if req.len() == 0 {
        Seq::<Seq<char>>::empty()
    } else {
        let prev = unresolved_spec(req.drop_last(), cached, echoed_keys, echoed);
        let (k, display) = req.last();
        if !cached.contains(k) && echo_for(echoed_keys, echoed, k) is None {
            prev.push(display)
        } else {
            prev
        }
    }
}

pub open spec fn resolved_views(v: Seq<(String, ResolvedType)>) -> Seq<(Seq<char>, i64, Seq<char>)> {
    v.map_values(|e: (String, ResolvedType)| (e.0@, e.1.type_id, e.1.name@))
}

pub open spec fn cached_views(v: Seq<(String, i64, String)>) -> Seq<(Seq<char>, i64, Seq<char>)> {
    v.map_values(|e: (String, i64, String)| (e.0@, e.1, e.2@))
}

pub open spec fn echoed_views(v: Seq<(i64, String)>) -> Seq<(i64, Seq<char>)> {
    v.map_values(|e: (i64, String)| (e.0, e.1@))
}

pub open spec fn upsert_views(v: Seq<(String, String, i64, String)>) -> Seq<(Seq<char>, i64, Seq<char>)> {
    v.map_values(|e: (String, String, i64, String)| (e.0@, e.2, e.3@))
}

fn echo_lookup(echoed_keys: &Vec<String>, echoed: &Vec<(i64, String)>, k: &str) -> (r: Option<(i64, String)>)
    requires
        echoed_keys@.len() == echoed@.len(),
    ensures
        match r {
            Some((id, name)) => echo_for(crate::auth::views(echoed_keys@), echoed_views(echoed@), k@)
                == Some((id, name@)),
            None => echo_for(crate::auth::views(echoed_keys@), echoed_views(echoed@), k@) is None,
        },
{
    let ghost ks = crate::auth::views(echoed_keys@);
    let ghost es = echoed_views(echoed@);
    let mut i: usize = echoed.len();
    assert(ks.take(i as int) =~= ks);
    assert(es.take(i as int) =~= es);
    while i > 0
        invariant
            i <= echoed@.len(),
            echoed_keys@.len() == echoed@.len(),
            ks == crate::auth::views(echoed_keys@),
            es == echoed_views(echoed@),
            echo_for(ks, es, k@) == echo_for(ks.take(i as int), es.take(i as int), k@),
        decreases i,
    {
        assert(ks.take(i as int).drop_last() =~= ks.take(i - 1));
        assert(es.take(i as int).drop_last() =~= es.take(i - 1));
        if str_eq(echoed_keys[i - 1].as_str(), k) {
            return Some((echoed[i - 1].0, echoed[i - 1].1.clone()));
        }
        i = i - 1;
    }
    None
}

/// The keys of the names ESI echoed.
pub open spec fn echoed_keys_of(echoed: Seq<(i64, Seq<char>)>) -> Seq<Seq<char>> {
    echoed.map_values(|e: (i64, Seq<char>)| name_key_of(e.1))
}

fn keys_of_echoed(echoed: &Vec<(i64, String)>) -> (r: Vec<String>)
    ensures
        crate::auth::views(r@) == echoed_keys_of(echoed_views(echoed@)),
        r@.len() == echoed@.len(),
{
    let ghost es = echoed_views(echoed@);
    let mut out: Vec<String> = Vec::new();
    let mut i: usize = 0;
    while i < echoed.len()
        invariant
            i <= echoed@.len(),
            es == echoed_views(echoed@),
            out@.len() == i,
            crate::auth::views(out@) == echoed_keys_of(es).take(i as int),
        decreases echoed@.len() - i,
    {
        let ghost before = crate::auth::views(out@);
        let k = name_key(echoed[i].1.as_str());
        out.push(k);
        assert(crate::auth::views(out@) =~= echoed_keys_of(es).take(i + 1));
        i = i + 1;
    }
    assert(echoed_keys_of(es).take(es.len() as int) =~= echoed_keys_of(es));
    out
}

/// Merges the cached rows and ESI's answer (`echoed`, matched to the
/// requested names by key) over the requested names: cached types first,
/// then the newly resolved ones in request order, which are also the rows
/// to cache; the rest is unresolved.
pub fn merge_resolution(
    req: &Vec<(String, String)>,
    cached: &Vec<(String, i64, String)>,
    echoed: &Vec<(i64, String)>,
) -> (r: Resolution)
    ensures
        ({
            let cached_keys = cached_views(cached@).map_values(|e: (Seq<char>, i64, Seq<char>)| e.0);
            let ek = echoed_keys_of(echoed_views(echoed@));
            let fresh = fresh_spec(pair_views(req@), cached_keys, ek, echoed_views(echoed@));
            &&& resolved_views(r.resolved@) == cached_views(cached@) + fresh
            &&& upsert_views(r.to_upsert@) == fresh
            &&& crate::auth::views(r.unresolved@) == unresolved_spec(
                pair_views(req@),
                cached_keys,
                ek,
                echoed_views(echoed@),
            )
        }),
{
    let echoed_keys = keys_of_echoed(echoed);
    let echoed_keys = &echoed_keys;
    let ghost cv = cached_views(cached@);
    let ghost ck = cv.map_values(|e: (Seq<char>, i64, Seq<char>)| e.0);
    let ghost rs = pair_views(req@);
    let ghost ks = crate::auth::views(echoed_keys@);
    let ghost es = echoed_views(echoed@);
    let mut resolved: Vec<(String, ResolvedType)> = Vec::new();
    let mut cached_keys: Vec<String> = Vec::new();
    let mut c: usize = 0;
    while c < cached.len()
        invariant
            c <= cached@.len(),
            cv == cached_views(cached@),
            ck == cv.map_values(|e: (Seq<char>, i64, Seq<char>)| e.0),
            resolved_views(resolved@) == cv.take(c as int),
            crate::auth::views(cached_keys@) == ck.take(c as int),
        decreases cached@.len() - c,
    {
        let ghost r0 = resolved_views(resolved@);
        let ghost k0 = crate::auth::views(cached_keys@);
        let k = cached[c].0.clone();
        let id = cached[c].1;
        let name = cached[c].2.clone();
        assert(cv[c as int] == (k@, id, name@));
        assert(cv.take(c + 1) =~= cv.take(c as int).push(cv[c as int]));
        assert(ck.take(c + 1) =~= ck.take(c as int).push(k@));
        resolved.push((k.clone(), ResolvedType { type_id: id, name }));
        assert(resolved_views(resolved@) =~= r0.push(cv[c as int]));
        cached_keys.push(k);
        assert(resolved_views(resolved@) =~= cv.take(c + 1));
        assert(crate::auth::views(cached_keys@) =~= ck.take(c + 1));
        c = c + 1;
    }
    assert(cv.take(cv.len() as int) =~= cv);
    assert(ck.take(ck.len() as int) =~= ck);
    let mut unresolved: Vec<String> = Vec::new();
    let mut to_upsert: Vec<(String, String, i64, String)> = Vec::new();
    let mut i: usize = 0;
    while i < req.len()
        invariant
            i <= req@.len(),
            echoed_keys@.len() == echoed@.len(),
            rs == pair_views(req@),
            ks == crate::auth::views(echoed_keys@),
            es == echoed_views(echoed@),
            cv == cached_views(cached@),
            crate::auth::views(cached_keys@) == ck,
            resolved_views(resolved@) == cv + fresh_spec(rs.take(i as int), ck, ks, es),
            upsert_views(to_upsert@) == fresh_spec(rs.take(i as int), ck, ks, es),
            crate::auth::views(unresolved@) == unresolved_spec(rs.take(i as int), ck, ks, es),
        decreases req@.len() - i,
    {
        assert(rs.take(i + 1).drop_last() =~= rs.take(i as int));
        let k = req[i].0.as_str();
        if !contains_str(&cached_keys, k) {
            match echo_lookup(echoed_keys, echoed, k) {
                Some((id, name)) => {
                    let ghost r0 = resolved_views(resolved@);
                    let ghost u0 = upsert_views(to_upsert@);
                    let ghost nv = name@;
                    to_upsert.push((req[i].0.clone(), name.clone(), id, name.clone()));
                    resolved.push((req[i].0.clone(), ResolvedType { type_id: id, name }));
                    assert(resolved_views(resolved@) =~= r0.push((rs[i as int].0, id, nv)));
                    assert(upsert_views(to_upsert@) =~= u0.push((rs[i as int].0, id, nv)));
                },
                None => {
                    let ghost n0 = crate::auth::views(unresolved@);
                    unresolved.push(req[i].1.clone());
                    assert(crate::auth::views(unresolved@) =~= n0.push(rs[i as int].1));
                },
            }
        }
        i = i + 1;
    }
    assert(rs.take(rs.len() as int) =~= rs);
    Resolution { resolved, unresolved, to_upsert }
}

/// The type resolved for key `k`: the last entry with that key, as a map
/// built by inserting the entries in order holds it.
pub open spec fn resolved_for(entries: Seq<(Seq<char>, i64, Seq<char>)>, k: Seq<char>) -> Option<(i64, Seq<char>)>
    decreases entries.len(),
{
    if entries.len() == 0 {
        None
    } else if entries.last().0 == k {
        Some((entries.last().1, entries.last().2))
    } else {
        resolved_for(entries.drop_last(), k)
    }
}

/// The resolved type of an item name, found by its key; a name the
/// resolution does not cover is an internal error.
pub fn lookup_resolved(resolved: &Vec<(String, ResolvedType)>, name: &str) -> (r: Result<ResolvedType, crate::errors::ApiError>)
    ensures
        match resolved_for(resolved_views(resolved@), name_key_of(name@)) {
            Some((id, tn)) => r matches Ok(t) && t.type_id == id && t.name@ == tn,
            None => r matches Err(e) && e@ == crate::errors::ApiErrorView::Internal(
                "resolved missing for "@ + name@,
            ),
        },
{
    let k = name_key(name);
    let ghost rv = resolved_views(resolved@);
    let mut i: usize = resolved.len();
    assert(rv.take(i as int) =~= rv);
    while i > 0
        invariant
            i <= resolved@.len(),
            rv == resolved_views(resolved@),
            k@ == name_key_of(name@),
            resolved_for(rv, k@) == resolved_for(rv.take(i as int), k@),
        decreases i,
    {
        assert(rv.take(i as int).drop_last() =~= rv.take(i - 1));
        if str_eq(resolved[i - 1].0.as_str(), k.as_str()) {
            let t = &resolved[i - 1].1;
            return Ok(ResolvedType { type_id: t.type_id, name: t.name.clone() });
        }
        i = i - 1;
    }
    let mut m = String::from_str("resolved missing for ");
    m.append(name);
    Err(crate::errors::ApiError::Internal(m))
}

/// Every requested name the cache does not hold gets an answer: the type
/// ESI echoed for its key is among the fresh entries (and so among the
/// resolved ones and the rows to cache), or, when ESI echoed nothing for
/// it, its display name is among the unresolved names.
pub proof fn lemma_every_request_answered(
    req: Seq<(Seq<char>, Seq<char>)>,
    cached: Seq<Seq<char>>,
    echoed_keys: Seq<Seq<char>>,
    echoed: Seq<(i64, Seq<char>)>,
    i: int,
)
    requires
        0 <= i < req.len(),
        !cached.contains(req[i].0),
    ensures
        match echo_for(echoed_keys, echoed, req[i].0) {
            Some((id, name)) => fresh_spec(req, cached, echoed_keys, echoed).contains((req[i].0, id, name)),
            None => unresolved_spec(req, cached, echoed_keys, echoed).contains(req[i].1),
        },
    decreases req.len(),
{
    let d = req.drop_last();
    let f = fresh_spec(req, cached, echoed_keys, echoed);
    let fd = fresh_spec(d, cached, echoed_keys, echoed);
    let u = unresolved_spec(req, cached, echoed_keys, echoed);
    let ud = unresolved_spec(d, cached, echoed_keys, echoed);
    if i < req.len() - 1 {
        assert(d[i] == req[i]);
        lemma_every_request_answered(d, cached, echoed_keys, echoed, i);
        match echo_for(echoed_keys, echoed, req[i].0) {
            Some((id, name)) => {
                let w = choose|w: int| 0 <= w < fd.len() && fd[w] == (req[i].0, id, name);
                if f != fd {
                    assert(f[w] == fd[w]);
                }
                assert(f[w] == (req[i].0, id, name));
            },
            None => {
                let w = choose|w: int| 0 <= w < ud.len() && ud[w] == req[i].1;
                if u != ud {
                    assert(u[w] == ud[w]);
                }
                assert(u[w] == req[i].1);
            },
        }
    } else {
        match echo_for(echoed_keys, echoed, req[i].0) {
            Some((id, name)) => {
                assert(f == fd.push((req[i].0, id, name)));
                assert(f[fd.len() as int] == (req[i].0, id, name));
            },
            None => {
                assert(u == ud.push(req[i].1));
                assert(u[ud.len() as int] == req[i].1);
            },
        }
    }
}

} // verus!
