//! The claims of an EVE SSO access token, once its signature has been
//! checked: which character it speaks for and which scopes it grants.

use vstd::prelude::*;

use crate::auth::views;
use crate::numeric::parse_i64;
use crate::text::{chars_of, lemma_split_char_nonempty, split_char, split_ranges, string_of_range};

verus! {

/// The `scp` claim: absent, one space-separated string, or an array.
#[derive(Debug, Clone)]
pub enum ScopesField {
    Absent,
    One(String),
    Many(Vec<String>),
}

impl Default for ScopesField {
    fn default() -> (r: Self)
        ensures
            r is Absent,
    {
        ScopesField::Absent
    }
}

#[derive(Debug, Clone)]
pub struct EveClaims {
    /// `CHARACTER:EVE:<id>`: the character id is the part after the last `:`.
    pub sub: String,
    pub name: String,
    /// The owner hash; it changes when the character is transferred.
    pub owner: String,
    pub scp: ScopesField,
}

/// The character id in a `sub` claim, or the error naming the claim.
pub open spec fn character_id_of(sub: Seq<char>) -> Result<i64, Seq<char>> {
    match parse_i64(split_char(sub, ':').last()) {
        Some(n) => Ok(n),
        None => Err("non-numeric character id in sub: "@ + sub),
    }
}

/// The scopes a `scp` claim grants.
pub open spec fn scopes_of(scp: ScopesField) -> Seq<Seq<char>> {
    match scp {
        ScopesField::Absent => Seq::<Seq<char>>::empty(),
        ScopesField::One(s) => split_char(s@, ' '),
        ScopesField::Many(v) => views(v@),
    }
}

impl EveClaims {
    /// The character id: the text after the last `:` of `sub`, read as an
    /// `i64`.
    pub fn character_id(&self) -> (r: Result<i64, String>)
        ensures
            match r {
                Ok(n) => character_id_of(self.sub@) == Ok::<i64, Seq<char>>(n),
                Err(e) => character_id_of(self.sub@) == Err::<i64, Seq<char>>(e@),
            },
    {
        let v = chars_of(self.sub.as_str());
        let n = v.len();
        proof {
            assert(v@.subrange(0, n as int) =~= v@);
            lemma_split_char_nonempty(v@, ':');
        }
        let pieces = split_ranges(&v, 0, n, ':');
        let last = pieces[pieces.len() - 1];
        match crate::numeric::parse_i64_range(&v, last.0, last.1) {
            Some(id) => Ok(id),
            None => {
                let mut m = String::from_str("non-numeric character id in sub: ");
                m.append(self.sub.as_str());
                Err(m)
            },
        }
    }

    /// The granted scopes: none, the pieces of the string between single
    /// spaces, or the array as given.
    pub fn scopes(&self) -> (r: Vec<String>)
        ensures
            views(r@) == scopes_of(self.scp),
    {
        match &self.scp {
            ScopesField::Absent => {
                let r: Vec<String> = Vec::new();
                assert(views(r@) =~= Seq::<Seq<char>>::empty());
                r
            },
            ScopesField::One(s) => {
                let v = chars_of(s.as_str());
                let n = v.len();
                proof {
                    assert(v@.subrange(0, n as int) =~= v@);
                }
                let pieces = split_ranges(&v, 0, n, ' ');
                let mut out: Vec<String> = Vec::new();
                let mut i: usize = 0;
                while i < pieces.len()
                    invariant
                        i <= pieces@.len(),
                        out@.len() == i,
                        v@ == s@,
                        pieces@.len() == split_char(v@, ' ').len(),
                        forall|k: int|
                            0 <= k < pieces@.len() ==> 0 <= (#[trigger] pieces@[k]).0 <= pieces@[k].1
                                <= n && v@.subrange(pieces@[k].0 as int, pieces@[k].1 as int)
                                == split_char(v@, ' ')[k],
                        n == v@.len(),
                        forall|k: int| 0 <= k < i ==> (#[trigger] out@[k])@ == split_char(v@, ' ')[k],
                    decreases pieces@.len() - i,
                {
                    let (a, b) = pieces[i];
                    out.push(string_of_range(&v, a, b));
                    i = i + 1;
                }
                assert(views(out@) =~= split_char(s@, ' '));
                out
            },
            ScopesField::Many(v) => {
                let r = v.clone();
                assert(views(r@) =~= views(v@));
                r
            },
        }
    }
}

/// Where EVE publishes its signing keys.
pub const EVE_JWKS_URL: &'static str = "https://login.eveonline.com/oauth/jwks";

/// The two forms EVE has used in the `iss` claim.
pub const EVE_ISSUER_URL: &'static str = "https://login.eveonline.com";

pub const EVE_ISSUER_HOST: &'static str = "login.eveonline.com";

/// The audience every EVE token carries besides the application's client id.
pub const EVE_AUDIENCE: &'static str = "EVE Online";

/// The key a token names, or why it names none.
pub fn header_kid(kid: Option<String>) -> (r: Result<String, String>)
    ensures
        match kid {
            Some(k) => r matches Ok(s) && s@ == k@,
            None => r matches Err(e) && e@ == "JWT header missing kid"@,
        },
{
    match kid {
        Some(k) => Ok(k),
        None => Err(String::from_str("JWT header missing kid")),
    }
}

/// A key whose id is `kid`; a key without an id never matches.
pub open spec fn kid_is(id: Option<String>, kid: Seq<char>) -> bool {
    match id {
        Some(k) => k@ == kid,
        None => false,
    }
}

/// Looks `kid` up among the ids of a key set.
pub fn find_kid(kids: &Vec<Option<String>>, kid: &str) -> (r: Option<usize>)
    ensures
        match r {
            Some(i) => i < kids@.len() && kid_is(kids@[i as int], kid@) && forall|j: int|
                0 <= j < i ==> !kid_is(#[trigger] kids@[j], kid@),
            None => forall|j: int| 0 <= j < kids@.len() ==> !kid_is(#[trigger] kids@[j], kid@),
        },
{
    let mut i: usize = 0;
    while i < kids.len()
        invariant
            i <= kids@.len(),
            forall|j: int| 0 <= j < i ==> !kid_is(#[trigger] kids@[j], kid@),
        decreases kids@.len() - i,
    {
        match &kids[i] {
            Some(k) => {
                if crate::text::str_eq(k.as_str(), kid) {
                    return Some(i);
                }
            },
            None => {},
        }
        i = i + 1;
    }
    None
}

/// The cached key set answers when it holds the key; otherwise (no set
/// yet, or a rotated key) the set is fetched again.
pub fn cached_key(cached: &Option<Vec<Option<String>>>, kid: &str) -> (r: Option<usize>)
    ensures
        match cached {
            None => r is None,
            Some(kids) => match r {
                Some(i) => i < kids@.len() && kid_is(kids@[i as int], kid@) && forall|j: int|
                    0 <= j < i ==> !kid_is(#[trigger] kids@[j], kid@),
                None => forall|j: int|
                    0 <= j < kids@.len() ==> !kid_is(#[trigger] kids@[j], kid@),
            },
        },
{
    match cached {
        None => None,
        Some(kids) => find_kid(kids, kid),
    }
}

/// The key in a freshly fetched set, or the error naming the missing kid.
pub fn key_in_fetched(kids: &Vec<Option<String>>, kid: &str) -> (r: Result<usize, String>)
    ensures
        match r {
            Ok(i) => i < kids@.len() && kid_is(kids@[i as int], kid@) && forall|j: int|
                0 <= j < i ==> !kid_is(#[trigger] kids@[j], kid@),
            Err(e) => e@ == "EVE JWKS has no key with kid "@ + kid@ && forall|j: int|
                0 <= j < kids@.len() ==> !kid_is(#[trigger] kids@[j], kid@),
        },
{
    match find_kid(kids, kid) {
        Some(i) => Ok(i),
        None => {
            let mut m = String::from_str("EVE JWKS has no key with kid ");
            m.append(kid);
            Err(m)
        },
    }
}

/// The algorithm a key declares, or why it cannot be used.
pub fn jwk_alg(alg: Option<String>) -> (r: Result<String, String>)
    ensures
        match alg {
            Some(a) => r matches Ok(s) && s@ == a@,
            None => r matches Err(e) && e@ == "JWK missing alg"@,
        },
{
    match alg {
        Some(a) => Ok(a),
        None => Err(String::from_str("JWK missing alg")),
    }
}

} // verus!
