//! Reading one cookie out of the `cookie` header of a request.

use vstd::prelude::*;
use vstd::string::*;
use crate::text::names_of;

verus! {

/// Why no cookie was read.
#[derive(Debug, Clone, Copy, PartialEq, Eq, Structural)]
pub enum CookieError {
    /// The header holds no cookie of that name.
    NotFound,
    /// The request has no `cookie` header.
    NoCookies,
    /// The header is no text.
    Stringify,
}

/// What a request holds under `cookie`.
#[derive(Debug, Clone)]
pub enum CookieHeader {
    Missing,
    Unreadable,
    Text(String),
}

/// The pieces of `s` from position `i` on, given the piece `cur` that is
/// open at `i` and the pieces `acc` that were closed before it.
pub open spec fn pieces_from(s: Seq<char>, i: int, cur: Seq<char>, acc: Seq<Seq<char>>) -> Seq<
    Seq<char>,
>
    decreases s.len() - i,
{
    if i < 0 || i >= s.len() {
        acc.push(cur)
    } else if s[i] == ';' {
        pieces_from(s, i + 1, Seq::empty(), acc.push(cur))
    } else {
        pieces_from(s, i + 1, cur.push(s[i]), acc)
    }
}

/// The pieces that the `;` of a header cut it into, empty ones included:
/// one more piece than there are `;`.
pub open spec fn header_pieces(s: Seq<char>) -> Seq<Seq<char>> {
    pieces_from(s, 0, Seq::empty(), Seq::empty())
}

/// Cuts a header at each `;`.
pub fn split_header(header: &str) -> (out: Vec<String>)
    ensures
        names_of(out@) == header_pieces(header@),
{
    let n = header.unicode_len();
    let mut out: Vec<String> = Vec::new();
    let mut start: usize = 0;
    let mut i: usize = 0;
    assert(names_of(out@) =~= Seq::empty());
    assert(header@.subrange(0, 0) =~= Seq::empty());
    while i < n
        invariant
            n == header@.len(),
            start <= i <= n,
            header_pieces(header@) == pieces_from(
                header@,
                i as int,
                header@.subrange(start as int, i as int),
                names_of(out@),
            ),
        decreases n - i,
    {
        let c = header.get_char(i);
        let ghost cur = header@.subrange(start as int, i as int);
        let ghost before = names_of(out@);
        if c == ';' {
            out.push(String::from_str(header.substring_char(start, i)));
            assert(names_of(out@) =~= before.push(cur));
            start = i + 1;
            assert(header@.subrange(start as int, start as int) =~= Seq::empty());
        } else {
            assert(header@.subrange(start as int, i + 1) =~= cur.push(header@[i as int]));
        }
        i += 1;
    }
    let ghost before = names_of(out@);
    out.push(String::from_str(header.substring_char(start, n)));
    assert(names_of(out@) =~= before.push(header@.subrange(start as int, n as int)));
    out
}

/// A cookie: its name and its value.
#[derive(Debug, Clone, PartialEq, Eq)]
pub struct CookiePair {
    pub name: String,
    pub value: String,
}

/// What a cookie is, as contracts see it.
pub struct CookiePairView {
    pub name: Seq<char>,
    pub value: Seq<char>,
}

impl View for CookiePair {
    type V = CookiePairView;

    open spec fn view(&self) -> CookiePairView {
        CookiePairView { name: self.name@, value: self.value@ }
    }
}

/// The view of a cookie that may be there.
pub open spec fn pair_view(pair: Option<CookiePair>) -> Option<CookiePairView> {
    match pair {
        Some(p) => Some(p@),
        None => None,
    }
}

/// The cookie that a piece of a header parses as, if it parses.
pub uninterp spec fn parsed_cookie(piece: Seq<char>) -> Option<CookiePairView>;

/// Parses one piece of a header: `cookie::Cookie::parse`, with the `name`
/// and the `value` of the cookie that it gives, and nothing where it
/// refuses the piece. The answer depends on the piece alone.
#[verifier::external_body]
fn parse_cookie(piece: &str) -> (pair: Option<CookiePair>)
    ensures
        pair_view(pair) == parsed_cookie(piece@),
{
    match cookie::Cookie::parse(piece) {
        Ok(found) => Some(
            CookiePair { name: found.name().to_string(), value: found.value().to_string() },
        ),
        Err(_) => None,
    }
}

/// The value of the first of the first `n` cookies that has the name
/// `key`.
pub open spec fn value_among(pairs: Seq<Option<CookiePairView>>, key: Seq<char>, n: nat) -> Option<
    Seq<char>,
>
    decreases n,
{
    if n == 0 {
        None
    } else {
        match value_among(pairs, key, (n - 1) as nat) {
            Some(v) => Some(v),
            None => match pairs[n - 1] {
                Some(p) => if p.name == key {
                    Some(p.value)
                } else {
                    None
                },
                None => None,
            },
        }
    }
}

/// Once a value was found among the first `n` cookies, looking further
/// finds the same one.
pub proof fn lemma_value_among_stable(
    pairs: Seq<Option<CookiePairView>>,
    key: Seq<char>,
    n: nat,
    m: nat,
)
    requires
        n <= m,
        value_among(pairs, key, n) is Some,
    ensures
        value_among(pairs, key, m) == value_among(pairs, key, n),
    decreases m,
{
    if n < m {
        lemma_value_among_stable(pairs, key, n, (m - 1) as nat);
    }
}

/// The views of a list of cookies that may be there.
pub open spec fn pair_views(pairs: Seq<Option<CookiePair>>) -> Seq<Option<CookiePairView>> {
    pairs.map_values(|p: Option<CookiePair>| pair_view(p))
}

/// Picks the value of the cookie called `key` out of the parsed pieces of
/// a header: that of the first piece that parsed as a cookie of this name,
/// and `NotFound` if there is none.
pub fn pick_cookie(pairs: &Vec<Option<CookiePair>>, key: &str) -> (r: Result<String, CookieError>)
    ensures
        match value_among(pair_views(pairs@), key@, pairs@.len()) {
            Some(v) => r is Ok && r->Ok_0@ == v,
            None => r == Err::<String, CookieError>(CookieError::NotFound),
        },
{
    let wanted = String::from_str(key);
    let mut i: usize = 0;
    while i < pairs.len()
        invariant
            i <= pairs.len(),
            wanted@ == key@,
            value_among(pair_views(pairs@), key@, i as nat) is None,
        decreases pairs.len() - i,
    {
        assert(pair_views(pairs@)[i as int] == pair_view(pairs@[i as int]));
        match &pairs[i] {
            Some(pair) => {
                if pair.name == wanted {
                    proof {
                        lemma_value_among_stable(
                            pair_views(pairs@),
                            key@,
                            (i + 1) as nat,
                            pairs@.len(),
                        );
                    }
                    return Ok(pair.value.clone());
                }
            },
            None => {},
        }
        i += 1;
    }
    Err(CookieError::NotFound)
}

/// What each piece of a header parses as.
pub open spec fn parsed_pieces(header: Seq<char>) -> Seq<Option<CookiePairView>> {
    header_pieces(header).map_values(|piece: Seq<char>| parsed_cookie(piece))
}

/// What reading the cookie `key` out of a request answers: `NoCookies`
/// without the header, `Stringify` if the header is no text, else the
/// value of the first piece between the `;` of the header that parses as a
/// cookie called `key`, and `NotFound` if there is none.
pub open spec fn cookie_outcome(header: CookieHeader, key: Seq<char>) -> Result<
    Seq<char>,
    CookieError,
> {
    match header {
        CookieHeader::Missing => Err(CookieError::NoCookies),
        CookieHeader::Unreadable => Err(CookieError::Stringify),
        CookieHeader::Text(text) => match value_among(
            parsed_pieces(text@),
            key,
            parsed_pieces(text@).len(),
        ) {
            Some(v) => Ok(v),
            None => Err(CookieError::NotFound),
        },
    }
}

/// Reads the cookie called `key` out of the `cookie` header of a request.
/// See `cookie_outcome`.
pub fn try_extract_cookie(header: &CookieHeader, key: &str) -> (r: Result<String, CookieError>)
    ensures
        match cookie_outcome(*header, key@) {
            Ok(v) => r is Ok && r->Ok_0@ == v,
            Err(e) => r == Err::<String, CookieError>(e),
        },
{
    let text = match header {
        CookieHeader::Missing => {
            return Err(CookieError::NoCookies);
        },
        CookieHeader::Unreadable => {
            return Err(CookieError::Stringify);
        },
        CookieHeader::Text(text) => text,
    };
    let pieces = split_header(text.as_str());
    let mut pairs: Vec<Option<CookiePair>> = Vec::new();
    let mut i: usize = 0;
    while i < pieces.len()
        invariant
            i <= pieces.len(),
            names_of(pieces@) == header_pieces(text@),
            pairs@.len() == i,
            forall|j: int|
                0 <= j < i ==> pair_view(#[trigger] pairs@[j]) == parsed_cookie(
                    header_pieces(text@)[j],
                ),
        decreases pieces.len() - i,
    {
        assert(names_of(pieces@)[i as int] == pieces@[i as int]@);
        pairs.push(parse_cookie(pieces[i].as_str()));
        i += 1;
    }
    assert(pair_views(pairs@) =~= parsed_pieces(text@));
    pick_cookie(&pairs, key)
}

} // verus!
