use thrw::cookie::{
    pick_cookie, split_header, try_extract_cookie, CookieError, CookieHeader, CookiePair,
};

fn text(s: &str) -> CookieHeader {
    CookieHeader::Text(s.to_string())
}

#[test]
fn cookies_are_found_by_name() {
    let header = text("theme=dark; session_token=abc-123 ;other=1");
    assert_eq!(try_extract_cookie(&header, "session_token"), Ok("abc-123".to_string()));
    assert_eq!(try_extract_cookie(&header, "theme"), Ok("dark".to_string()));
    assert_eq!(try_extract_cookie(&header, "other"), Ok("1".to_string()));
    assert_eq!(try_extract_cookie(&header, "missing"), Err(CookieError::NotFound));
    assert_eq!(try_extract_cookie(&header, "session"), Err(CookieError::NotFound));
}

#[test]
fn the_first_cookie_of_a_name_wins_and_broken_pieces_are_skipped() {
    let header = text("a=1;;no-equals-sign; =nameless; a=2; b=");
    assert_eq!(try_extract_cookie(&header, "a"), Ok("1".to_string()));
    assert_eq!(try_extract_cookie(&header, "b"), Ok(String::new()));
    assert_eq!(try_extract_cookie(&header, "no-equals-sign"), Err(CookieError::NotFound));
    assert_eq!(try_extract_cookie(&text(""), "a"), Err(CookieError::NotFound));
}

#[test]
fn requests_without_a_readable_header() {
    assert_eq!(try_extract_cookie(&CookieHeader::Missing, "a"), Err(CookieError::NoCookies));
    assert_eq!(try_extract_cookie(&CookieHeader::Unreadable, "a"), Err(CookieError::Stringify));
}

#[test]
fn headers_are_cut_at_every_semicolon() {
    assert_eq!(split_header("a=1; b=2"), vec!["a=1", " b=2"]);
    assert_eq!(split_header(""), vec![""]);
    assert_eq!(split_header(";"), vec!["", ""]);
    assert_eq!(split_header("x;;y;"), vec!["x", "", "y", ""]);
    assert_eq!(split_header("a;b"), "a;b".split(";").collect::<Vec<_>>());
}

#[test]
fn picking_among_parsed_pieces() {
    let pair = |n: &str, v: &str| Some(CookiePair { name: n.to_string(), value: v.to_string() });
    let pairs = vec![None, pair("a", "1"), pair("b", "2"), None, pair("a", "3")];
    assert_eq!(pick_cookie(&pairs, "a"), Ok("1".to_string()));
    assert_eq!(pick_cookie(&pairs, "b"), Ok("2".to_string()));
    assert_eq!(pick_cookie(&pairs, "c"), Err(CookieError::NotFound));
    assert_eq!(pick_cookie(&vec![], "a"), Err(CookieError::NotFound));
}
