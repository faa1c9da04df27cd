//! The text of requests: where the service lives, how a call proves who makes
//! it, and how the pages of a listing are addressed.

use vstd::prelude::*;
use vstd::string::StringExecFns;

verus! {

/// The address under which the service answers.
pub const BASE_URL: &'static str = "https://api.spacetraders.io/v2";

/// The most entries that the service puts on one page.
pub const MAX_PAGE_LIMIT: u32 = 20;

/// The decimal digit for `d`.
pub open spec fn digit(d: nat) -> char
    recommends
        d < 10,
{
    if d == 0 {
        '0'
    } else if d == 1 {
        '1'
    } else if d == 2 {
        '2'
    } else if d == 3 {
        '3'
    } else if d == 4 {
        '4'
    } else if d == 5 {
        '5'
    } else if d == 6 {
        '6'
    } else if d == 7 {
        '7'
    } else if d == 8 {
        '8'
    } else {
        '9'
    }
}

/// `n` written in decimal, without leading zeros.
pub open spec fn decimal(n: nat) -> Seq<char>
    decreases n,
{
    if n < 10 {
        seq![digit(n)]
    } else {
        decimal(n / 10).push(digit(n % 10))
    }
}

/// The lesser of a page size asked for and the most that the service allows.
pub open spec fn page_limit(limit: u32) -> u32 {
    if limit > MAX_PAGE_LIMIT {
        MAX_PAGE_LIMIT
    } else {
        limit
    }
}

/// The path of one page of a listing.
pub open spec fn paginated(path: Seq<char>, page: u32, limit: u32) -> Seq<char> {
    path + "?page="@ + decimal(page as nat) + "&limit="@ + decimal(page_limit(limit) as nat)
}

fn digit_text(d: u32) -> (text: &'static str)
    requires
        d < 10,
    ensures
        text@ == seq![digit(d as nat)],
{
    proof {
        reveal_strlit("0");
        reveal_strlit("1");
        reveal_strlit("2");
        reveal_strlit("3");
        reveal_strlit("4");
        reveal_strlit("5");
        reveal_strlit("6");
        reveal_strlit("7");
        reveal_strlit("8");
        reveal_strlit("9");
    }
    let text: &'static str = if d == 0 {
        "0"
    } else if d == 1 {
        "1"
    } else if d == 2 {
        "2"
    } else if d == 3 {
        "3"
    } else if d == 4 {
        "4"
    } else if d == 5 {
        "5"
    } else if d == 6 {
        "6"
    } else if d == 7 {
        "7"
    } else if d == 8 {
        "8"
    } else {
        "9"
    };
    proof {
        assert(text@ =~= seq![digit(d as nat)]);
    }
    text
}

/// Writes `n` in decimal at the end of `text`.
pub fn push_decimal(text: &mut String, n: u32)
    ensures
        final(text)@ == old(text)@ + decimal(n as nat),
    decreases n,
{
    if n >= 10 {
        push_decimal(text, n / 10);
    }
    text.append(digit_text(n % 10));
    proof {
        let before = old(text)@;
        if n >= 10 {
            assert(before + decimal((n / 10) as nat) + seq![digit((n % 10) as nat)] =~= before
                + decimal((n / 10) as nat).push(digit((n % 10) as nat)));
        }
    }
}

/// The path of page `page` of the listing at `path`, with `limit` entries to a
/// page, or the most that the service allows if `limit` is more.
pub fn paginate_path(path: &str, page: u32, limit: u32) -> (text: String)
    ensures
        text@ == paginated(path@, page, limit),
{
    let limit: u32 = if limit > MAX_PAGE_LIMIT {
        MAX_PAGE_LIMIT
    } else {
        limit
    };
    let mut text: String = path.to_owned();
    text.append("?page=");
    push_decimal(&mut text, page);
    text.append("&limit=");
    push_decimal(&mut text, limit);
    text
}

/// The address of the resource at `path`.
pub fn endpoint(path: &str) -> (url: String)
    ensures
        url@ == BASE_URL@ + "/"@ + path@,
{
    let mut url: String = BASE_URL.to_owned();
    url.append("/");
    url.append(path);
    url
}

/// The value of the header by which a call proves that it acts for the holder of
/// `token`.
pub fn authorization(token: &str) -> (header: String)
    ensures
        header@ == "Bearer "@ + token@,
{
    let mut header: String = "Bearer ".to_owned();
    header.append(token);
    header
}

} // verus!
