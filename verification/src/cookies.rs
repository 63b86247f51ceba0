//! Cookies: reading the `Cookie` header, writing `Set-Cookie` values, and
//! expiry dates.

use crate::clock::{
    earlier, format_instant, formatted_instant, parse_rfc2822, rfc2822_instant, text_of, utc_now,
    Timestamp,
};
use crate::text::{chars_of, find_char, index_of, lemma_scan_bounds, trim, trimmed};
use crate::text_map::TextMap;
use vstd::prelude::*;
use vstd::string::*;

verus! {

/// The name and the value of one piece of a `Cookie` header: what stands
/// before and after its first equals sign, both trimmed; `None` where the
/// piece has no equals sign.
pub open spec fn cookie_pair(piece: Seq<char>) -> Option<(Seq<char>, Seq<char>)> {
    let at = find_char(piece, '=', 0);
    if at < piece.len() {
        Some(
            (
                trimmed(piece.subrange(0, at)),
                trimmed(piece.subrange(at + 1, piece.len() as int)),
            ),
        )
    } else {
        None
    }
}

/// The cookies of the pieces of `text` from `from` on, added to `held`. The
/// pieces are parted by semicolons; a later cookie replaces an earlier one
/// of the same name.
pub open spec fn cookies_from(text: Seq<char>, from: int, held: Map<Seq<char>, Seq<char>>) -> Map<
    Seq<char>,
    Seq<char>,
>
    decreases text.len() - from,
    when 0 <= from <= text.len()
    via cookies_from_decreases
{
    let end = find_char(text, ';', from);
    let next = match cookie_pair(text.subrange(from, end)) {
        Some(pair) => held.insert(pair.0, pair.1),
        None => held,
    };
    if end < text.len() {
        cookies_from(text, end + 1, next)
    } else {
        next
    }
}

#[via_fn]
proof fn cookies_from_decreases(text: Seq<char>, from: int, held: Map<Seq<char>, Seq<char>>) {
    lemma_scan_bounds(text, ';', from);
}

/// The cookies that the headers of a request carry.
pub open spec fn cookies_of(headers: Map<Seq<char>, Seq<char>>) -> Map<Seq<char>, Seq<char>> {
    if headers.contains_key("Cookie"@) {
        cookies_from(headers["Cookie"@], 0, Map::empty())
    } else {
        Map::empty()
    }
}

/// The characters of a text slice that may be absent.
pub open spec fn slice_text_of(text: Option<&str>) -> Option<Seq<char>> {
    match text {
        Some(t) => Some(t@),
        None => None,
    }
}

/// The value of a `Set-Cookie` header for a cookie.
pub open spec fn cookie_line(name: Seq<char>, value: Seq<char>, expires: Option<Seq<char>>) -> Seq<
    char,
> {
    let plain = name + "="@ + value + "; Path=/; HttpOnly"@;
    match expires {
        Some(date) => plain + "; Expires="@ + date,
        None => plain,
    }
}

/// Whether a cookie that expires at `expiration` has expired at `now`. One
/// without a date never expires.
pub open spec fn expired(expiration: Option<(i64, u32)>, now: Timestamp) -> bool {
    match expiration {
        Some(instant) => earlier(Timestamp { secs: instant.0, nanos: instant.1 }, now),
        None => false,
    }
}

/// Whether an expiry lies before the start of 1970.
pub open spec fn before_epoch(expiration: Option<(i64, u32)>) -> bool {
    match expiration {
        Some(instant) => instant.0 < 0,
        None => false,
    }
}

/// The format of an expiry date.
pub open spec fn expiry_format() -> Seq<char> {
    "%a, %d %b %Y %H:%M:%S GMT"@
}

/// The second that lies `duration_secs` seconds after `now_secs`, where it
/// can be counted.
pub open spec fn second_after(now_secs: i64, duration_secs: u64) -> Option<i64> {
    if now_secs + duration_secs <= i64::MAX {
        Some((now_secs + duration_secs) as i64)
    } else {
        None
    }
}

/// The expiry date of a cookie that lasts `duration_secs` seconds from the
/// second `now_secs`.
pub open spec fn expiry_text(now_secs: i64, duration_secs: u64) -> Option<Seq<char>> {
    match second_after(now_secs, duration_secs) {
        Some(secs) => formatted_instant(secs, expiry_format()),
        None => None,
    }
}

/// The cookies among `cookies` that have not expired at `now`. The value of
/// a cookie is read as its expiry date.
pub open spec fn unexpired(cookies: Map<Seq<char>, Seq<char>>, now: Timestamp) -> Map<
    Seq<char>,
    Seq<char>,
> {
    Map::new(
        |name: Seq<char>| cookies.contains_key(name) && !expired(rfc2822_instant(cookies[name]), now),
        |name: Seq<char>| cookies[name],
    )
}

/// The name and the value of one piece of a `Cookie` header.
pub fn split_cookie(piece: &str) -> (pair: Option<(String, String)>)
    ensures
        match pair {
            Some(cookie) => cookie_pair(piece@) == Some((cookie.0@, cookie.1@)),
            None => cookie_pair(piece@) is None,
        },
{
    let chars = chars_of(piece);
    let at = index_of(&chars, '=', 0);
    if at < chars.len() {
        let name = trim(piece.substring_char(0, at));
        let value = trim(piece.substring_char(at + 1, chars.len()));
        Some((name, value))
    } else {
        None
    }
}

/// The cookies that the `Cookie` header of a request carries; none where
/// the request has no such header.
pub fn parse_cookies(headers: &TextMap) -> (cookies: TextMap)
    requires
        headers.wf(),
    ensures
        cookies.wf(),
        cookies@ == cookies_of(headers@),
{
    let mut cookies = TextMap::new();
    match headers.get("Cookie") {
        None => {},
        Some(header) => {
            let text = header.as_str();
            let chars = chars_of(text);
            let mut from: usize = 0;
            let mut more = true;
            while more
                invariant
                    from <= chars.len(),
                    chars@ == text@,
                    cookies.wf(),
                    more ==> cookies_from(text@, 0, Map::empty()) == cookies_from(
                        text@,
                        from as int,
                        cookies@,
                    ),
                    !more ==> cookies@ == cookies_from(text@, 0, Map::empty()),
                decreases chars.len() - from + if more { 1int } else { 0int },
            {
                let end = index_of(&chars, ';', from);
                match split_cookie(text.substring_char(from, end)) {
                    Some((name, value)) => {
                        cookies.insert(name, value);
                    },
                    None => {},
                }
                if end < chars.len() {
                    from = end + 1;
                } else {
                    more = false;
                }
            }
        },
    }
    cookies
}

/// Adds to `cookies` the `Set-Cookie` value of one cookie.
pub fn set_cookie(cookies: &mut Vec<String>, name: &str, value: &str, expires: Option<&str>)
    ensures
        final(cookies)@.len() == old(cookies)@.len() + 1,
        final(cookies)@.drop_last() == old(cookies)@,
        final(cookies)@.last()@ == cookie_line(name@, value@, slice_text_of(expires)),
{
    let mut cookie = name.to_owned();
    cookie.append("=");
    cookie.append(value);
    cookie.append("; Path=/; HttpOnly");
    match expires {
        Some(date) => {
            cookie.append("; Expires=");
            cookie.append(date);
        },
        None => {},
    }
    cookies.push(cookie);
    assert(cookies@.drop_last() =~= old(cookies)@);
}

/// Whether a cookie with the expiry `expiration` has expired at `now`.
pub fn expired_at(expiration: Option<(i64, u32)>, now: Timestamp) -> (gone: bool)
    ensures
        gone == expired(expiration, now),
{
    match expiration {
        Some((secs, nanos)) => {
            let instant = Timestamp { secs, nanos };
            instant.is_before(&now)
        },
        None => false,
    }
}

/// Whether the date `expiration_date`, in the form of RFC 2822, lies before
/// the current time. The answer is the one that `expired` gives for some
/// time that is not before 1970: a text that is no such date never counts
/// as expired, and a date before 1970 always does.
pub fn is_cookie_expired(expiration_date: &str) -> (gone: bool)
    ensures
        exists|now: Timestamp|
            now.secs >= 0 && gone == #[trigger] expired(rfc2822_instant(expiration_date@), now),
        rfc2822_instant(expiration_date@) is None ==> !gone,
        before_epoch(rfc2822_instant(expiration_date@)) ==> gone,
{
    let now = utc_now();
    let gone = expired_at(parse_rfc2822(expiration_date), now);
    assert(gone == expired(rfc2822_instant(expiration_date@), now));
    gone
}

/// The expiry date of a cookie that lasts `duration_secs` seconds from
/// `now`; `None` where that second cannot be counted or written.
pub fn expiration_after(now: Timestamp, duration_secs: u64) -> (date: Option<String>)
    ensures
        text_of(date) == expiry_text(now.secs, duration_secs),
{
    let sum: i128 = now.secs as i128 + duration_secs as i128;
    if sum <= 0x7fff_ffff_ffff_ffff {
        format_instant(sum as i64, "%a, %d %b %Y %H:%M:%S GMT")
    } else {
        None
    }
}

/// The expiry date of a cookie that lasts `duration_secs` seconds from the
/// current time; `None` where that second cannot be counted or written. The
/// result, a date or `None`, is what `expiry_text` gives for some second
/// that is not before 1970; so a duration of more seconds than can be
/// counted from there gives `None`.
pub fn get_cookie_expiration(duration_secs: u64) -> (date: Option<String>)
    ensures
        exists|now_secs: i64|
            now_secs >= 0 && text_of(date) == #[trigger] expiry_text(now_secs, duration_secs),
        duration_secs > i64::MAX ==> date is None,
{
    let now = utc_now();
    let date = expiration_after(now, duration_secs);
    assert(text_of(date) == expiry_text(now.secs, duration_secs));
    date
}

/// The cookies among `cookies` that have not expired at `now`.
pub fn unexpired_cookies(cookies: &TextMap, now: Timestamp) -> (valid: TextMap)
    requires
        cookies.wf(),
    ensures
        valid.wf(),
        valid@ == unexpired(cookies@, now),
{
    let mut valid = TextMap::new();
    let mut at: usize = 0;
    proof {
        cookies.lemma_pairs();
    }
    while at < cookies.len()
        invariant
            at <= cookies.pairs().len(),
            cookies.wf(),
            valid.wf(),
            forall|name: Seq<char>| #[trigger]
                valid@.contains_key(name) <==> (unexpired(cookies@, now).contains_key(name)
                    && exists|i: int| 0 <= i < at && (#[trigger] cookies.pairs()[i]).0 == name),
            forall|name: Seq<char>| #[trigger]
                valid@.contains_key(name) ==> valid@[name] == cookies@[name],
        decreases cookies.pairs().len() - at,
    {
        let (name, value) = cookies.entry(at);
        let ghost before = valid@;
        proof {
            cookies.lemma_pairs();
        }
        if !expired_at(parse_rfc2822(value.as_str()), now) {
            valid.insert(name.clone(), value.clone());
        }
        assert forall|key: Seq<char>| #[trigger]
            valid@.contains_key(key) <==> (unexpired(cookies@, now).contains_key(key)
                && exists|i: int| 0 <= i < at + 1 && (#[trigger] cookies.pairs()[i]).0 == key) by {
            if key == name@ {
                assert(cookies.pairs()[at as int].0 == key);
                if before.contains_key(key) {
                    let i = choose|i: int| 0 <= i < at && (#[trigger] cookies.pairs()[i]).0 == key;
                    assert(cookies.pairs()[i].0 != cookies.pairs()[at as int].0);
                }
            } else {
                if exists|i: int| 0 <= i < at + 1 && (#[trigger] cookies.pairs()[i]).0 == key {
                    let i = choose|i: int|
                        0 <= i < at + 1 && (#[trigger] cookies.pairs()[i]).0 == key;
                    assert(i < at);
                }
            }
        }
        at += 1;
    }
    proof {
        cookies.lemma_pairs();
        assert(valid@ =~= unexpired(cookies@, now));
    }
    valid
}

/// The cookies among `cookies` that have not expired by now, which is some
/// time that is not before 1970. So nothing is added or changed, a cookie
/// whose value is no RFC 2822 date is kept, and one whose value is a date
/// before 1970 is dropped.
pub fn valid_cookies(cookies: &TextMap) -> (valid: TextMap)
    requires
        cookies.wf(),
    ensures
        valid.wf(),
        exists|now: Timestamp| now.secs >= 0 && valid@ == #[trigger] unexpired(cookies@, now),
        forall|name: Seq<char>| #[trigger]
            valid@.contains_key(name) ==> cookies@.contains_key(name) && valid@[name]
                == cookies@[name],
        forall|name: Seq<char>| #[trigger]
            cookies@.contains_key(name) && rfc2822_instant(cookies@[name]) is None
                ==> valid@.contains_key(name),
        forall|name: Seq<char>| #[trigger]
            cookies@.contains_key(name) && before_epoch(rfc2822_instant(cookies@[name]))
                ==> !valid@.contains_key(name),
{
    let now = utc_now();
    unexpired_cookies(cookies, now)
}

} // verus!
