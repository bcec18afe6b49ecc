use vstd::prelude::*;
use vstd::string::StrSliceExecFns;

verus! {

broadcast use vstd::std_specs::vec::group_vec_axioms;

// The announcement shape is a fixed grammar: a free prefix, then ": <", a
// nonempty category tag, ">  Name:'", the title, "' uploaded by '", a
// nonempty uploader, "' -  https://www.torrentleech.org/torrent/" and at
// least one digit of the torrent id. Quantified parts are matched greedily,
// later text first, with earlier parts taking priority — so each separator
// is placed at the topmost position that still lets the rest of the shape
// match after it.

/// The separator in front of the category tag.
pub open spec fn marker_cat() -> Seq<char> {
    ": <"@
}

/// The separator that closes the tag and opens the quoted title.
pub open spec fn marker_name() -> Seq<char> {
    ">  Name:'"@
}

/// The separator that closes the title and opens the quoted uploader.
pub open spec fn marker_upl() -> Seq<char> {
    "' uploaded by '"@
}

/// The separator that closes the uploader and starts the torrent URL, whose
/// trailing digits are the id.
pub open spec fn marker_url() -> Seq<char> {
    "' -  https://www.torrentleech.org/torrent/"@
}

pub open spec fn is_digit(c: char) -> bool {
    48 <= c as int && c as int <= 57
}

/// `pat` occurs in `s` starting at position `i`.
pub open spec fn occurs_at(s: Seq<char>, pat: Seq<char>, i: int) -> bool {
    &&& 0 <= i
    &&& i + pat.len() <= s.len()
    &&& forall|k: int| 0 <= k < pat.len() ==> s[i + k] == pat[k]
}

/// The URL separator occurs at `i` and a digit follows it at once.
pub open spec fn valid_url_at(s: Seq<char>, i: int) -> bool {
    &&& occurs_at(s, marker_url(), i)
    &&& i + 42 < s.len()
    &&& is_digit(s[i + 42])
}

/// The uploader separator occurs at `i` with a nonempty uploader and then
/// the rest of the shape after it.
pub open spec fn valid_upl_at(s: Seq<char>, i: int) -> bool {
    &&& occurs_at(s, marker_upl(), i)
    &&& exists|j: int| i + 16 <= j && valid_url_at(s, j)
}

/// The title separator occurs at `i` with a nonempty title and then the rest
/// of the shape after it.
pub open spec fn valid_name_at(s: Seq<char>, i: int) -> bool {
    &&& occurs_at(s, marker_name(), i)
    &&& exists|j: int| i + 10 <= j && valid_upl_at(s, j)
}

/// The tag separator occurs at `i` with a nonempty tag and then the rest of
/// the shape after it.
pub open spec fn valid_cat_at(s: Seq<char>, i: int) -> bool {
    &&& occurs_at(s, marker_cat(), i)
    &&& exists|j: int| i + 4 <= j && valid_name_at(s, j)
}

pub open spec fn is_last_cat(s: Seq<char>, i: int) -> bool {
    &&& valid_cat_at(s, i)
    &&& forall|j: int| i < j ==> !valid_cat_at(s, j)
}

pub open spec fn is_last_name(s: Seq<char>, lo: int, i: int) -> bool {
    &&& lo <= i
    &&& valid_name_at(s, i)
    &&& forall|j: int| i < j ==> !valid_name_at(s, j)
}

pub open spec fn is_last_upl(s: Seq<char>, lo: int, i: int) -> bool {
    &&& lo <= i
    &&& valid_upl_at(s, i)
    &&& forall|j: int| i < j ==> !valid_upl_at(s, j)
}

pub open spec fn is_last_url(s: Seq<char>, lo: int, i: int) -> bool {
    &&& lo <= i
    &&& valid_url_at(s, i)
    &&& forall|j: int| i < j ==> !valid_url_at(s, j)
}

/// Where the run of digits starting at `i` ends.
pub open spec fn digits_end(s: Seq<char>, i: int) -> int
    decreases s.len() - i,
{
    if i < s.len() && is_digit(s[i]) {
        digits_end(s, i + 1)
    } else {
        i
    }
}

pub open spec fn has_last_cat(s: Seq<char>) -> bool {
    exists|c: int| is_last_cat(s, c)
}

pub open spec fn last_cat(s: Seq<char>) -> int {
    choose|c: int| is_last_cat(s, c)
}

pub open spec fn has_last_name(s: Seq<char>, lo: int) -> bool {
    exists|n: int| is_last_name(s, lo, n)
}

pub open spec fn last_name(s: Seq<char>, lo: int) -> int {
    choose|n: int| is_last_name(s, lo, n)
}

pub open spec fn has_last_upl(s: Seq<char>, lo: int) -> bool {
    exists|u: int| is_last_upl(s, lo, u)
}

pub open spec fn last_upl(s: Seq<char>, lo: int) -> int {
    choose|u: int| is_last_upl(s, lo, u)
}

pub open spec fn has_last_url(s: Seq<char>, lo: int) -> bool {
    exists|v: int| is_last_url(s, lo, v)
}

pub open spec fn last_url(s: Seq<char>, lo: int) -> int {
    choose|v: int| is_last_url(s, lo, v)
}

/// What parsing one line yields: the title and the digits of the id, both
/// cut at greedily chosen separator positions, or nothing when the line does
/// not contain the announcement shape.
pub open spec fn spec_parse(s: Seq<char>) -> Option<(Seq<char>, Seq<char>)> {
    if has_last_cat(s) {
        let c = last_cat(s);
        if has_last_name(s, c + 4) {
            let n = last_name(s, c + 4);
            if has_last_upl(s, n + 10) {
                let u = last_upl(s, n + 10);
                if has_last_url(s, u + 16) {
                    let v = last_url(s, u + 16);
                    Some((s.subrange(n + 9, u), s.subrange(v + 42, digits_end(s, v + 42))))
                } else {
                    None
                }
            } else {
                None
            }
        } else {
            None
        }
    } else {
        None
    }
}

fn char_is_digit(c: char) -> (r: bool)
    ensures
        r == is_digit(c),
{
    proof {
        vstd::utf8::char_is_scalar(c);
    }
    let dc = c as u32;
    48 <= dc && dc <= 57
}

fn str_to_char_vec(s: &str) -> (v: Vec<char>)
    ensures
        v@ == s@,
{
    let n = s.unicode_len();
    let mut v: Vec<char> = Vec::new();
    let mut i: usize = 0;
    while i < n
        invariant
            i <= n,
            n == s@.len(),
            v@ == s@.subrange(0, i as int),
        decreases n - i,
    {
        v.push(s.get_char(i));
        i = i + 1;
        proof {
            assert(v@ =~= s@.subrange(0, i as int));
        }
    }
    proof {
        assert(v@ =~= s@);
    }
    v
}

fn marker_matches_at(s: &Vec<char>, m: &str, i: usize) -> (r: bool)
    ensures
        r == occurs_at(s@, m@, i as int),
{
    let mlen = m.unicode_len();
    if i > s.len() || s.len() - i < mlen {
        return false;
    }
    let mut k: usize = 0;
    while k < mlen
        invariant
            k <= mlen,
            i + mlen <= s.len(),
            mlen == m@.len(),
            forall|t: int| 0 <= t < k ==> s@[i + t] == m@[t],
        decreases mlen - k,
    {
        if s[i + k] != m.get_char(k) {
            return false;
        }
        k = k + 1;
    }
    true
}

fn rfind_url(s: &Vec<char>) -> (r: Option<usize>)
    ensures
        match r {
            Some(i) => is_last_url(s@, 0, i as int),
            None => forall|j: int| !valid_url_at(s@, j),
        },
{
    proof {
        reveal_strlit("' -  https://www.torrentleech.org/torrent/");
        assert(marker_url().len() == 42);
    }
    if s.len() < 43 {
        proof {
            assert forall|j: int| !valid_url_at(s@, j) by {}
        }
        return None;
    }
    let mut i: usize = s.len() - 42;
    proof {
        assert forall|j: int| i as int <= j implies !valid_url_at(s@, j) by {}
    }
    while i > 0
        invariant
            i as int <= s@.len() - 42,
            forall|j: int| i as int <= j ==> !valid_url_at(s@, j),
        decreases i,
    {
        i = i - 1;
        proof {
            assert(s.len() == s@.len());
            assert(i as int + 42 < s@.len());
        }
        if marker_matches_at(s, "' -  https://www.torrentleech.org/torrent/", i) {
            if char_is_digit(s[i + 42]) {
                proof {
                    assert("' -  https://www.torrentleech.org/torrent/"@ =~= marker_url());
                    assert(valid_url_at(s@, i as int));
                }
                return Some(i);
            }
        }
        proof {
            assert(!valid_url_at(s@, i as int));
        }
    }
    proof {
        assert forall|j: int| !valid_url_at(s@, j) by {}
    }
    None
}

fn rfind_upl(s: &Vec<char>, vtop: Option<usize>) -> (r: Option<usize>)
    requires
        match vtop {
            Some(v) => is_last_url(s@, 0, v as int),
            None => forall|j: int| !valid_url_at(s@, j),
        },
    ensures
        match r {
            Some(i) => is_last_upl(s@, 0, i as int),
            None => forall|j: int| !valid_upl_at(s@, j),
        },
{
    let vt: usize = match vtop {
        None => {
            proof {
                assert forall|j: int| !valid_upl_at(s@, j) by {}
            }
            return None;
        },
        Some(v) => v,
    };
    if vt < 16 {
        proof {
            assert forall|j: int| !valid_upl_at(s@, j) by {
                if valid_upl_at(s@, j) {
                    let jj = choose|jj: int| j + 16 <= jj && valid_url_at(s@, jj);
                    assert(!valid_url_at(s@, jj));
                }
            }
        }
        return None;
    }
    let mut i: usize = vt - 15;
    proof {
        assert forall|j: int| i as int <= j implies !valid_upl_at(s@, j) by {
            if valid_upl_at(s@, j) {
                let jj = choose|jj: int| j + 16 <= jj && valid_url_at(s@, jj);
                assert(!valid_url_at(s@, jj));
            }
        }
    }
    while i > 0
        invariant
            i as int <= vt - 15,
            vt >= 16,
            valid_url_at(s@, vt as int),
            forall|j: int| i as int <= j ==> !valid_upl_at(s@, j),
        decreases i,
    {
        i = i - 1;
        if marker_matches_at(s, "' uploaded by '", i) {
            proof {
                assert(i as int + 16 <= vt as int && valid_url_at(s@, vt as int));
                assert(valid_upl_at(s@, i as int));
            }
            return Some(i);
        }
        proof {
            assert(!valid_upl_at(s@, i as int));
        }
    }
    proof {
        assert forall|j: int| !valid_upl_at(s@, j) by {}
    }
    None
}

fn rfind_name(s: &Vec<char>, utop: Option<usize>) -> (r: Option<usize>)
    requires
        match utop {
            Some(u) => is_last_upl(s@, 0, u as int),
            None => forall|j: int| !valid_upl_at(s@, j),
        },
    ensures
        match r {
            Some(i) => is_last_name(s@, 0, i as int),
            None => forall|j: int| !valid_name_at(s@, j),
        },
{
    let ut: usize = match utop {
        None => {
            proof {
                assert forall|j: int| !valid_name_at(s@, j) by {}
            }
            return None;
        },
        Some(u) => u,
    };
    if ut < 10 {
        proof {
            assert forall|j: int| !valid_name_at(s@, j) by {
                if valid_name_at(s@, j) {
                    let jj = choose|jj: int| j + 10 <= jj && valid_upl_at(s@, jj);
                    assert(!valid_upl_at(s@, jj));
                }
            }
        }
        return None;
    }
    let mut i: usize = ut - 9;
    proof {
        assert forall|j: int| i as int <= j implies !valid_name_at(s@, j) by {
            if valid_name_at(s@, j) {
                let jj = choose|jj: int| j + 10 <= jj && valid_upl_at(s@, jj);
                assert(!valid_upl_at(s@, jj));
            }
        }
    }
    while i > 0
        invariant
            i as int <= ut - 9,
            ut >= 10,
            valid_upl_at(s@, ut as int),
            forall|j: int| i as int <= j ==> !valid_name_at(s@, j),
        decreases i,
    {
        i = i - 1;
        if marker_matches_at(s, ">  Name:'", i) {
            proof {
                assert(i as int + 10 <= ut as int && valid_upl_at(s@, ut as int));
                assert(valid_name_at(s@, i as int));
            }
            return Some(i);
        }
        proof {
            assert(!valid_name_at(s@, i as int));
        }
    }
    proof {
        assert forall|j: int| !valid_name_at(s@, j) by {}
    }
    None
}

fn rfind_cat(s: &Vec<char>, ntop: Option<usize>) -> (r: Option<usize>)
    requires
        match ntop {
            Some(n) => is_last_name(s@, 0, n as int),
            None => forall|j: int| !valid_name_at(s@, j),
        },
    ensures
        match r {
            Some(i) => is_last_cat(s@, i as int),
            None => forall|j: int| !valid_cat_at(s@, j),
        },
{
    let nt: usize = match ntop {
        None => {
            proof {
                assert forall|j: int| !valid_cat_at(s@, j) by {}
            }
            return None;
        },
        Some(n) => n,
    };
    if nt < 4 {
        proof {
            assert forall|j: int| !valid_cat_at(s@, j) by {
                if valid_cat_at(s@, j) {
                    let jj = choose|jj: int| j + 4 <= jj && valid_name_at(s@, jj);
                    assert(!valid_name_at(s@, jj));
                }
            }
        }
        return None;
    }
    let mut i: usize = nt - 3;
    proof {
        assert forall|j: int| i as int <= j implies !valid_cat_at(s@, j) by {
            if valid_cat_at(s@, j) {
                let jj = choose|jj: int| j + 4 <= jj && valid_name_at(s@, jj);
                assert(!valid_name_at(s@, jj));
            }
        }
    }
    while i > 0
        invariant
            i as int <= nt - 3,
            nt >= 4,
            valid_name_at(s@, nt as int),
            forall|j: int| i as int <= j ==> !valid_cat_at(s@, j),
        decreases i,
    {
        i = i - 1;
        if marker_matches_at(s, ": <", i) {
            proof {
                assert(i as int + 4 <= nt as int && valid_name_at(s@, nt as int));
                assert(valid_cat_at(s@, i as int));
            }
            return Some(i);
        }
        proof {
            assert(!valid_cat_at(s@, i as int));
        }
    }
    proof {
        assert forall|j: int| !valid_cat_at(s@, j) by {}
    }
    None
}

/// Extracts the title and the torrent id from one announcement line, or
/// nothing when the line does not contain the announcement shape.
pub fn parse_torrent_announcement(message: String) -> (r: Option<(String, String)>)
    ensures
        (r is Some) <==> (spec_parse(message@) is Some),
        r is Some ==> spec_parse(message@) == Some(((r->0).0@, (r->0).1@)),
{
    let s = message.as_str();
    let chars = str_to_char_vec(s);
    let vtop = rfind_url(&chars);
    let utop = rfind_upl(&chars, vtop);
    let ntop = rfind_name(&chars, utop);
    let ctop = rfind_cat(&chars, ntop);
    let c: usize = match ctop {
        None => {
            proof {
                assert(spec_parse(message@) is None);
            }
            return None;
        },
        Some(c) => c,
    };
    let n: usize = match ntop {
        None => {
            proof {
                let jj = choose|jj: int| c as int + 4 <= jj && valid_name_at(chars@, jj);
                assert(false);
            }
            return None;
        },
        Some(n) => n,
    };
    let u: usize = match utop {
        None => {
            proof {
                let jj = choose|jj: int| n as int + 10 <= jj && valid_upl_at(chars@, jj);
                assert(false);
            }
            return None;
        },
        Some(u) => u,
    };
    let v: usize = match vtop {
        None => {
            proof {
                let jj = choose|jj: int| u as int + 16 <= jj && valid_url_at(chars@, jj);
                assert(false);
            }
            return None;
        },
        Some(v) => v,
    };
    proof {
        reveal_strlit("' -  https://www.torrentleech.org/torrent/");
        reveal_strlit("' uploaded by '");
        reveal_strlit(">  Name:'");
        reveal_strlit(": <");
        assert(marker_url().len() == 42);
        assert(marker_upl().len() == 15);
        assert(marker_name().len() == 9);
        assert(marker_cat().len() == 3);
    }
    let len = chars.len();
    let mut e: usize = v + 42;
    let mut done = false;
    while !done && e < len
        invariant
            v + 42 <= e <= len,
            len == chars@.len(),
            digits_end(chars@, v as int + 42) == digits_end(chars@, e as int),
            done ==> e == len || !is_digit(chars@[e as int]),
        decreases len - e + (if done { 0int } else { 1int }),
    {
        if char_is_digit(chars[e]) {
            proof {
                assert(digits_end(chars@, e as int) == digits_end(chars@, e as int + 1));
            }
            e = e + 1;
        } else {
            done = true;
        }
    }
    proof {
        assert(digits_end(chars@, e as int) == e as int);
        lemma_parse_positions(chars@, c as int, n as int, u as int, v as int);
        let ju = choose|jj: int| n as int + 10 <= jj && valid_upl_at(chars@, jj);
        assert(ju <= u as int) by {
            if ju > u as int {
                assert(!valid_upl_at(chars@, ju));
            }
        }
        assert(n as int + 10 <= u as int);
        assert(u as int + 15 <= chars@.len());
    }
    let title = s.substring_char(n + 9, u).to_owned();
    let id = s.substring_char(v + 42, e).to_owned();
    Some((title, id))
}

/// The four topmost separator positions determine the parse.
proof fn lemma_parse_positions(s: Seq<char>, c: int, n: int, u: int, v: int)
    requires
        is_last_cat(s, c),
        is_last_name(s, 0, n),
        is_last_upl(s, 0, u),
        is_last_url(s, 0, v),
    ensures
        spec_parse(s) == Some((s.subrange(n + 9, u), s.subrange(v + 42, digits_end(s, v + 42)))),
{
    assert(has_last_cat(s));
    let c0 = last_cat(s);
    assert(is_last_cat(s, c0));
    assert(c0 == c) by {
        if c0 < c {
            assert(!valid_cat_at(s, c));
        }
        if c0 > c {
            assert(!valid_cat_at(s, c0));
        }
    }
    let jn = choose|jj: int| c + 4 <= jj && valid_name_at(s, jj);
    assert(jn <= n) by {
        if jn > n {
            assert(!valid_name_at(s, jn));
        }
    }
    assert(is_last_name(s, c + 4, n));
    assert(has_last_name(s, c + 4));
    let n0 = last_name(s, c + 4);
    assert(is_last_name(s, c + 4, n0));
    assert(n0 == n) by {
        if n0 < n {
            assert(!valid_name_at(s, n));
        }
        if n0 > n {
            assert(!valid_name_at(s, n0));
        }
    }
    let ju = choose|jj: int| n + 10 <= jj && valid_upl_at(s, jj);
    assert(ju <= u) by {
        if ju > u {
            assert(!valid_upl_at(s, ju));
        }
    }
    assert(is_last_upl(s, n + 10, u));
    assert(has_last_upl(s, n + 10));
    let u0 = last_upl(s, n + 10);
    assert(is_last_upl(s, n + 10, u0));
    assert(u0 == u) by {
        if u0 < u {
            assert(!valid_upl_at(s, u));
        }
        if u0 > u {
            assert(!valid_upl_at(s, u0));
        }
    }
    let jv = choose|jj: int| u + 16 <= jj && valid_url_at(s, jj);
    assert(jv <= v) by {
        if jv > v {
            assert(!valid_url_at(s, jv));
        }
    }
    assert(is_last_url(s, u + 16, v));
    assert(has_last_url(s, u + 16));
    let v0 = last_url(s, u + 16);
    assert(is_last_url(s, u + 16, v0));
    assert(v0 == v) by {
        if v0 < v {
            assert(!valid_url_at(s, v));
        }
        if v0 > v {
            assert(!valid_url_at(s, v0));
        }
    }
}


/// There is a topmost valid tag-separator position once any exists.
proof fn lemma_last_cat_exists(s: Seq<char>, i: int)
    requires
        valid_cat_at(s, i),
    ensures
        has_last_cat(s),
    decreases s.len() - i,
{
    if forall|j: int| i < j ==> !valid_cat_at(s, j) {
        assert(is_last_cat(s, i));
    } else {
        let j = choose|j: int| i < j && valid_cat_at(s, j);
        lemma_last_cat_exists(s, j);
    }
}

/// A run of digits reaching the end of the line ends at the end of the line.
proof fn lemma_digits_end_all(s: Seq<char>, i: int)
    requires
        0 <= i <= s.len(),
        forall|k: int| i <= k < s.len() ==> is_digit(s[k]),
    ensures
        digits_end(s, i) == s.len(),
    decreases s.len() - i,
{
    if i < s.len() {
        lemma_digits_end_all(s, i + 1);
    }
}

proof fn lemma_marker_facts()
    ensures
        marker_cat().len() == 3,
        marker_name().len() == 9,
        marker_upl().len() == 15,
        marker_url().len() == 42,
        marker_name()[8] == '\'',
        marker_name()[0] == '>',
        marker_upl()[0] == '\'',
        marker_upl()[14] == '\'',
        marker_upl()[2] == 'u',
        marker_upl()[6] == 'a',
        marker_url()[0] == '\'',
        marker_url()[2] == '-',
        forall|k: int| 1 <= k < 14 ==> marker_upl()[k] != '\'',
        forall|k: int| 1 <= k < 42 ==> marker_url()[k] != '\'',
{
    reveal_strlit(": <");
    reveal_strlit(">  Name:'");
    reveal_strlit("' uploaded by '");
    reveal_strlit("' -  https://www.torrentleech.org/torrent/");
}

/// Parser rejection: a line in which the title segment, the uploader clause
/// or the trailing torrent URL never occurs parses to nothing.
pub proof fn lemma_parse_requires_all_segments(s: Seq<char>)
    ensures
        (forall|i: int| !occurs_at(s, marker_name(), i)) ==> spec_parse(s) is None,
        (forall|i: int| !occurs_at(s, marker_upl(), i)) ==> spec_parse(s) is None,
        (forall|i: int| !occurs_at(s, marker_url(), i)) ==> spec_parse(s) is None,
{
    if spec_parse(s) is Some {
        assert(has_last_cat(s));
        let c = last_cat(s);
        assert(is_last_cat(s, c));
        let n = choose|j: int| c + 4 <= j && valid_name_at(s, j);
        assert(occurs_at(s, marker_name(), n));
        let u = choose|j: int| n + 10 <= j && valid_upl_at(s, j);
        assert(occurs_at(s, marker_upl(), u));
        let v = choose|j: int| u + 16 <= j && valid_url_at(s, j);
        assert(occurs_at(s, marker_url(), v));
    }
}


/// One line of the exact announcement shape, assembled from its parts.
pub open spec fn announcement_line(
    prefix: Seq<char>,
    tag: Seq<char>,
    title: Seq<char>,
    uploader: Seq<char>,
    digits: Seq<char>,
) -> Seq<char> {
    prefix + marker_cat() + tag + marker_name() + title + marker_upl() + uploader + marker_url()
        + digits
}

/// Parser correctness: a line of the exact announcement shape — any prefix,
/// a nonempty tag, a nonempty title and a nonempty uploader both free of
/// single quotes, and a nonempty run of digits — parses to exactly that
/// title and those digits.
#[verifier::rlimit(100)]
pub proof fn lemma_parse_exact_shape(
    prefix: Seq<char>,
    tag: Seq<char>,
    title: Seq<char>,
    uploader: Seq<char>,
    digits: Seq<char>,
)
    requires
        tag.len() >= 1,
        title.len() >= 1,
        uploader.len() >= 1,
        digits.len() >= 1,
        forall|i: int| 0 <= i < title.len() ==> title[i] != '\'',
        forall|i: int| 0 <= i < uploader.len() ==> uploader[i] != '\'',
        forall|i: int| 0 <= i < digits.len() ==> is_digit(digits[i]),
    ensures
        spec_parse(announcement_line(prefix, tag, title, uploader, digits)) == Some(
            (title, digits),
        ),
{
    lemma_marker_facts();
    let s = announcement_line(prefix, tag, title, uploader, digits);
    let cs = prefix.len() as int;
    let ns = cs + 3 + tag.len();
    let us = ns + 9 + title.len();
    let vs = us + 15 + uploader.len();
    let m1 = prefix + marker_cat();
    let m2 = m1 + tag;
    let m3 = m2 + marker_name();
    let m4 = m3 + title;
    let m5 = m4 + marker_upl();
    let m6 = m5 + uploader;
    let m7 = m6 + marker_url();
    assert(s == m7 + digits);
    assert(m1.len() == cs + 3);
    assert(m2.len() == ns);
    assert(m3.len() == ns + 9);
    assert(m4.len() == us);
    assert(m5.len() == us + 15);
    assert(m6.len() == vs);
    assert(m7.len() == vs + 42);
    assert(s.len() == vs + 42 + digits.len());

    // Which character stands at each position of the assembled line.
    assert forall|k: int| 0 <= k < 3 implies s[cs + k] == marker_cat()[k] by {}
    assert forall|k: int| 0 <= k < tag.len() implies s[cs + 3 + k] == tag[k] by {}
    assert forall|k: int| 0 <= k < 9 implies s[ns + k] == marker_name()[k] by {}
    assert forall|k: int| 0 <= k < title.len() implies s[ns + 9 + k] == title[k] by {}
    assert forall|k: int| 0 <= k < 15 implies s[us + k] == marker_upl()[k] by {}
    assert forall|k: int| 0 <= k < uploader.len() implies s[us + 15 + k] == uploader[k] by {}
    assert forall|k: int| 0 <= k < 42 implies s[vs + k] == marker_url()[k] by {}
    assert forall|k: int| 0 <= k < digits.len() implies s[vs + 42 + k] == digits[k] by {}

    // Beyond the title separator, single quotes stand in exactly four places.
    assert forall|p: int| ns + 9 <= p < s.len() && s[p] == '\'' implies (p == us || p == us + 14
        || p == vs) by {
        if p < us {
            assert(s[p] == title[p - (ns + 9)]);
        } else if p < us + 15 {
            assert(s[p] == marker_upl()[p - us]);
        } else if p < vs {
            assert(s[p] == uploader[p - (us + 15)]);
        } else if p < vs + 42 {
            assert(s[p] == marker_url()[p - vs]);
        } else {
            assert(s[p] == digits[p - (vs + 42)]);
            assert(is_digit(s[p]));
        }
    }

    // The URL separator: valid at its intended place and nowhere at or
    // beyond the uploader's least possible end.
    assert(occurs_at(s, marker_url(), vs));
    assert(s[vs + 42] == digits[0]);
    assert(valid_url_at(s, vs));
    assert forall|m: int| us + 16 <= m && m != vs implies !valid_url_at(s, m) by {
        if valid_url_at(s, m) {
            assert(s[m] == marker_url()[0]);
            assert(s[m] == '\'');
        }
    }

    // The uploader separator: valid at its intended place and nowhere later
    // than it from the title's least possible end on.
    assert(us + 16 <= vs && valid_url_at(s, vs));
    assert(occurs_at(s, marker_upl(), us));
    assert(valid_upl_at(s, us));
    assert forall|k: int| ns + 10 <= k && k != us implies !valid_upl_at(s, k) by {
        if valid_upl_at(s, k) {
            assert(s[k] == marker_upl()[0]);
            assert(s[k] == '\'');
            if k == us + 14 {
                assert(s[k + 14] == marker_upl()[14]);
                assert(s[us + 28] == '\'');
                assert(us + 28 == vs);
                let m = choose|m: int| k + 16 <= m && valid_url_at(s, m);
                assert(m == vs);
                assert(false);
            }
            if k == vs {
                assert(s[k + 2] == marker_upl()[2]);
                assert(s[vs + 2] == marker_url()[2]);
                assert(false);
            }
        }
    }

    // The title separator: valid at its intended place and nowhere later.
    assert(ns + 10 <= us && valid_upl_at(s, us));
    assert(occurs_at(s, marker_name(), ns));
    assert(valid_name_at(s, ns));
    assert forall|k: int| ns < k implies !valid_name_at(s, k) by {
        if valid_name_at(s, k) {
            assert(s[k + 8] == marker_name()[8]);
            assert(s[k + 8] == '\'');
            if k + 8 == us {
                let j = choose|j: int| k + 10 <= j && valid_upl_at(s, j);
                assert(j == us);
                assert(false);
            }
            if k + 8 == us + 14 {
                assert(s[k] == marker_name()[0]);
                assert(s[us + 6] == marker_upl()[6]);
                assert(false);
            }
            if k + 8 == vs {
                let j = choose|j: int| k + 10 <= j && valid_upl_at(s, j);
                assert(j == us);
                assert(false);
            }
        }
    }

    // The tag separator is valid where the prefix ends, so a topmost one
    // exists; it cannot stand above the topmost title separator.
    assert(occurs_at(s, marker_cat(), cs));
    assert(cs + 4 <= ns && valid_name_at(s, ns));
    assert(valid_cat_at(s, cs));
    lemma_last_cat_exists(s, cs);
    let c = last_cat(s);
    assert(is_last_cat(s, c));
    let j0 = choose|j: int| c + 4 <= j && valid_name_at(s, j);
    assert(j0 <= ns) by {
        if j0 > ns {
            assert(!valid_name_at(s, j0));
        }
    }
    assert(is_last_name(s, c + 4, ns));
    assert(has_last_name(s, c + 4));
    let n0 = last_name(s, c + 4);
    assert(is_last_name(s, c + 4, n0));
    assert(n0 == ns) by {
        if n0 < ns {
            assert(!valid_name_at(s, ns));
        }
        if n0 > ns {
            assert(!valid_name_at(s, n0));
        }
    }
    assert(is_last_upl(s, ns + 10, us)) by {
        assert forall|j: int| us < j implies !valid_upl_at(s, j) by {
            if valid_upl_at(s, j) {
                assert(ns + 10 <= j && j != us);
            }
        }
    }
    assert(has_last_upl(s, ns + 10));
    let u0 = last_upl(s, ns + 10);
    assert(is_last_upl(s, ns + 10, u0));
    assert(u0 == us) by {
        if u0 < us {
            assert(!valid_upl_at(s, us));
        }
        if u0 > us {
            assert(!valid_upl_at(s, u0));
        }
    }
    assert(is_last_url(s, us + 16, vs)) by {
        assert forall|m: int| vs < m implies !valid_url_at(s, m) by {
            if valid_url_at(s, m) {
                assert(us + 16 <= m && m != vs);
            }
        }
    }
    assert(has_last_url(s, us + 16));
    let v0 = last_url(s, us + 16);
    assert(is_last_url(s, us + 16, v0));
    assert(v0 == vs) by {
        if v0 < vs {
            assert(!valid_url_at(s, vs));
        }
        if v0 > vs {
            assert(!valid_url_at(s, v0));
        }
    }
    lemma_digits_end_all(s, vs + 42);
    assert(s.subrange(ns + 9, us) =~= title);
    assert(s.subrange(vs + 42, s.len() as int) =~= digits);
    assert(spec_parse(s) == Some((title, digits)));
}

} // verus!


