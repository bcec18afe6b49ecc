use vstd::prelude::*;
use vstd::string::StringExecFns;

verus! {

/// Relies on `String::push`: appends exactly one character.
#[verifier::external_body]
pub(crate) fn push_char(s: &mut String, c: char)
    ensures
        final(s)@ == old(s)@.push(c),
{
    s.push(c);
}

/// Characters whose byte must be escaped in the download URL: the C0
/// controls and delete, space, double quote, the angle brackets and the
/// backtick — a conservative "safe for a shell command line and a URL" set.
pub open spec fn is_url_unsafe(c: char) -> bool {
    ||| (c as int) < 0x20
    ||| (c as int) == 0x7f
    ||| c == ' '
    ||| c == '"'
    ||| c == '<'
    ||| c == '>'
    ||| c == '`'
}

/// The upper-case hexadecimal digit for a value below sixteen.
pub open spec fn hex_digit(n: int) -> char {
    if n == 0 { '0' }
    else if n == 1 { '1' }
    else if n == 2 { '2' }
    else if n == 3 { '3' }
    else if n == 4 { '4' }
    else if n == 5 { '5' }
    else if n == 6 { '6' }
    else if n == 7 { '7' }
    else if n == 8 { '8' }
    else if n == 9 { '9' }
    else if n == 10 { 'A' }
    else if n == 11 { 'B' }
    else if n == 12 { 'C' }
    else if n == 13 { 'D' }
    else if n == 14 { 'E' }
    else { 'F' }
}

/// How one character appears in the encoded output: unsafe characters become
/// a percent escape of their code, all others pass through unchanged.
pub open spec fn encode_char(c: char) -> Seq<char> {
    if is_url_unsafe(c) {
        seq!['%', hex_digit(c as int / 16), hex_digit(c as int % 16)]
    } else {
        seq![c]
    }
}

/// The percent-encoded form of a string, character by character.
pub open spec fn percent_encode_spec(s: Seq<char>) -> Seq<char>
    decreases s.len(),
{
    if s.len() == 0 {
        Seq::empty()
    } else {
        encode_char(s[0]) + percent_encode_spec(s.drop_first())
    }
}

fn hex_digit_exec(n: u32) -> (r: char)
    requires
        n < 16,
    ensures
        r == hex_digit(n as int),
{
    match n {
        0 => '0',
        1 => '1',
        2 => '2',
        3 => '3',
        4 => '4',
        5 => '5',
        6 => '6',
        7 => '7',
        8 => '8',
        9 => '9',
        10 => 'A',
        11 => 'B',
        12 => 'C',
        13 => 'D',
        14 => 'E',
        _ => 'F',
    }
}

fn push_encoded_char(out: &mut String, c: char)
    ensures
        final(out)@ == old(out)@ + encode_char(c),
{
    let code = c as u32;
    if code < 0x20 || code == 0x7f || c == ' ' || c == '"' || c == '<' || c == '>' || c == '`' {
        push_char(out, '%');
        push_char(out, hex_digit_exec(code / 16));
        push_char(out, hex_digit_exec(code % 16));
        proof {
            assert(out@ =~= old(out)@ + encode_char(c));
        }
    } else {
        push_char(out, c);
        proof {
            assert(out@ =~= old(out)@ + encode_char(c));
        }
    }
}

/// The percent-encoded form of the string, escaping exactly the unsafe set.
pub fn percent_encode(s: &str) -> (r: String)
    ensures
        r@ == percent_encode_spec(s@),
{
    let n = s.unicode_len();
    let mut out = String::new();
    let mut i: usize = 0;
    proof {
        assert(s@.skip(0) =~= s@);
        assert(out@ + percent_encode_spec(s@) =~= percent_encode_spec(s@));
    }
    while i < n
        invariant
            i <= n,
            n == s@.len(),
            percent_encode_spec(s@) == out@ + percent_encode_spec(s@.skip(i as int)),
        decreases n - i,
    {
        let ghost out0 = out@;
        let c = s.get_char(i);
        push_encoded_char(&mut out, c);
        proof {
            let rest = s@.skip(i as int);
            assert(rest[0] == c);
            assert(rest.drop_first() =~= s@.skip(i + 1));
            assert(percent_encode_spec(rest) == encode_char(c) + percent_encode_spec(
                s@.skip(i + 1),
            ));
            assert(out0 + percent_encode_spec(rest) =~= out@ + percent_encode_spec(s@.skip(i + 1)));
        }
        i = i + 1;
    }
    proof {
        assert(s@.skip(n as int) =~= Seq::<char>::empty());
        assert(out@ + percent_encode_spec(s@.skip(n as int)) =~= out@);
    }
    out
}

/// The download URL for one announcement: the fixed RSS prefix, then the
/// torrent id, the user's secret, and the percent-encoded title.
pub open spec fn download_url_spec(id: Seq<char>, secret: Seq<char>, title: Seq<char>) -> Seq<
    char,
> {
    "https://www.torrentleech.org/rss/download/"@ + id + seq!['/'] + secret + seq!['/']
        + percent_encode_spec(title)
}

pub fn build_download_url(id: &str, secret: &str, title: &str) -> (r: String)
    ensures
        r@ == download_url_spec(id@, secret@, title@),
{
    let mut out = String::from_str("https://www.torrentleech.org/rss/download/");
    out.append(id);
    push_char(&mut out, '/');
    out.append(secret);
    push_char(&mut out, '/');
    let encoded = percent_encode(title);
    out.append(encoded.as_str());
    proof {
        assert(out@ =~= download_url_spec(id@, secret@, title@));
    }
    out
}

} // verus!
