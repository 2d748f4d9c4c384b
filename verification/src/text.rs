//! Text helpers: string comparison and redirect-URI validation.
//!
//! A redirect URI is accepted at registration only if it is a well-formed
//! absolute URI: a scheme (one ASCII letter, then letters, digits, `+`, `-`
//! or `.`), the separator `://`, and a non-empty remainder. Flow validation
//! later matches URIs by exact string equality, never by normalisation.

use vstd::prelude::*;
use vstd::string::StringExecFns;

verus! {

/// The character for one decimal digit.
pub open spec fn spec_digit_char(d: u64) -> char {
    if d == 0 {
        '0'
    } else if d == 1 {
        '1'
    } else if d == 2 {
        '2'
    } else if d == 3 {
        '3'
    } else if d == 4 {
        '4'
    } else if d == 5 {
        '5'
    } else if d == 6 {
        '6'
    } else if d == 7 {
        '7'
    } else if d == 8 {
        '8'
    } else {
        '9'
    }
}

/// The decimal digits of `n`, most significant first, without leading
/// zeroes (`0` reads as one `0`).
pub open spec fn spec_u64_digits(n: u64) -> Seq<char>
    decreases n,
{
    if n < 10 {
        seq![spec_digit_char(n)]
    } else {
        spec_u64_digits(n / 10).push(spec_digit_char(n % 10))
    }
}

/// One decimal digit as a string slice.
fn digit_str(d: u64) -> (r: &'static str)
    requires
        d < 10,
    ensures
        r@ == seq![spec_digit_char(d)],
{
    proof {
        reveal_strlit("0");
        reveal_strlit("1");
        reveal_strlit("2");
        reveal_strlit("3");
        reveal_strlit("4");
        reveal_strlit("5");
        reveal_strlit("6");
        reveal_strlit("7");
        reveal_strlit("8");
        reveal_strlit("9");
    }
    let r = match d {
        0 => "0",
        1 => "1",
        2 => "2",
        3 => "3",
        4 => "4",
        5 => "5",
        6 => "6",
        7 => "7",
        8 => "8",
        _ => "9",
    };
    proof {
        assert(r@ =~= seq![spec_digit_char(d)]);
    }
    r
}

/// `n`, written in decimal.
pub fn u64_to_string(n: u64) -> (r: String)
    ensures
        r@ == spec_u64_digits(n),
    decreases n,
{
    if n < 10 {
        digit_str(n).to_owned()
    } else {
        let mut prefix = u64_to_string(n / 10);
        prefix.append(digit_str(n % 10));
        proof {
            assert(prefix@ =~= spec_u64_digits(n));
        }
        prefix
    }
}

/// Whether two string slices hold the same characters.
pub fn str_eq(a: &str, b: &str) -> (r: bool)
    ensures
        r == (a@ == b@),
{
    let owned_a = a.to_owned();
    let owned_b = b.to_owned();
    owned_a == owned_b
}

/// A copy of an optional string, equal to the value copied.
pub(crate) fn clone_opt_string(s: &Option<String>) -> (r: Option<String>)
    ensures
        r == *s,
{
    match s {
        Some(v) => Some(v.clone()),
        None => None,
    }
}

/// Whether `c` may start a URI scheme: an ASCII letter.
pub open spec fn spec_is_scheme_start(c: char) -> bool {
    ('a' <= c && c <= 'z') || ('A' <= c && c <= 'Z')
}

/// Whether `c` may continue a URI scheme: an ASCII letter, a digit, `+`,
/// `-` or `.`.
pub open spec fn spec_is_scheme_char(c: char) -> bool {
    spec_is_scheme_start(c) || ('0' <= c && c <= '9') || c == '+' || c == '-' || c == '.'
}

/// Whether `s` has the separator `://` at position `k`, preceded by a
/// well-formed scheme and followed by at least one character.
pub open spec fn spec_scheme_separator_at(s: Seq<char>, k: int) -> bool {
    &&& 1 <= k
    &&& k + 3 < s.len()
    &&& s[k] == ':'
    &&& s[k + 1] == '/'
    &&& s[k + 2] == '/'
    &&& spec_is_scheme_start(s[0])
    &&& forall|j: int| 1 <= j < k ==> spec_is_scheme_char(#[trigger] s[j])
}

/// Whether `s` is a well-formed absolute URI: scheme, `://`, non-empty rest.
pub open spec fn spec_is_absolute_uri(s: Seq<char>) -> bool {
    exists|k: int| spec_scheme_separator_at(s, k)
}

/// Whether `c` may continue a URI scheme.
fn is_scheme_char(c: char) -> (r: bool)
    ensures
        r == spec_is_scheme_char(c),
{
    ('a' <= c && c <= 'z') || ('A' <= c && c <= 'Z') || ('0' <= c && c <= '9') || c == '+' || c
        == '-' || c == '.'
}

/// Whether `uri` is a well-formed absolute URI.
///
/// The scheme may not contain `:`, so the first `:` of the string is the
/// only place the separator can sit; the scan below finds it or rejects.
pub fn is_absolute_uri(uri: &str) -> (r: bool)
    ensures
        r == spec_is_absolute_uri(uri@),
{
    let ghost s = uri@;
    let n = uri.unicode_len();
    if n == 0 {
        assert(!spec_is_absolute_uri(s));
        return false;
    }
    let first = uri.get_char(0);
    if !(('a' <= first && first <= 'z') || ('A' <= first && first <= 'Z')) {
        assert(!spec_is_absolute_uri(s));
        return false;
    }
    let mut i: usize = 1;
    while i < n
        invariant
            1 <= i <= n,
            n == s.len(),
            s == uri@,
            spec_is_scheme_start(s[0]),
            forall|j: int| 1 <= j < i ==> spec_is_scheme_char(#[trigger] s[j]) && s[j] != ':',
        decreases n - i,
    {
        let c = uri.get_char(i);
        if c == ':' {
            // The separator can only sit here: every earlier position holds
            // a scheme character, every later candidate would need this
            // position to hold one.
            if n - i > 3 && uri.get_char(i + 1) == '/' && uri.get_char(i + 2) == '/' {
                assert(spec_scheme_separator_at(s, i as int));
                return true;
            } else {
                assert(forall|k: int| !spec_scheme_separator_at(s, k)) by {
                    assert forall|k: int| #[trigger] spec_scheme_separator_at(s, k) implies false by {
                        if k < i {
                            assert(spec_is_scheme_char(s[k]) && s[k] != ':');
                        } else if k > i {
                            assert(spec_is_scheme_char(s[i as int]));
                        }
                    }
                }
                return false;
            }
        }
        if !is_scheme_char(c) {
            assert(forall|k: int| !spec_scheme_separator_at(s, k)) by {
                assert forall|k: int| #[trigger] spec_scheme_separator_at(s, k) implies false by {
                    if k < i {
                        assert(s[k] != ':');
                    } else if k == i {
                        assert(s[k] == ':');
                    } else {
                        assert(spec_is_scheme_char(s[i as int]));
                    }
                }
            }
            return false;
        }
        i = i + 1;
    }
    assert(forall|k: int| !spec_scheme_separator_at(s, k)) by {
        assert forall|k: int| #[trigger] spec_scheme_separator_at(s, k) implies false by {
            assert(s[k] != ':');
        }
    }
    false
}

} // verus!
