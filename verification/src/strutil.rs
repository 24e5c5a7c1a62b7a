//! Verified string helpers: installation-path normalization, decimal
//! rendering of version numbers, and path splitting.
use vstd::prelude::*;

verus! {

use vstd::string::*;

/// Relies on `core::iter::Iterator::collect` for `String`: collecting
/// characters yields the string of exactly those characters, in order.
#[verifier::external_body]
fn string_from_chars(chars: &Vec<char>) -> (s: String)
    ensures
        s@ == chars@,
{
    chars.iter().collect()
}

/// Every backslash replaced by a forward slash.
pub open spec fn backslashes_to_slashes(s: Seq<char>) -> Seq<char> {
    Seq::new(s.len(), |i: int| if s[i] == '\\' { '/' } else { s[i] })
}

/// Every leftmost pair of adjacent slashes collapsed into one, scanning
/// left to right without overlap.
pub open spec fn collapse_double_slashes(s: Seq<char>) -> Seq<char>
    decreases s.len(),
{
    if s.len() < 2 {
        s
    } else if s[0] == '/' && s[1] == '/' {
        seq!['/'] + collapse_double_slashes(s.skip(2))
    } else {
        seq![s[0]] + collapse_double_slashes(s.skip(1))
    }
}

/// An installation root as the engine stores it: a trailing slash added,
/// backslashes turned into slashes, and doubled slashes collapsed.
pub open spec fn normalized_location(loc: Seq<char>) -> Seq<char> {
    collapse_double_slashes(backslashes_to_slashes(loc + seq!['/']))
}

/// Normalize an installation root.
pub fn normalize_location(loc: &str) -> (r: String)
    ensures
        r@ == normalized_location(loc@),
{
    let n = loc.unicode_len();
    let mut mapped: Vec<char> = Vec::new();
    let mut i: usize = 0;
    while i < n
        invariant
            i <= n,
            n == loc@.len(),
            mapped@ == backslashes_to_slashes(loc@).take(i as int),
        decreases n - i,
    {
        let c = loc.get_char(i);
        if c == '\\' {
            mapped.push('/');
        } else {
            mapped.push(c);
        }
        i = i + 1;
        proof {
            assert(mapped@ =~= backslashes_to_slashes(loc@).take(i as int));
        }
    }
    mapped.push('/');
    proof {
        assert(mapped@ =~= backslashes_to_slashes(loc@ + seq!['/']));
    }
    let collapsed = collapse_slashes(&mapped);
    string_from_chars(&collapsed)
}

/// Collapse doubled slashes in a character vector.
fn collapse_slashes(s: &Vec<char>) -> (r: Vec<char>)
    ensures
        r@ == collapse_double_slashes(s@),
{
    let mut out: Vec<char> = Vec::new();
    let mut i: usize = 0;
    proof {
        assert(s@.skip(0) =~= s@);
        assert(Seq::<char>::empty() + collapse_double_slashes(s@)
            =~= collapse_double_slashes(s@));
    }
    while i < s.len()
        invariant
            i <= s@.len(),
            collapse_double_slashes(s@) == out@ + collapse_double_slashes(s@.skip(i as int)),
        decreases s@.len() - i,
    {
        if i + 1 < s.len() && s[i] == '/' && s[i + 1] == '/' {
            proof {
                assert(s@.skip(i as int).skip(2) =~= s@.skip(i as int + 2));
            }
            out.push('/');
            i = i + 2;
        } else {
            proof {
                assert(s@.skip(i as int).skip(1) =~= s@.skip(i as int + 1));
                if i + 1 >= s@.len() && s@.len() - i == 1 {
                    assert(s@.skip(i as int) =~= seq![s@[i as int]]
                        + collapse_double_slashes(s@.skip(i as int + 1)));
                }
            }
            out.push(s[i]);
            i = i + 1;
        }
        proof {
            assert(collapse_double_slashes(s@)
                =~= out@ + collapse_double_slashes(s@.skip(i as int)));
        }
    }
    proof {
        assert(s@.skip(i as int) =~= Seq::<char>::empty());
        assert(collapse_double_slashes(s@) =~= out@);
    }
    out
}

/// Normalize a manifest path: backslashes become forward slashes.
pub fn to_forward_slashes(s: &str) -> (r: String)
    ensures
        r@ == backslashes_to_slashes(s@),
{
    let n = s.unicode_len();
    let mut mapped: Vec<char> = Vec::new();
    let mut i: usize = 0;
    while i < n
        invariant
            i <= n,
            n == s@.len(),
            mapped@ == backslashes_to_slashes(s@).take(i as int),
        decreases n - i,
    {
        let c = s.get_char(i);
        if c == '\\' {
            mapped.push('/');
        } else {
            mapped.push(c);
        }
        i = i + 1;
        proof {
            assert(mapped@ =~= backslashes_to_slashes(s@).take(i as int));
        }
    }
    proof {
        assert(backslashes_to_slashes(s@).take(n as int) =~= backslashes_to_slashes(s@));
    }
    string_from_chars(&mapped)
}

/// The decimal digit character for a value below ten.
pub open spec fn dec_digit(n: int) -> char {
    crate::hashing::hex_digit_upper(n as u8)
}

/// The decimal rendering of a number, most significant digit first,
/// without leading zeroes (zero itself renders as one digit).
pub open spec fn dec_str_of(n: nat) -> Seq<char>
    decreases n,
{
    if n < 10 {
        seq![dec_digit(n as int)]
    } else {
        dec_str_of(n / 10) + seq![dec_digit((n % 10) as int)]
    }
}

/// Render a number in decimal.
pub fn u64_to_dec(n: u64) -> (s: String)
    ensures
        s@ == dec_str_of(n as nat),
{
    let mut digits: Vec<char> = Vec::new();
    let mut m = n;
    if m == 0 {
        digits.push('0');
        return string_from_chars(&digits);
    }
    while m > 0
        invariant
            m > 0 ==> dec_str_of(n as nat) =~= dec_str_of(m as nat) + digits@,
            m == 0 ==> dec_str_of(n as nat) =~= digits@,
        decreases m,
    {
        let d = (m % 10) as u8;
        let c = dec_digit_char(d);
        let ghost old_m = m as nat;
        let ghost old_digits = digits@;
        digits.insert(0, c);
        m = m / 10;
        proof {
            if old_m >= 10 {
                assert(dec_str_of(old_m) =~= dec_str_of(old_m / 10) + seq![c]);
                assert(dec_str_of(old_m) + old_digits
                    =~= dec_str_of(old_m / 10) + (seq![c] + old_digits));
            } else {
                assert(dec_str_of(old_m) =~= seq![c]);
            }
        }
    }
    string_from_chars(&digits)
}

/// The decimal digit character, executably.
fn dec_digit_char(d: u8) -> (c: char)
    requires
        d < 10,
    ensures
        c == dec_digit(d as int),
{
    if d == 0 {
        '0'
    } else if d == 1 {
        '1'
    } else if d == 2 {
        '2'
    } else if d == 3 {
        '3'
    } else if d == 4 {
        '4'
    } else if d == 5 {
        '5'
    } else if d == 6 {
        '6'
    } else if d == 7 {
        '7'
    } else if d == 8 {
        '8'
    } else {
        '9'
    }
}

/// The index of the last slash of a path that has one.
pub open spec fn last_slash_of(s: Seq<char>) -> int {
    choose|i: int| 0 <= i < s.len() && s[i] == '/' && (forall|j: int|
        i < j < s.len() ==> s[j] != '/')
}

/// The index of the last slash in a string, if there is one.
pub fn last_slash_index(s: &str) -> (r: Option<usize>)
    ensures
        match r {
            Some(i) => i < s@.len() && s@[i as int] == '/' && (forall|j: int|
                i < j < s@.len() ==> s@[j] != '/'),
            None => forall|j: int| 0 <= j < s@.len() ==> s@[j] != '/',
        },
{
    let n = s.unicode_len();
    let mut i = n;
    while i > 0
        invariant
            i <= n,
            n == s@.len(),
            forall|j: int| i <= j < s@.len() ==> s@[j] != '/',
        decreases i,
    {
        i = i - 1;
        if s.get_char(i) == '/' {
            return Some(i);
        }
    }
    None
}

} // verus!
