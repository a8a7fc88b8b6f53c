//! Character-level helpers shared by the other modules.

use vstd::prelude::*;
use unicode_normalization::UnicodeNormalization;
use crate::scan::{is_white, is_white_char, lines_of, seqs_of, split_lines, take_chars};

verus! {

/// The Unicode Normalization Form C of a character sequence.
pub uninterp spec fn nfc_of(s: Seq<char>) -> Seq<char>;

/// Relies on `unicode_normalization::UnicodeNormalization::nfc`: the result
/// is the NFC form of the input, which depends on the characters alone.
#[verifier::external_body]
fn nfc_string(s: &str) -> (r: String)
    ensures
        r@ == nfc_of(s@),
{
    s.nfc().collect()
}

/// Normalizes a string to Unicode NFC (file systems such as macOS's store
/// paths decomposed; the rest of the client compares composed forms).
pub fn normalize_unicode(s: &str) -> (r: String)
    ensures
        r@ == nfc_of(s@),
{
    nfc_string(s)
}

/// Normalizes a repository or file path to NFC.
pub fn normalize_path(path: &str) -> (r: String)
    ensures
        r@ == nfc_of(path@),
{
    normalize_unicode(path)
}

/// The characters of a string, one per element.
pub fn chars_of(s: &str) -> (r: Vec<char>)
    ensures
        r@ == s@,
{
    let mut out: Vec<char> = Vec::new();
    for c in it: s.chars()
        invariant
            out@ == it.seq().take(it.index() as int),
    {
        out.push(c);
    }
    out
}

/// Relies on `String`'s `FromIterator<char>`: the string holds exactly the
/// given characters, in order.
#[verifier::external_body]
pub(crate) fn string_from_chars(v: &[char]) -> (r: String)
    ensures
        r@ == v@,
{
    v.iter().collect()
}

/// The character of a decimal digit.
pub open spec fn digit_char(d: nat) -> char {
    if d == 0 {
        '0'
    } else if d == 1 {
        '1'
    } else if d == 2 {
        '2'
    } else if d == 3 {
        '3'
    } else if d == 4 {
        '4'
    } else if d == 5 {
        '5'
    } else if d == 6 {
        '6'
    } else if d == 7 {
        '7'
    } else if d == 8 {
        '8'
    } else {
        '9'
    }
}

/// The decimal notation of a number, without leading zeros.
pub open spec fn decimal_of(n: nat) -> Seq<char>
    decreases n,
{
    if n < 10 {
        seq![digit_char(n)]
    } else {
        decimal_of(n / 10).push(digit_char(n % 10))
    }
}

fn digit_exec(d: usize) -> (c: char)
    requires
        d < 10,
    ensures
        c == digit_char(d as nat),
{
    if d == 0 {
        '0'
    } else if d == 1 {
        '1'
    } else if d == 2 {
        '2'
    } else if d == 3 {
        '3'
    } else if d == 4 {
        '4'
    } else if d == 5 {
        '5'
    } else if d == 6 {
        '6'
    } else if d == 7 {
        '7'
    } else if d == 8 {
        '8'
    } else {
        '9'
    }
}

fn push_decimal(n: usize, out: &mut Vec<char>)
    ensures
        final(out)@ == old(out)@ + decimal_of(n as nat),
    decreases n,
{
    if n >= 10 {
        push_decimal(n / 10, out);
    }
    out.push(digit_exec(n % 10));
    proof {
        if n >= 10 {
            assert(final(out)@ =~= old(out)@ + decimal_of(n as nat));
        } else {
            assert(final(out)@ =~= old(out)@ + decimal_of(n as nat));
        }
    }
}

/// The decimal notation of a count (`usize::to_string`).
pub fn decimal(n: usize) -> (r: String)
    ensures
        r@ == decimal_of(n as nat),
{
    let mut v: Vec<char> = Vec::new();
    push_decimal(n, &mut v);
    proof {
        assert(v@ =~= decimal_of(n as nat));
    }
    string_from_chars(v.as_slice())
}

/// `s` without its leading white space.
pub open spec fn trim_start_ws(s: Seq<char>) -> Seq<char>
    decreases s.len(),
{
    if s.len() > 0 && is_white(s[0]) {
        trim_start_ws(s.drop_first())
    } else {
        s
    }
}

/// `s` without its trailing white space.
pub open spec fn trim_end_ws(s: Seq<char>) -> Seq<char>
    decreases s.len(),
{
    if s.len() > 0 && is_white(s.last()) {
        trim_end_ws(s.drop_last())
    } else {
        s
    }
}

/// `str::trim`: `s` without white space at either end.
pub open spec fn trim_ws(s: Seq<char>) -> Seq<char> {
    trim_end_ws(trim_start_ws(s))
}

/// `s` without white space at either end.
pub fn trim(s: &str) -> (r: String)
    ensures
        r@ == trim_ws(s@),
{
    let c = chars_of(s);
    let mut i: usize = 0;
    proof {
        assert(c@.skip(0) =~= c@);
    }
    while i < c.len() && is_white_char(c[i])
        invariant
            i <= c.len(),
            trim_start_ws(c@) == trim_start_ws(c@.skip(i as int)),
        decreases c.len() - i,
    {
        proof {
            assert(c@.skip(i as int).drop_first() =~= c@.skip(i + 1));
        }
        i = i + 1;
    }
    let ghost t = c@.skip(i as int);
    let mut j: usize = c.len();
    proof {
        assert(trim_start_ws(c@) == t);
        assert(t.take(t.len() as int) =~= t);
    }
    while j > i && is_white_char(c[j - 1])
        invariant
            i <= j <= c.len(),
            t == c@.skip(i as int),
            trim_end_ws(t) == trim_end_ws(t.take(j - i)),
        decreases j,
    {
        proof {
            assert(t.take(j - i).drop_last() =~= t.take(j - i - 1));
            assert(t.take(j - i).last() == c@[j - 1]);
        }
        j = j - 1;
    }
    let mut out: Vec<char> = Vec::new();
    let mut k: usize = i;
    while k < j
        invariant
            i <= k <= j <= c.len(),
            out@ == c@.subrange(i as int, k as int),
        decreases j - k,
    {
        out.push(c[k]);
        k = k + 1;
        proof {
            assert(out@ =~= c@.subrange(i as int, k as int));
        }
    }
    proof {
        assert(t.take(j - i) =~= c@.subrange(i as int, j as int));
        if j > i {
            assert(t.take(j - i).last() == c@[j - 1]);
        } else {
            assert(t.take(j - i).len() == 0);
        }
    }
    string_from_chars(out.as_slice())
}

/// The first line of a text (`lines().next()`), empty for an empty text.
pub open spec fn first_line_of(s: Seq<char>) -> Seq<char> {
    if lines_of(s).len() > 0 {
        lines_of(s)[0]
    } else {
        seq![]
    }
}

/// The first line of a text, as the summary of a commit message.
pub fn first_line(s: &str) -> (r: String)
    ensures
        r@ == first_line_of(s@),
{
    let ls = split_lines(&chars_of(s));
    if ls.len() > 0 {
        proof {
            assert(ls@[0]@ == seqs_of(ls@)[0]);
        }
        string_from_chars(ls[0].as_slice())
    } else {
        string_from_chars(Vec::<char>::new().as_slice())
    }
}

/// The abbreviated form of a commit id: its first seven characters.
pub fn short_sha(sha: &str) -> (r: String)
    requires
        sha@.len() >= 7,
    ensures
        r@ == sha@.take(7),
{
    string_from_chars(take_chars(&chars_of(sha), 7).as_slice())
}

/// The text of a signature: `name <email>`.
pub open spec fn signature_of(name: Seq<char>, email: Seq<char>) -> Seq<char> {
    name + " <"@ + email + ">"@
}

/// The text of a signature: `name <email>`.
pub fn signature_text(name: &str, email: &str) -> (r: String)
    ensures
        r@ == signature_of(name@, email@),
{
    let mut s = String::from_str(name);
    s.append(" <");
    s.append(email);
    s.append(">");
    s
}

} // verus!
