//! Character and string helpers: whitespace trimming, lexicographic
//! comparison of character sequences, and the two Unicode queries
//! (uppercase detection, lowercasing) that are delegated to the standard
//! library.

use vstd::prelude::*;
use vstd::string::StrSliceExecFns;

verus! {

/// The characters with the Unicode `White_Space` property, the set that
/// `str::trim` removes from the ends of a string.
pub open spec fn is_space_char(c: char) -> bool {
    let n = c as u32;
    ||| n == 0x20
    ||| (0x09 <= n && n <= 0x0D)
    ||| n == 0x85
    ||| n == 0xA0
    ||| n == 0x1680
    ||| (0x2000 <= n && n <= 0x200A)
    ||| n == 0x2028
    ||| n == 0x2029
    ||| n == 0x202F
    ||| n == 0x205F
    ||| n == 0x3000
}

pub fn is_space(c: char) -> (r: bool)
    ensures
        r == is_space_char(c),
{
    let n = c as u32;
    n == 0x20 || (0x09 <= n && n <= 0x0D) || n == 0x85 || n == 0xA0 || n == 0x1680 || (0x2000 <= n
        && n <= 0x200A) || n == 0x2028 || n == 0x2029 || n == 0x202F || n == 0x205F || n == 0x3000
}

/// The sequence with the leading whitespace removed.
pub open spec fn drop_leading_spaces(s: Seq<char>) -> Seq<char>
    decreases s.len(),
{
    if s.len() > 0 && is_space_char(s.first()) {
        drop_leading_spaces(s.drop_first())
    } else {
        s
    }
}

/// The sequence with the trailing whitespace removed.
pub open spec fn drop_trailing_spaces(s: Seq<char>) -> Seq<char>
    decreases s.len(),
{
    if s.len() > 0 && is_space_char(s.last()) {
        drop_trailing_spaces(s.drop_last())
    } else {
        s
    }
}

/// The sequence with both leading and trailing whitespace removed: what
/// `str::trim` leaves of a string.
pub open spec fn trim_spec(s: Seq<char>) -> Seq<char> {
    drop_trailing_spaces(drop_leading_spaces(s))
}

proof fn lemma_drop_leading_spaces(s: Seq<char>, i: int)
    requires
        0 <= i <= s.len(),
        forall|k: int| 0 <= k < i ==> is_space_char(s[k]),
        i < s.len() ==> !is_space_char(s[i]),
    ensures
        drop_leading_spaces(s) == s.skip(i),
    decreases i,
{
    if i == 0 {
        assert(s.skip(0) =~= s);
    } else {
        lemma_drop_leading_spaces(s.drop_first(), i - 1);
        assert(s.drop_first().skip(i - 1) =~= s.skip(i));
    }
}

proof fn lemma_drop_trailing_spaces(s: Seq<char>, j: int)
    requires
        0 <= j <= s.len(),
        forall|k: int| j <= k < s.len() ==> is_space_char(s[k]),
        j > 0 ==> !is_space_char(s[j - 1]),
    ensures
        drop_trailing_spaces(s) == s.take(j),
    decreases s.len() - j,
{
    if j == s.len() {
        assert(s.take(j) =~= s);
    } else {
        lemma_drop_trailing_spaces(s.drop_last(), j);
        assert(s.drop_last().take(j) =~= s.take(j));
    }
}

/// Removes leading and trailing whitespace, as `str::trim` does.
pub fn trim(s: &str) -> (r: String)
    ensures
        r@ == trim_spec(s@),
{
    let n = s.unicode_len();
    let mut i: usize = 0;
    while i < n && is_space(s.get_char(i))
        invariant
            0 <= i <= n,
            n == s@.len(),
            forall|k: int| 0 <= k < i ==> is_space_char(s@[k]),
        decreases n - i,
    {
        i = i + 1;
    }
    let mut j: usize = n;
    while j > i && is_space(s.get_char(j - 1))
        invariant
            i <= j <= n,
            n == s@.len(),
            forall|k: int| 0 <= k < i ==> is_space_char(s@[k]),
            i < s@.len() && i < j ==> !is_space_char(s@[i as int]),
            forall|k: int| j <= k < n ==> is_space_char(s@[k]),
        decreases j,
    {
        j = j - 1;
    }
    let r = s.substring_char(i, j).to_owned();
    proof {
        if i == j {
            // everything is whitespace
            lemma_drop_leading_spaces(s@, n as int);
            lemma_drop_trailing_spaces(s@.skip(n as int), 0);
            assert(s@.skip(n as int).take(0) =~= s@.subrange(i as int, j as int));
        } else {
            lemma_drop_leading_spaces(s@, i as int);
            lemma_drop_trailing_spaces(s@.skip(i as int), j - i);
            assert(s@.skip(i as int).take(j - i) =~= s@.subrange(i as int, j as int));
        }
    }
    r
}

proof fn lemma_drop_leading_spaces_first(s: Seq<char>)
    ensures
        drop_leading_spaces(s).len() > 0 ==> !is_space_char(drop_leading_spaces(s).first()),
    decreases s.len(),
{
    if s.len() > 0 && is_space_char(s.first()) {
        lemma_drop_leading_spaces_first(s.drop_first());
    }
}

proof fn lemma_drop_trailing_spaces_last(s: Seq<char>)
    ensures
        drop_trailing_spaces(s).len() > 0 ==> !is_space_char(drop_trailing_spaces(s).last()),
    decreases s.len(),
{
    if s.len() > 0 && is_space_char(s.last()) {
        lemma_drop_trailing_spaces_last(s.drop_last());
    }
}

proof fn lemma_drop_trailing_spaces_keeps_first(s: Seq<char>)
    ensures
        drop_trailing_spaces(s).len() > 0 ==> s.len() > 0 && drop_trailing_spaces(s).first()
            == s.first(),
    decreases s.len(),
{
    if s.len() > 0 && is_space_char(s.last()) {
        lemma_drop_trailing_spaces_keeps_first(s.drop_last());
    }
}

/// A trimmed sequence trims to itself.
pub proof fn lemma_trim_spec_idempotent(s: Seq<char>)
    ensures
        trim_spec(trim_spec(s)) == trim_spec(s),
{
    let u = drop_leading_spaces(s);
    let t = trim_spec(s);
    lemma_drop_leading_spaces_first(s);
    lemma_drop_trailing_spaces_keeps_first(u);
    lemma_drop_trailing_spaces_last(u);
    if t.len() > 0 {
        assert(!is_space_char(t.first()));
        assert(drop_leading_spaces(t) == t);
        assert(!is_space_char(t.last()));
        assert(drop_trailing_spaces(t) == t);
    }
}

/// A sequence with no whitespace anywhere trims to itself.
pub proof fn lemma_trim_spec_of_spaceless(s: Seq<char>)
    requires
        forall|k: int| 0 <= k < s.len() ==> !is_space_char(#[trigger] s[k]),
    ensures
        trim_spec(s) == s,
{
    lemma_drop_leading_spaces(s, 0);
    assert(s.skip(0) =~= s);
    lemma_drop_trailing_spaces(s, s.len() as int);
    assert(s.take(s.len() as int) =~= s);
}

/// Lexicographic order on character sequences, by Unicode scalar value:
/// the order `str` and `String` comparisons follow.
pub open spec fn lex_le(a: Seq<char>, b: Seq<char>) -> bool
    decreases a.len(),
{
    if a.len() == 0 {
        true
    } else if b.len() == 0 {
        false
    } else if (a.first() as u32) < (b.first() as u32) {
        true
    } else if (a.first() as u32) > (b.first() as u32) {
        false
    } else {
        lex_le(a.drop_first(), b.drop_first())
    }
}

/// `lex_le` is total: any two sequences compare one way or the other.
pub proof fn lemma_lex_le_total(a: Seq<char>, b: Seq<char>)
    ensures
        lex_le(a, b) || lex_le(b, a),
    decreases a.len(),
{
    if a.len() > 0 && b.len() > 0 && (a.first() as u32) == (b.first() as u32) {
        lemma_lex_le_total(a.drop_first(), b.drop_first());
    }
}

/// `lex_le` is transitive.
pub proof fn lemma_lex_le_trans(a: Seq<char>, b: Seq<char>, c: Seq<char>)
    requires
        lex_le(a, b),
        lex_le(b, c),
    ensures
        lex_le(a, c),
    decreases a.len(),
{
    if a.len() > 0 && b.len() > 0 && c.len() > 0 && (a.first() as u32) == (b.first() as u32) && (
    b.first() as u32) == (c.first() as u32) {
        lemma_lex_le_trans(a.drop_first(), b.drop_first(), c.drop_first());
    }
}

/// Decides `lex_le` on string slices.
pub fn str_lex_le(a: &str, b: &str) -> (r: bool)
    ensures
        r == lex_le(a@, b@),
{
    let alen = a.unicode_len();
    let blen = b.unicode_len();
    let mut i: usize = 0;
    proof {
        assert(a@.skip(0) =~= a@);
        assert(b@.skip(0) =~= b@);
    }
    loop
        invariant
            i <= alen,
            i <= blen,
            alen == a@.len(),
            blen == b@.len(),
            lex_le(a@, b@) == lex_le(a@.skip(i as int), b@.skip(i as int)),
        decreases alen - i,
    {
        if i >= alen {
            return true;
        }
        if i >= blen {
            return false;
        }
        let na = a.get_char(i) as u32;
        let nb = b.get_char(i) as u32;
        if na < nb {
            return true;
        }
        if na > nb {
            return false;
        }
        proof {
            assert(a@.skip(i as int).drop_first() =~= a@.skip(i + 1));
            assert(b@.skip(i as int).drop_first() =~= b@.skip(i + 1));
        }
        i = i + 1;
    }
}

/// The character for a single decimal digit.
pub open spec fn digit_char(d: nat) -> char {
    ((0x30 + d) as char)
}

/// The decimal rendering of a natural number, most significant digit
/// first, with no leading zeros.
pub open spec fn dec_str(n: nat) -> Seq<char>
    decreases n,
{
    if n < 10 {
        seq![digit_char(n)]
    } else {
        dec_str(n / 10).push(digit_char(n % 10))
    }
}

fn push_digit(s: &mut String, d: u64)
    requires
        d < 10,
    ensures
        final(s)@ == old(s)@.push(digit_char(d as nat)),
{
    proof {
        reveal_strlit("0");
        reveal_strlit("1");
        reveal_strlit("2");
        reveal_strlit("3");
        reveal_strlit("4");
        reveal_strlit("5");
        reveal_strlit("6");
        reveal_strlit("7");
        reveal_strlit("8");
        reveal_strlit("9");
    }
    match d {
        0 => s.append("0"),
        1 => s.append("1"),
        2 => s.append("2"),
        3 => s.append("3"),
        4 => s.append("4"),
        5 => s.append("5"),
        6 => s.append("6"),
        7 => s.append("7"),
        8 => s.append("8"),
        _ => s.append("9"),
    }
    proof {
        assert(final(s)@ =~= old(s)@.push(digit_char(d as nat)));
    }
}

/// Renders a number in decimal.
pub fn u64_to_string(n: u64) -> (r: String)
    ensures
        r@ == dec_str(n as nat),
    decreases n,
{
    if n < 10 {
        let mut s = String::new();
        push_digit(&mut s, n);
        proof {
            assert(s@ =~= dec_str(n as nat));
        }
        s
    } else {
        let mut s = u64_to_string(n / 10);
        push_digit(&mut s, n % 10);
        s
    }
}

/// Whether a character has the Unicode `Uppercase` property.
pub uninterp spec fn uppercase_char(c: char) -> bool;

/// Relies on `char::is_uppercase`: whether a character is uppercase is a
/// property of the character alone.
#[verifier::external_body]
pub(crate) fn char_is_uppercase(c: char) -> (r: bool)
    ensures
        r == uppercase_char(c),
{
    c.is_uppercase()
}

/// The lowercase form of a character sequence, as `str::to_lowercase`
/// produces it.
pub uninterp spec fn lower_of(s: Seq<char>) -> Seq<char>;

/// Relies on `str::to_lowercase`: the lowercase form of a string depends on
/// its characters alone.
#[verifier::external_body]
pub(crate) fn to_lowercase(s: &str) -> (r: String)
    ensures
        r@ == lower_of(s@),
{
    s.to_lowercase()
}

} // verus!
