//! Character-level helpers shared by the validators and parsers.
use vstd::prelude::*;

verus! {

/// ASCII letter, digit, underscore or hyphen: the characters allowed in
/// module names and base names.
pub open spec fn is_name_char(c: char) -> bool {
    ('a' <= c && c <= 'z') || ('A' <= c && c <= 'Z') || ('0' <= c && c <= '9') || c == '_' || c
        == '-'
}

/// ASCII decimal digit.
pub open spec fn is_digit(c: char) -> bool {
    '0' <= c && c <= '9'
}

/// Every character of `s` is a name character.
pub open spec fn all_name_chars(s: Seq<char>) -> bool {
    forall|i: int| 0 <= i < s.len() ==> is_name_char(#[trigger] s[i])
}

/// Every character of `s` is an ASCII digit.
pub open spec fn all_digits(s: Seq<char>) -> bool {
    forall|i: int| 0 <= i < s.len() ==> is_digit(#[trigger] s[i])
}

/// Every character of `s` is ASCII.
pub open spec fn all_ascii(s: Seq<char>) -> bool {
    forall|i: int| 0 <= i < s.len() ==> (#[trigger] s[i]) < '\x7f' || s[i] == '\x7f'
}

/// The pieces of `s` between occurrences of `sep`, as `str::split` yields them
/// (an empty input yields one empty piece).
pub open spec fn split_on(s: Seq<char>, sep: char) -> Seq<Seq<char>>
    decreases s.len(),
{
    if s.len() == 0 {
        seq![Seq::<char>::empty()]
    } else {
        let r = split_on(s.drop_last(), sep);
        if s.last() == sep {
            r.push(Seq::<char>::empty())
        } else {
            r.update(r.len() - 1, r.last().push(s.last()))
        }
    }
}

/// `split_on` never yields an empty list of pieces.
pub proof fn lemma_split_on_nonempty(s: Seq<char>, sep: char)
    ensures
        split_on(s, sep).len() >= 1,
    decreases s.len(),
{
    if s.len() > 0 {
        lemma_split_on_nonempty(s.drop_last(), sep);
    }
}

/// When every piece of `split_on(s, sep)` is ASCII and `sep` is ASCII, so is `s`.
pub proof fn lemma_split_pieces_ascii(s: Seq<char>, sep: char)
    requires
        sep <= '\x7f',
        forall|k: int|
            0 <= k < split_on(s, sep).len() ==> all_ascii(#[trigger] split_on(s, sep)[k]),
    ensures
        all_ascii(s),
    decreases s.len(),
{
    if s.len() > 0 {
        let r = split_on(s.drop_last(), sep);
        lemma_split_on_nonempty(s.drop_last(), sep);
        if s.last() == sep {
            assert forall|k: int| 0 <= k < r.len() implies all_ascii(#[trigger] r[k]) by {
                assert(split_on(s, sep)[k] == r[k]);
            }
        } else {
            let nl = split_on(s, sep)[r.len() - 1];
            assert(nl == r.last().push(s.last()));
            assert forall|k: int| 0 <= k < r.len() implies all_ascii(#[trigger] r[k]) by {
                if k < r.len() - 1 {
                    assert(split_on(s, sep)[k] == r[k]);
                } else {
                    assert forall|i: int| 0 <= i < r[k].len() implies (#[trigger] r[k][i])
                        < '\x7f' || r[k][i] == '\x7f' by {
                        assert(nl[i] == r[k][i]);
                    }
                }
            }
            assert(nl[nl.len() - 1] == s.last());
        }
        lemma_split_pieces_ascii(s.drop_last(), sep);
        assert forall|i: int| 0 <= i < s.len() implies (#[trigger] s[i]) < '\x7f' || s[i]
            == '\x7f' by {
            if i < s.len() - 1 {
                assert(s.drop_last()[i] == s[i]);
            }
        }
    }
}

/// Digits are ASCII.
pub proof fn lemma_digits_ascii(s: Seq<char>)
    requires
        all_digits(s),
    ensures
        all_ascii(s),
{
    assert forall|i: int| 0 <= i < s.len() implies (#[trigger] s[i]) < '\x7f' || s[i]
        == '\x7f' by {
        assert(is_digit(s[i]));
    }
}

/// Name characters are ASCII.
pub proof fn lemma_name_chars_ascii(s: Seq<char>)
    requires
        all_name_chars(s),
    ensures
        all_ascii(s),
{
    assert forall|i: int| 0 <= i < s.len() implies (#[trigger] s[i]) < '\x7f' || s[i]
        == '\x7f' by {
        assert(is_name_char(s[i]));
    }
}

/// `s` begins with `p`.
pub open spec fn has_prefix(s: Seq<char>, p: Seq<char>) -> bool {
    p.len() <= s.len() && s.take(p.len() as int) == p
}

/// `s` ends with `p`.
pub open spec fn has_suffix(s: Seq<char>, p: Seq<char>) -> bool {
    p.len() <= s.len() && s.skip(s.len() - p.len()) == p
}

/// Collects the characters of `s` into a vector.
pub fn chars_of(s: &str) -> (r: Vec<char>)
    ensures
        r@ == s@,
{
    let mut r: Vec<char> = Vec::new();
    for c in it: s.chars()
        invariant
            r@ == it.seq().take(it.index() as int),
    {
        r.push(c);
    }
    r
}

/// Executable form of [`is_name_char`].
pub fn name_char(c: char) -> (r: bool)
    ensures
        r == is_name_char(c),
{
    ('a' <= c && c <= 'z') || ('A' <= c && c <= 'Z') || ('0' <= c && c <= '9') || c == '_' || c
        == '-'
}

/// Executable form of [`is_digit`].
pub fn digit_char(c: char) -> (r: bool)
    ensures
        r == is_digit(c),
{
    '0' <= c && c <= '9'
}

/// Whether every character of `s` is a name character.
pub fn only_name_chars(s: &Vec<char>) -> (r: bool)
    ensures
        r == all_name_chars(s@),
{
    let mut i: usize = 0;
    while i < s.len()
        invariant
            i <= s.len(),
            all_name_chars(s@.take(i as int)),
        decreases s.len() - i,
    {
        if !name_char(s[i]) {
            return false;
        }
        assert(s@.take(i + 1) =~= s@.take(i as int).push(s@[i as int]));
        i = i + 1;
    }
    assert(s@.take(i as int) =~= s@);
    true
}

/// Whether every character of `s` is an ASCII digit.
pub fn only_digits(s: &Vec<char>) -> (r: bool)
    ensures
        r == all_digits(s@),
{
    let mut i: usize = 0;
    while i < s.len()
        invariant
            i <= s.len(),
            all_digits(s@.take(i as int)),
        decreases s.len() - i,
    {
        if !digit_char(s[i]) {
            return false;
        }
        assert(s@.take(i + 1) =~= s@.take(i as int).push(s@[i as int]));
        i = i + 1;
    }
    assert(s@.take(i as int) =~= s@);
    true
}

/// Splits a character vector at every occurrence of `sep`.
pub fn split_chars(s: &Vec<char>, sep: char) -> (r: Vec<Vec<char>>)
    ensures
        r@.len() == split_on(s@, sep).len(),
        forall|k: int| 0 <= k < r@.len() ==> (#[trigger] r@[k])@ == split_on(s@, sep)[k],
{
    let mut parts: Vec<Vec<char>> = Vec::new();
    let mut cur: Vec<char> = Vec::new();
    let mut i: usize = 0;
    while i < s.len()
        invariant
            i <= s.len(),
            parts@.len() + 1 == split_on(s@.take(i as int), sep).len(),
            forall|k: int|
                0 <= k < parts@.len() ==> (#[trigger] parts@[k])@ == split_on(
                    s@.take(i as int),
                    sep,
                )[k],
            cur@ == split_on(s@.take(i as int), sep).last(),
        decreases s.len() - i,
    {
        proof {
            lemma_split_on_nonempty(s@.take(i as int), sep);
            assert(s@.take(i + 1).drop_last() =~= s@.take(i as int));
        }
        if s[i] == sep {
            parts.push(cur);
            cur = Vec::new();
        } else {
            cur.push(s[i]);
        }
        i = i + 1;
    }
    parts.push(cur);
    assert(s@.take(i as int) =~= s@);
    parts
}

/// Whether two texts are equal, character by character.
pub fn same_text(a: &str, b: &str) -> (r: bool)
    ensures
        r == (a@ == b@),
{
    let x = chars_of(a);
    let y = chars_of(b);
    if x.len() != y.len() {
        return false;
    }
    let mut i: usize = 0;
    while i < x.len()
        invariant
            i <= x.len(),
            x@.len() == y@.len(),
            x@ == a@,
            y@ == b@,
            forall|j: int| 0 <= j < i ==> x@[j] == y@[j],
        decreases x.len() - i,
    {
        if x[i] != y[i] {
            return false;
        }
        i = i + 1;
    }
    assert(x@ =~= y@);
    true
}

/// The decimal digits, in order.
pub open spec fn digit_chars() -> Seq<char> {
    seq!['0', '1', '2', '3', '4', '5', '6', '7', '8', '9']
}

/// The decimal text of `n`, as `usize`'s `Display` writes it.
pub open spec fn decimal_text(n: nat) -> Seq<char>
    decreases n,
{
    if n < 10 {
        seq![digit_chars()[n as int]]
    } else {
        decimal_text(n / 10).push(digit_chars()[(n % 10) as int])
    }
}

/// The decimal text of `n`.
pub fn decimal_string(n: usize) -> (r: String)
    ensures
        r@ == decimal_text(n as nat),
    decreases n,
{
    let digits = "0123456789";
    proof {
        reveal_strlit("0123456789");
        assert(digits@ == digit_chars());
    }
    if n < 10 {
        String::from_str(digits.substring_char(n, n + 1))
    } else {
        let mut r = decimal_string(n / 10);
        let d = n % 10;
        r.append(digits.substring_char(d, d + 1));
        proof {
            assert(digits@.subrange(d as int, d + 1) =~= seq![digit_chars()[d as int]]);
        }
        r
    }
}

/// A copy of the characters `from..to` of `s`.
pub fn substring(s: &str, from: usize, to: usize) -> (r: String)
    requires
        from <= to <= s@.len(),
    ensures
        r@ == s@.subrange(from as int, to as int),
{
    String::from_str(s.substring_char(from, to))
}

/// Whether `s` ends with `p`.
pub fn ends_with_chars(s: &Vec<char>, p: &Vec<char>) -> (r: bool)
    ensures
        r == has_suffix(s@, p@),
{
    if p.len() > s.len() {
        return false;
    }
    let off = s.len() - p.len();
    let mut i: usize = 0;
    while i < p.len()
        invariant
            i <= p@.len(),
            off + p@.len() == s@.len(),
            s@.len() == s.len(),
            forall|j: int| 0 <= j < i ==> s@[off + j] == p@[j],
        decreases p@.len() - i,
    {
        if s[off + i] != p[i] {
            assert(s@.skip(off as int)[i as int] != p@[i as int]);
            return false;
        }
        i = i + 1;
    }
    assert(s@.skip(off as int) =~= p@);
    true
}

/// Whether `s` begins with `p`.
pub fn starts_with_chars(s: &Vec<char>, p: &Vec<char>) -> (r: bool)
    ensures
        r == has_prefix(s@, p@),
{
    if p.len() > s.len() {
        return false;
    }
    let mut i: usize = 0;
    while i < p.len()
        invariant
            i <= p@.len(),
            p@.len() <= s@.len(),
            forall|j: int| 0 <= j < i ==> s@[j] == p@[j],
        decreases p@.len() - i,
    {
        if s[i] != p[i] {
            assert(s@.take(p@.len() as int)[i as int] != p@[i as int]);
            return false;
        }
        i = i + 1;
    }
    assert(s@.take(p@.len() as int) =~= p@);
    true
}

/// What `format!("{:?}", std::path::Path::new(p))` writes: the path
/// quoted and escaped by its `Debug` implementation.
pub uninterp spec fn spec_path_debug(p: Seq<char>) -> Seq<char>;

/// Renders a path with `Path`'s `Debug` implementation.
///
/// Claimed of std: the text is a function of the path alone.
#[verifier::external_body]
pub(crate) fn path_debug_text(p: &str) -> (r: String)
    ensures
        r@ == spec_path_debug(p@),
{
    format!("{:?}", std::path::Path::new(p))
}

/// Splits `s` at every occurrence of `sep`, as `str::split` does.
pub fn split_str(s: &str, sep: char) -> (r: Vec<String>)
    ensures
        r@.len() == split_on(s@, sep).len(),
        forall|k: int| 0 <= k < r@.len() ==> (#[trigger] r@[k])@ == split_on(s@, sep)[k],
{
    let chars = chars_of(s);
    let mut parts: Vec<String> = Vec::new();
    let mut start: usize = 0;
    let mut i: usize = 0;
    while i < chars.len()
        invariant
            i <= chars@.len(),
            chars@ == s@,
            start <= i,
            parts@.len() + 1 == split_on(s@.take(i as int), sep).len(),
            forall|k: int|
                0 <= k < parts@.len() ==> (#[trigger] parts@[k])@ == split_on(
                    s@.take(i as int),
                    sep,
                )[k],
            s@.subrange(start as int, i as int) == split_on(s@.take(i as int), sep).last(),
        decreases chars@.len() - i,
    {
        proof {
            lemma_split_on_nonempty(s@.take(i as int), sep);
            assert(s@.take(i + 1).drop_last() =~= s@.take(i as int));
            assert(s@.take(i + 1).last() == chars@[i as int]);
        }
        if chars[i] == sep {
            parts.push(substring(s, start, i));
            start = i + 1;
            proof {
                assert(s@.subrange(start as int, i + 1) =~= Seq::<char>::empty());
            }
        } else {
            proof {
                assert(s@.subrange(start as int, i + 1) =~= s@.subrange(start as int, i as int).push(
                    chars@[i as int],
                ));
            }
        }
        i = i + 1;
    }
    parts.push(substring(s, start, i));
    proof {
        assert(s@.take(i as int) =~= s@);
    }
    parts
}

} // verus!
