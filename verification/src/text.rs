//! Text as the plugin needs it: ASCII case folding, trimming, decimal
//! numbers and language-tag prefixes, each proved against a model over
//! `Seq<char>`.

use vstd::prelude::*;
use vstd::string::*;

verus! {

/// `String::push`: appends one character and changes nothing else.
pub assume_specification[ String::push ](s: &mut String, c: char)
    ensures
        final(s)@ == old(s)@.push(c),
;

/// The texts of a list, as sequences of characters.
pub open spec fn text_views(texts: Seq<String>) -> Seq<Seq<char>> {
    texts.map_values(|t: String| t@)
}

/// `c` with `A`..`Z` mapped to `a`..`z`; every other character unchanged.
pub open spec fn ascii_lower(c: char) -> char {
    if 'A' <= c && c <= 'Z' {
        ((c as u8) + 32) as char
    } else {
        c
    }
}

/// `c` with `a`..`z` mapped to `A`..`Z`; every other character unchanged.
pub open spec fn ascii_upper(c: char) -> char {
    if 'a' <= c && c <= 'z' {
        ((c as u8) - 32) as char
    } else {
        c
    }
}

/// A text in ASCII lower case.
pub open spec fn lower_text(s: Seq<char>) -> Seq<char> {
    s.map_values(|c: char| ascii_lower(c))
}

/// A text in ASCII upper case.
pub open spec fn upper_text(s: Seq<char>) -> Seq<char> {
    s.map_values(|c: char| ascii_upper(c))
}

/// Two texts that differ in nothing but the case of ASCII letters.
pub open spec fn same_ignoring_case(a: Seq<char>, b: Seq<char>) -> bool {
    lower_text(a) == lower_text(b)
}

/// The characters of the Unicode property `White_Space`.
pub open spec fn is_white_space(c: char) -> bool {
    ||| '\u{9}' <= c && c <= '\u{d}'
    ||| c == '\u{20}'
    ||| c == '\u{85}'
    ||| c == '\u{a0}'
    ||| c == '\u{1680}'
    ||| '\u{2000}' <= c && c <= '\u{200a}'
    ||| c == '\u{2028}'
    ||| c == '\u{2029}'
    ||| c == '\u{202f}'
    ||| c == '\u{205f}'
    ||| c == '\u{3000}'
}

/// A text without the white space at its two ends.
pub open spec fn trimmed(s: Seq<char>) -> Seq<char>
    decreases s.len(),
{
    if s.len() == 0 {
        s
    } else if is_white_space(s.first()) {
        trimmed(s.drop_first())
    } else if is_white_space(s.last()) {
        trimmed(s.drop_last())
    } else {
        s
    }
}

/// The character of a decimal digit.
pub open spec fn digit(n: nat) -> char {
    (48 + n) as char
}

/// A natural number in decimal, without leading zeros.
pub open spec fn decimal(n: nat) -> Seq<char>
    decreases n,
{
    if n < 10 {
        seq![digit(n)]
    } else {
        decimal(n / 10).push(digit(n % 10))
    }
}

/// An integer in decimal, with a minus sign where it is negative.
pub open spec fn signed_decimal(n: int) -> Seq<char> {
    if n < 0 {
        seq!['-'] + decimal((-n) as nat)
    } else {
        decimal(n as nat)
    }
}

/// How many characters stand before the first `-` of a text; all of them
/// where it has none.
pub open spec fn prefix_len(s: Seq<char>) -> nat
    decreases s.len(),
{
    if s.len() == 0 || s.first() == '-' {
        0
    } else {
        1 + prefix_len(s.drop_first())
    }
}

/// The part of a language tag before its first `-` ("pt" of "pt-BR").
pub open spec fn language_prefix(s: Seq<char>) -> Seq<char> {
    s.take(prefix_len(s) as int)
}

/// The prefix ends at the first `-`: no earlier character is one.
pub proof fn lemma_prefix_len(s: Seq<char>)
    ensures
        prefix_len(s) <= s.len(),
        prefix_len(s) < s.len() ==> s[prefix_len(s) as int] == '-',
        forall|i: int| 0 <= i < prefix_len(s) ==> s[i] != '-',
    decreases s.len(),
{
    if s.len() != 0 && s.first() != '-' {
        lemma_prefix_len(s.drop_first());
        assert forall|i: int| 0 <= i < prefix_len(s) implies s[i] != '-' by {
            if i > 0 {
                assert(s.drop_first()[i - 1] == s[i]);
            }
        }
    }
}

/// An index that ends at a `-`, or at the end, with no `-` before it, is the
/// length of the prefix.
pub proof fn lemma_prefix_len_unique(s: Seq<char>, n: int)
    requires
        0 <= n <= s.len(),
        n < s.len() ==> s[n] == '-',
        forall|i: int| 0 <= i < n ==> s[i] != '-',
    ensures
        prefix_len(s) == n,
{
    lemma_prefix_len(s);
}

/// The characters of a text, in order.
pub fn chars_of(s: &str) -> (v: Vec<char>)
    ensures
        v@ == s@,
{
    let mut v: Vec<char> = Vec::new();
    for c in it: s.chars()
        invariant
            it.seq() == s@,
            v@ == s@.take(it.index()),
    {
        v.push(c);
        assert(s@.take(it.index() + 1) == s@.take(it.index()).push(c));
    }
    assert(s@.take(s@.len() as int) == s@);
    v
}

/// The text made of the given characters.
pub fn string_of(v: &Vec<char>) -> (s: String)
    ensures
        s@ == v@,
{
    let mut s: String = String::new();
    for i in 0..v.len()
        invariant
            s@ == v@.take(i as int),
    {
        s.push(v[i]);
        assert(v@.take(i + 1) == v@.take(i as int).push(v@[i as int]));
    }
    assert(v@.take(v@.len() as int) == v@);
    s
}

/// Whether two character vectors hold the same text.
fn same_chars(a: &Vec<char>, b: &Vec<char>) -> (same: bool)
    ensures
        same == (a@ == b@),
{
    if a.len() != b.len() {
        return false;
    }
    for i in 0..a.len()
        invariant
            a@.len() == b@.len(),
            forall|j: int| 0 <= j < i ==> a@[j] == b@[j],
    {
        if a[i] != b[i] {
            return false;
        }
    }
    assert(a@ =~= b@);
    true
}

/// Whether two texts are equal.
pub fn same_text(a: &str, b: &str) -> (same: bool)
    ensures
        same == (a@ == b@),
{
    same_chars(&chars_of(a), &chars_of(b))
}

/// Whether the character `c` occurs in `s`.
pub fn contains_char(s: &str, c: char) -> (found: bool)
    ensures
        found == s@.contains(c),
{
    let v = chars_of(s);
    for i in 0..v.len()
        invariant
            v@ == s@,
            forall|j: int| 0 <= j < i ==> v@[j] != c,
    {
        if v[i] == c {
            assert(s@[i as int] == c);
            return true;
        }
    }
    false
}

/// `c` in ASCII lower case.
fn lower_char(c: char) -> (r: char)
    ensures
        r == ascii_lower(c),
{
    if 'A' <= c && c <= 'Z' {
        ((c as u8) + 32) as char
    } else {
        c
    }
}

/// `c` in ASCII upper case.
fn upper_char(c: char) -> (r: char)
    ensures
        r == ascii_upper(c),
{
    if 'a' <= c && c <= 'z' {
        ((c as u8) - 32) as char
    } else {
        c
    }
}

/// The characters of `s` in ASCII lower case.
fn lower_chars(s: &str) -> (r: Vec<char>)
    ensures
        r@ == lower_text(s@),
{
    let v = chars_of(s);
    let mut r: Vec<char> = Vec::new();
    for i in 0..v.len()
        invariant
            v@ == s@,
            r@.len() == i,
            forall|j: int| 0 <= j < i ==> r@[j] == ascii_lower(s@[j]),
    {
        r.push(lower_char(v[i]));
    }
    assert(r@ =~= lower_text(s@));
    r
}

/// `s` in ASCII lower case.
pub fn to_ascii_lowercase(s: &str) -> (r: String)
    ensures
        r@ == lower_text(s@),
{
    string_of(&lower_chars(s))
}

/// `s` in ASCII upper case.
pub fn to_ascii_uppercase(s: &str) -> (r: String)
    ensures
        r@ == upper_text(s@),
{
    let v = chars_of(s);
    let mut r: String = String::new();
    for i in 0..v.len()
        invariant
            v@ == s@,
            r@.len() == i,
            forall|j: int| 0 <= j < i ==> r@[j] == ascii_upper(s@[j]),
    {
        r.push(upper_char(v[i]));
    }
    assert(r@ =~= upper_text(s@));
    r
}

/// Whether two texts are equal up to the case of ASCII letters.
pub fn eq_ignore_ascii_case(a: &str, b: &str) -> (same: bool)
    ensures
        same == same_ignoring_case(a@, b@),
{
    same_chars(&lower_chars(a), &lower_chars(b))
}

/// Whether `c` is white space.
fn white_space(c: char) -> (r: bool)
    ensures
        r == is_white_space(c),
{
    ('\u{9}' <= c && c <= '\u{d}') || c == '\u{20}' || c == '\u{85}' || c == '\u{a0}' || c
        == '\u{1680}' || ('\u{2000}' <= c && c <= '\u{200a}') || c == '\u{2028}' || c == '\u{2029}'
        || c == '\u{202f}' || c == '\u{205f}' || c == '\u{3000}'
}

/// `s` without the white space at its two ends.
pub fn trim(s: &str) -> (r: String)
    ensures
        r@ == trimmed(s@),
{
    let v = chars_of(s);
    let mut i: usize = 0;
    let mut j: usize = v.len();
    assert(v@.subrange(0, j as int) =~= s@);
    while i < j && white_space(v[i])
        invariant
            i <= j == v@.len(),
            trimmed(v@.subrange(i as int, j as int)) == trimmed(s@),
        decreases j - i,
    {
        assert(v@.subrange(i as int, j as int).drop_first() =~= v@.subrange(i + 1, j as int));
        i = i + 1;
    }
    while i < j && white_space(v[j - 1])
        invariant
            i <= j <= v@.len(),
            i < j ==> !is_white_space(v@[i as int]),
            trimmed(v@.subrange(i as int, j as int)) == trimmed(s@),
        decreases j - i,
    {
        assert(v@.subrange(i as int, j as int).drop_last() =~= v@.subrange(i as int, j - 1));
        j = j - 1;
    }
    let mut r: String = String::new();
    let mut k: usize = i;
    while k < j
        invariant
            i <= k <= j <= v@.len(),
            r@ == v@.subrange(i as int, k as int),
        decreases j - k,
    {
        r.push(v[k]);
        assert(v@.subrange(i as int, k + 1) =~= v@.subrange(i as int, k as int).push(
            v@[k as int],
        ));
        k = k + 1;
    }
    r
}

/// The part of `s` before its first `-`.
pub fn prefix_of(s: &str) -> (r: String)
    ensures
        r@ == language_prefix(s@),
{
    let v = chars_of(s);
    let mut r: String = String::new();
    let mut n: usize = 0;
    while n < v.len() && v[n] != '-'
        invariant
            v@ == s@,
            n <= v@.len(),
            r@ == s@.take(n as int),
            forall|i: int| 0 <= i < n ==> s@[i] != '-',
        decreases v@.len() - n,
    {
        r.push(v[n]);
        assert(s@.take(n + 1) =~= s@.take(n as int).push(s@[n as int]));
        n = n + 1;
    }
    proof {
        lemma_prefix_len_unique(s@, n as int);
    }
    r
}

/// `n` in decimal.
pub fn decimal_of(n: u64) -> (r: String)
    ensures
        r@ == decimal(n as nat),
    decreases n,
{
    let last: u8 = 48 + (n % 10) as u8;
    let mut r: String = if n < 10 {
        String::new()
    } else {
        decimal_of(n / 10)
    };
    r.push(last as char);
    assert(n < 10 ==> r@ =~= seq![digit(n as nat)]);
    r
}

/// `n` in decimal, with a minus sign where it is negative.
pub fn signed_decimal_of(n: i32) -> (r: String)
    ensures
        r@ == signed_decimal(n as int),
{
    if n < 0 {
        let magnitude: i64 = -(n as i64);
        let digits = decimal_of(magnitude as u64);
        let mut r: String = String::new();
        r.push('-');
        r.append(digits.as_str());
        assert(r@ =~= seq!['-'] + decimal((-(n as int)) as nat));
        r
    } else {
        decimal_of(n as u64)
    }
}

/// The number that a text of decimal digits stands for.
pub open spec fn number_of(digits: Seq<char>) -> int
    decreases digits.len(),
{
    if digits.len() == 0 {
        0
    } else {
        10 * number_of(digits.drop_last()) + (digits.last() as int - '0' as int)
    }
}

/// A number in decimal reads back as that number, consists of digits alone,
/// and does not begin with a zero unless it is zero.
pub proof fn law_decimal_reads_back(n: nat)
    ensures
        number_of(decimal(n)) == n,
        decimal(n).len() > 0,
        forall|i: int| 0 <= i < decimal(n).len() ==> '0' <= #[trigger] decimal(n)[i] <= '9',
        n > 0 ==> decimal(n)[0] != '0',
        n == 0 ==> decimal(n) == seq!['0'],
    decreases n,
{
    if n < 10 {
        assert(decimal(n).drop_last() =~= Seq::<char>::empty());
        assert(number_of(decimal(n).drop_last()) == 0);
    } else {
        law_decimal_reads_back(n / 10);
        assert(decimal(n).drop_last() =~= decimal(n / 10));
    }
}

/// An integer in decimal has a minus sign exactly where it is negative, and
/// its digits read back as its magnitude.
pub proof fn law_signed_decimal_reads_back(n: int)
    ensures
        n >= 0 ==> number_of(signed_decimal(n)) == n && signed_decimal(n)[0] != '-',
        n < 0 ==> signed_decimal(n)[0] == '-' && number_of(signed_decimal(n).drop_first()) == -n
            && signed_decimal(n)[1] != '0',
{
    if n < 0 {
        law_decimal_reads_back((-n) as nat);
        assert(signed_decimal(n).drop_first() =~= decimal((-n) as nat));
    } else {
        law_decimal_reads_back(n as nat);
    }
}

/// Case folding keeps the length of a text and changes ASCII letters alone:
/// capitals lie thirty-two below their small letters.
pub proof fn law_case_folding_changes_letters_alone(s: Seq<char>, i: int)
    requires
        0 <= i < s.len(),
    ensures
        lower_text(s).len() == s.len(),
        upper_text(s).len() == s.len(),
        lower_text(s)[i] as int == (if 65 <= s[i] as int <= 90 {
            s[i] as int + 32
        } else {
            s[i] as int
        }),
        upper_text(s)[i] as int == (if 97 <= s[i] as int <= 122 {
            s[i] as int - 32
        } else {
            s[i] as int
        }),
{
}

/// Whether two characters are a capital and its small letter.
pub open spec fn are_cases_of_a_letter(c: char, d: char) -> bool {
    ||| 65 <= c as int <= 90 && d as int == c as int + 32
    ||| 65 <= d as int <= 90 && c as int == d as int + 32
}

/// Two texts agree up to case exactly when they are equally long and differ, if
/// at all, in the case of letters.
pub proof fn law_agreement_up_to_case(a: Seq<char>, b: Seq<char>)
    ensures
        same_ignoring_case(a, b) <==> a.len() == b.len() && forall|i: int|
            0 <= i < a.len() ==> #[trigger] a[i] == b[i] || are_cases_of_a_letter(a[i], b[i]),
{
    let (la, lb) = (lower_text(a), lower_text(b));
    if same_ignoring_case(a, b) {
        assert(la.len() == lb.len());
        assert forall|i: int| 0 <= i < a.len() implies #[trigger] a[i] == b[i]
            || are_cases_of_a_letter(a[i], b[i]) by {
            assert(la[i] == lb[i]);
        }
    } else if a.len() == b.len() && forall|i: int|
        0 <= i < a.len() ==> #[trigger] a[i] == b[i] || are_cases_of_a_letter(a[i], b[i]) {
        assert forall|i: int| 0 <= i < la.len() implies la[i] == lb[i] by {
            assert(a[i] == b[i] || are_cases_of_a_letter(a[i], b[i]));
        }
        assert(la =~= lb);
    }
}

/// White space, by code point.
pub proof fn law_white_space_by_code_point(c: char)
    ensures
        is_white_space(c) <==> (9 <= c as int <= 13 || c as int == 32 || c as int == 133 || c as int
            == 160 || c as int == 5760 || 8192 <= c as int <= 8202 || c as int == 8232 || c as int
            == 8233 || c as int == 8239 || c as int == 8287 || c as int == 12288),
{
}

/// Whether all of a text before `i` and from `j` on is white space.
pub open spec fn is_white_outside(s: Seq<char>, i: int, j: int) -> bool {
    &&& 0 <= i <= j <= s.len()
    &&& forall|k: int| 0 <= k < i ==> is_white_space(#[trigger] s[k])
    &&& forall|k: int| j <= k < s.len() ==> is_white_space(#[trigger] s[k])
}

/// White space in front adds to the white space in front.
proof fn lemma_white_front(s: Seq<char>, i: int, j: int)
    requires
        s.len() > 0,
        is_white_space(s.first()),
        is_white_outside(s.drop_first(), i, j),
    ensures
        is_white_outside(s, i + 1, j + 1),
        s.subrange(i + 1, j + 1) == s.drop_first().subrange(i, j),
{
    let rest = s.drop_first();
    assert forall|k: int| 0 <= k < i + 1 implies is_white_space(#[trigger] s[k]) by {
        if k > 0 {
            assert(rest[k - 1] == s[k]);
        }
    }
    assert forall|k: int| j + 1 <= k < s.len() implies is_white_space(#[trigger] s[k]) by {
        assert(rest[k - 1] == s[k]);
    }
    assert(s.subrange(i + 1, j + 1) =~= rest.subrange(i, j));
}

/// White space at the end adds to the white space at the end.
proof fn lemma_white_end(s: Seq<char>, i: int, j: int)
    requires
        s.len() > 0,
        is_white_space(s.last()),
        is_white_outside(s.drop_last(), i, j),
    ensures
        is_white_outside(s, i, j),
        s.subrange(i, j) == s.drop_last().subrange(i, j),
{
    let rest = s.drop_last();
    assert forall|k: int| 0 <= k < i implies is_white_space(#[trigger] s[k]) by {
        assert(rest[k] == s[k]);
    }
    assert forall|k: int| j <= k < s.len() implies is_white_space(#[trigger] s[k]) by {
        if k < rest.len() {
            assert(rest[k] == s[k]);
        }
    }
    assert(s.subrange(i, j) =~= rest.subrange(i, j));
}

/// Trimming takes nothing but white space away, at the two ends alone, and
/// leaves none there.
pub proof fn law_trimming_takes_white_space_alone(s: Seq<char>)
    ensures
        exists|i: int, j: int| #[trigger]
            is_white_outside(s, i, j) && trimmed(s) == s.subrange(i, j),
        trimmed(s).len() > 0 ==> !is_white_space(trimmed(s).first()) && !is_white_space(
            trimmed(s).last(),
        ),
    decreases s.len(),
{
    if s.len() == 0 {
        assert(is_white_outside(s, 0, 0));
        assert(s.subrange(0, 0) =~= s);
    } else if is_white_space(s.first()) {
        let rest = s.drop_first();
        law_trimming_takes_white_space_alone(rest);
        let (i, j) = choose|i: int, j: int| #[trigger]
            is_white_outside(rest, i, j) && trimmed(rest) == rest.subrange(i, j);
        lemma_white_front(s, i, j);
    } else if is_white_space(s.last()) {
        let rest = s.drop_last();
        law_trimming_takes_white_space_alone(rest);
        let (i, j) = choose|i: int, j: int| #[trigger]
            is_white_outside(rest, i, j) && trimmed(rest) == rest.subrange(i, j);
        lemma_white_end(s, i, j);
    } else {
        assert(is_white_outside(s, 0, s.len() as int));
        assert(s.subrange(0, s.len() as int) =~= s);
    }
}

/// The language of a tag is what stands before its first `-`, or the whole tag
/// where it has none.
pub proof fn law_language_ends_at_the_first_hyphen(tag: Seq<char>)
    ensures
        ({
            let language = language_prefix(tag);
            &&& language.len() <= tag.len()
            &&& language == tag.take(language.len() as int)
            &&& !language.contains('-')
            &&& language.len() < tag.len() ==> tag[language.len() as int] == '-'
        }),
{
    lemma_prefix_len(tag);
}

/// The texts that are told are those that there are, one for one.
pub proof fn law_every_text_is_told(texts: Seq<String>, i: int)
    requires
        0 <= i < texts.len(),
    ensures
        text_views(texts).len() == texts.len(),
        text_views(texts)[i] == texts[i]@,
{
}

} // verus!
