//! Character sequences: searching, trimming and splitting into words.
//!
//! Every executable function here works on a slice of characters and is
//! specified over the slice's view, a `Seq<char>`.

use vstd::prelude::*;
use vstd::slice::slice_subrange;

verus! {

/// The characters of `s`, in order.
pub fn chars_of(s: &str) -> (v: Vec<char>)
    ensures
        v@ == s@,
{
    let mut v: Vec<char> = Vec::new();
    for c in it: s.chars()
        invariant
            v@ == it.seq().take(it.index() as int),
    {
        v.push(c);
    }
    v
}

/// The texts of a list of strings.
pub open spec fn views(v: Seq<String>) -> Seq<Seq<char>> {
    v.map_values(|s: String| s@)
}

/// The texts of `parts` in one text, with `sep` between each two.
pub open spec fn joined(parts: Seq<Seq<char>>, sep: Seq<char>) -> Seq<char>
    decreases parts.len(),
{
    if parts.len() == 0 {
        Seq::empty()
    } else if parts.len() == 1 {
        parts[0]
    } else {
        joined(parts.drop_last(), sep) + sep + parts.last()
    }
}

/// Adds a copy of `s` at the end of `list`.
pub fn push_text(list: &mut Vec<String>, s: &str)
    ensures
        views(final(list)@) == views(old(list)@).push(s@),
{
    list.push(s.to_owned());
}

/// The strings of `parts` in one string, with `sep` between each two.
pub fn join(parts: &Vec<String>, sep: &str) -> (r: String)
    ensures
        r@ == joined(views(parts@), sep@),
{
    let mut r = String::new();
    let mut i: usize = 0;
    while i < parts.len()
        invariant
            i <= parts.len(),
            r@ == joined(views(parts@).take(i as int), sep@),
        decreases parts.len() - i,
    {
        if i > 0 {
            r.append(sep);
        }
        r.append(parts[i].as_str());
        proof {
            let next = views(parts@).take(i + 1);
            assert(next.drop_last() == views(parts@).take(i as int));
            if i == 0 {
            }
        }
        i += 1;
    }
    assert(views(parts@).take(parts@.len() as int) == views(parts@));
    r
}

/// The text that a run of bytes stands for when each byte is one
/// character, the one with the byte's number.
pub open spec fn latin1(bytes: Seq<u8>) -> Seq<char> {
    bytes.map_values(|b: u8| b as char)
}

/// The characters that the bytes stand for, one for each byte.
pub fn decode_latin1(bytes: &[u8]) -> (v: Vec<char>)
    ensures
        v@ == latin1(bytes@),
{
    let mut v: Vec<char> = Vec::new();
    let mut i: usize = 0;
    while i < bytes.len()
        invariant
            i <= bytes.len(),
            v@ == latin1(bytes@.take(i as int)),
        decreases bytes.len() - i,
    {
        v.push(bytes[i] as char);
        i += 1;
    }
    v
}

/// An index into a sequence as a mathematical integer.
pub open spec fn index_view(r: Option<usize>) -> Option<int> {
    match r {
        Some(i) => Some(i as int),
        None => None,
    }
}

/// Whether `needle` stands in `hay` at index `at`.
pub open spec fn occurs_at(hay: Seq<char>, needle: Seq<char>, at: int) -> bool {
    &&& 0 <= at
    &&& at + needle.len() <= hay.len()
    &&& hay.subrange(at, at + needle.len()) == needle
}

/// Whether `needle` stands somewhere in `hay`.
pub open spec fn contains(hay: Seq<char>, needle: Seq<char>) -> bool {
    exists|at: int| occurs_at(hay, needle, at)
}

/// Whether `hay` begins with `needle`.
pub open spec fn starts_with(hay: Seq<char>, needle: Seq<char>) -> bool {
    occurs_at(hay, needle, 0)
}

/// Whether `hay` ends with `needle`.
pub open spec fn ends_with(hay: Seq<char>, needle: Seq<char>) -> bool {
    occurs_at(hay, needle, hay.len() - needle.len())
}

/// The least index at or after `from` at which `needle` stands in `hay`.
pub open spec fn first_occurrence(hay: Seq<char>, needle: Seq<char>, from: int) -> Option<int>
    decreases hay.len() - from + 1,
{
    if from < 0 || from + needle.len() > hay.len() {
        None
    } else if occurs_at(hay, needle, from) {
        Some(from)
    } else {
        first_occurrence(hay, needle, from + 1)
    }
}

/// The greatest index at or before `upto` at which `needle` stands in `hay`.
pub open spec fn last_occurrence_upto(hay: Seq<char>, needle: Seq<char>, upto: int) -> Option<int>
    decreases upto + 1,
{
    if upto < 0 {
        None
    } else if occurs_at(hay, needle, upto) {
        Some(upto)
    } else {
        last_occurrence_upto(hay, needle, upto - 1)
    }
}

/// The greatest index at which `needle` stands in `hay`.
pub open spec fn last_occurrence(hay: Seq<char>, needle: Seq<char>) -> Option<int> {
    last_occurrence_upto(hay, needle, hay.len() - needle.len())
}

/// What follows the last occurrence of `sep` in `s`; all of `s` where `sep`
/// does not occur.
pub open spec fn after_last(s: Seq<char>, sep: Seq<char>) -> Seq<char> {
    match last_occurrence(s, sep) {
        Some(at) => s.subrange(at + sep.len(), s.len() as int),
        None => s,
    }
}

/// The greatest index below `upto` at which `s` holds `c`.
pub open spec fn last_index_of(s: Seq<char>, c: char, upto: int) -> Option<int>
    decreases upto,
{
    if upto <= 0 || upto > s.len() {
        None
    } else if s[upto - 1] == c {
        Some(upto - 1)
    } else {
        last_index_of(s, c, upto - 1)
    }
}

/// White space: the characters that separate words and are trimmed from
/// the ends of a field.
pub open spec fn is_space(c: char) -> bool {
    let n = c as u32;
    ||| 0x09 <= n <= 0x0d
    ||| n == 0x20
    ||| n == 0x85
    ||| n == 0xa0
    ||| n == 0x1680
    ||| 0x2000 <= n <= 0x200a
    ||| n == 0x2028
    ||| n == 0x2029
    ||| n == 0x202f
    ||| n == 0x205f
    ||| n == 0x3000
}

/// How many white-space characters `s` begins with.
pub open spec fn leading_spaces(s: Seq<char>) -> nat
    decreases s.len(),
{
    if s.len() > 0 && is_space(s[0]) {
        1 + leading_spaces(s.drop_first())
    } else {
        0
    }
}

/// How many white-space characters `s` ends with.
pub open spec fn trailing_spaces(s: Seq<char>) -> nat
    decreases s.len(),
{
    if s.len() > 0 && is_space(s.last()) {
        1 + trailing_spaces(s.drop_last())
    } else {
        0
    }
}

/// How many characters other than white space `s` begins with.
pub open spec fn word_len(s: Seq<char>) -> nat
    decreases s.len(),
{
    if s.len() > 0 && !is_space(s[0]) {
        1 + word_len(s.drop_first())
    } else {
        0
    }
}

/// `s` without the white space at its beginning.
pub open spec fn trim_start(s: Seq<char>) -> Seq<char> {
    s.skip(leading_spaces(s) as int)
}

/// `s` without the white space at its end.
pub open spec fn trim_end(s: Seq<char>) -> Seq<char> {
    s.take(s.len() - trailing_spaces(s))
}

/// `s` without the white space at both ends.
pub open spec fn trim(s: Seq<char>) -> Seq<char> {
    trim_end(trim_start(s))
}

/// The words of `s`: its maximal runs of characters other than white space,
/// in order.
pub open spec fn words(s: Seq<char>) -> Seq<Seq<char>>
    decreases s.len(),
{
    if s.len() == 0 {
        Seq::empty()
    } else if is_space(s[0]) {
        words(s.drop_first())
    } else {
        let n = word_len(s) as int;
        if 0 < n <= s.len() {
            seq![s.take(n)] + words(s.skip(n))
        } else {
            Seq::empty()
        }
    }
}

/// The leading white space is a run of white-space characters at the
/// beginning of the text, and what follows it is none.
pub proof fn lemma_leading_spaces_bound(s: Seq<char>)
    ensures
        leading_spaces(s) <= s.len(),
        forall|j: int| 0 <= j < leading_spaces(s) ==> is_space(#[trigger] s[j]),
        leading_spaces(s) < s.len() ==> !is_space(s[leading_spaces(s) as int]),
    decreases s.len(),
{
    if s.len() > 0 && is_space(s[0]) {
        let t = s.drop_first();
        lemma_leading_spaces_bound(t);
        assert forall|j: int| 0 <= j < leading_spaces(s) implies is_space(#[trigger] s[j]) by {
            if j > 0 {
                assert(s[j] == t[j - 1]);
            }
        }
    }
}

/// The trailing white space is a run of white-space characters at the end
/// of the text, and what stands before it is none.
pub proof fn lemma_trailing_spaces_bound(s: Seq<char>)
    ensures
        trailing_spaces(s) <= s.len(),
        forall|j: int| s.len() - trailing_spaces(s) <= j < s.len() ==> is_space(#[trigger] s[j]),
        trailing_spaces(s) < s.len() ==> !is_space(s[s.len() - trailing_spaces(s) - 1]),
    decreases s.len(),
{
    if s.len() > 0 && is_space(s.last()) {
        let t = s.drop_last();
        lemma_trailing_spaces_bound(t);
        assert forall|j: int| s.len() - trailing_spaces(s) <= j < s.len() implies is_space(
            #[trigger] s[j],
        ) by {
            if j < s.len() - 1 {
                assert(s[j] == t[j]);
            }
        }
    }
}

/// The first word is a run of characters other than white space at the
/// beginning of the text, and what follows it is white space.
pub proof fn lemma_word_len_bound(s: Seq<char>)
    ensures
        word_len(s) <= s.len(),
        forall|j: int| 0 <= j < word_len(s) ==> !is_space(#[trigger] s[j]),
        word_len(s) < s.len() ==> is_space(s[word_len(s) as int]),
        s.len() > 0 && !is_space(s[0]) ==> word_len(s) > 0,
    decreases s.len(),
{
    if s.len() > 0 && !is_space(s[0]) {
        let t = s.drop_first();
        lemma_word_len_bound(t);
        assert forall|j: int| 0 <= j < word_len(s) implies !is_space(#[trigger] s[j]) by {
            if j > 0 {
                assert(s[j] == t[j - 1]);
            }
        }
    }
}

/// A run of `n` white-space characters followed by another character, or
/// by the end, is the whole of the leading white space.
pub proof fn lemma_leading_spaces_is(s: Seq<char>, n: int)
    requires
        0 <= n <= s.len(),
        forall|j: int| 0 <= j < n ==> is_space(#[trigger] s[j]),
        n < s.len() ==> !is_space(s[n]),
    ensures
        leading_spaces(s) == n,
    decreases n,
{
    if n > 0 {
lemma_leading_spaces_is(s.drop_first(), n - 1);
    }
}

/// A run of `n` white-space characters at the end, with another character
/// or nothing before it, is the whole of the trailing white space.
pub proof fn lemma_trailing_spaces_is(s: Seq<char>, n: int)
    requires
        0 <= n <= s.len(),
        forall|j: int| s.len() - n <= j < s.len() ==> is_space(#[trigger] s[j]),
        n < s.len() ==> !is_space(s[s.len() - n - 1]),
    ensures
        trailing_spaces(s) == n,
    decreases n,
{
    if n > 0 {
lemma_trailing_spaces_is(s.drop_last(), n - 1);
    }
}

/// A run of `n` characters other than white space, followed by white space
/// or by the end, is the whole of the first word.
pub proof fn lemma_word_len_is(s: Seq<char>, n: int)
    requires
        0 <= n <= s.len(),
        forall|j: int| 0 <= j < n ==> !is_space(#[trigger] s[j]),
        n < s.len() ==> is_space(s[n]),
    ensures
        word_len(s) == n,
    decreases n,
{
    if n > 0 {
lemma_word_len_is(s.drop_first(), n - 1);
    }
}

/// Trimming removes white space only, and all of it at both ends: the
/// trimmed text stands in the text behind the leading white space, all that
/// stands before and behind it is white space, and it neither begins nor
/// ends with white space.
pub proof fn lemma_trim(s: Seq<char>)
    ensures
        ({
            let lead = leading_spaces(s) as int;
            let kept = trim(s);
            &&& lead + kept.len() <= s.len()
            &&& kept == s.subrange(lead, lead + kept.len())
            &&& forall|j: int| 0 <= j < lead ==> is_space(#[trigger] s[j])
            &&& forall|j: int| lead + kept.len() <= j < s.len() ==> is_space(#[trigger] s[j])
            &&& kept.len() > 0 ==> !is_space(kept[0]) && !is_space(kept.last())
        }),
{
    let lead = leading_spaces(s) as int;
    lemma_leading_spaces_bound(s);
    let rest = s.skip(lead);
    lemma_trailing_spaces_bound(rest);
    let kept = trim(s);
    assert forall|j: int| lead + kept.len() <= j < s.len() implies is_space(#[trigger] s[j]) by {
        assert(s[j] == rest[j - lead]);
    }
}

/// The first occurrence found is an occurrence, and none stands before it;
/// where none is found, none stands at or after `from`.
pub proof fn lemma_first_occurrence(hay: Seq<char>, needle: Seq<char>, from: int)
    requires
        0 <= from,
    ensures
        match first_occurrence(hay, needle, from) {
            Some(at) => {
                &&& from <= at
                &&& occurs_at(hay, needle, at)
                &&& forall|j: int| from <= j < at ==> !occurs_at(hay, needle, j)
            },
            None => forall|j: int| from <= j ==> !occurs_at(hay, needle, j),
        },
    decreases hay.len() - from + 1,
{
    if from + needle.len() <= hay.len() && !occurs_at(hay, needle, from) {
        lemma_first_occurrence(hay, needle, from + 1);
    }
}

/// The last occurrence found is an occurrence, and none stands after it;
/// where none is found, none stands at or before `upto`.
pub proof fn lemma_last_occurrence_upto(hay: Seq<char>, needle: Seq<char>, upto: int)
    ensures
        match last_occurrence_upto(hay, needle, upto) {
            Some(at) => {
                &&& at <= upto
                &&& occurs_at(hay, needle, at)
                &&& forall|j: int| at < j <= upto ==> !occurs_at(hay, needle, j)
            },
            None => forall|j: int| j <= upto ==> !occurs_at(hay, needle, j),
        },
    decreases upto + 1,
{
    if upto >= 0 && !occurs_at(hay, needle, upto) {
        lemma_last_occurrence_upto(hay, needle, upto - 1);
    }
}

/// A text holds a needle exactly when a first occurrence can be found.
pub proof fn lemma_contains_iff_found(hay: Seq<char>, needle: Seq<char>)
    ensures
        contains(hay, needle) <==> first_occurrence(hay, needle, 0) is Some,
{
    lemma_first_occurrence(hay, needle, 0);
}

/// Whether `needle` stands in `hay` at index `at`.
pub fn matches_at(hay: &[char], needle: &[char], at: usize) -> (r: bool)
    ensures
        r == occurs_at(hay@, needle@, at as int),
{
    if needle.len() > hay.len() || at > hay.len() - needle.len() {
        return false;
    }
    let mut k: usize = 0;
    while k < needle.len()
        invariant
            k <= needle.len(),
            at + needle.len() <= hay.len(),
            forall|j: int| 0 <= j < k ==> hay@[at + j] == needle@[j],
        decreases needle.len() - k,
    {
        if hay[at + k] != needle[k] {
            return false;
        }
        k += 1;
    }
    assert(hay@.subrange(at as int, at + needle@.len()) =~= needle@);
    true
}

/// The index of the first occurrence of `needle` in `hay` at or after
/// `from`.
pub fn find(hay: &[char], needle: &[char], from: usize) -> (r: Option<usize>)
    ensures
        index_view(r) == first_occurrence(hay@, needle@, from as int),
        r matches Some(at) ==> {
            &&& from <= at
            &&& at + needle.len() <= hay.len()
            &&& occurs_at(hay@, needle@, at as int)
            &&& forall|j: int| from <= j < at ==> !occurs_at(hay@, needle@, j)
        },
        r is None ==> forall|j: int| from <= j ==> !occurs_at(hay@, needle@, j),
{
    let r = scan_forward(hay, needle, from);
    proof {
        lemma_first_occurrence(hay@, needle@, from as int);
    }
    r
}

/// The index of the last occurrence of `needle` in `hay`.
pub fn rfind(hay: &[char], needle: &[char]) -> (r: Option<usize>)
    ensures
        index_view(r) == last_occurrence(hay@, needle@),
        r matches Some(at) ==> {
            &&& at + needle.len() <= hay.len()
            &&& occurs_at(hay@, needle@, at as int)
            &&& forall|j: int| at < j ==> !occurs_at(hay@, needle@, j)
        },
        r is None ==> !contains(hay@, needle@),
{
    let r = scan_backward(hay, needle);
    proof {
        lemma_last_occurrence_upto(hay@, needle@, hay@.len() - needle@.len());
    }
    r
}

/// Looks for `needle` from `from` on, index by index.
fn scan_forward(hay: &[char], needle: &[char], from: usize) -> (r: Option<usize>)
    ensures
        index_view(r) == first_occurrence(hay@, needle@, from as int),
{
    if needle.len() > hay.len() {
        return None;
    }
    let last: usize = hay.len() - needle.len();
    let mut at: usize = from;
    while at <= last
        invariant
            from <= at,
            last == hay.len() - needle.len(),
            first_occurrence(hay@, needle@, from as int) == first_occurrence(
                hay@,
                needle@,
                at as int,
            ),
        decreases last - at,
    {
        if matches_at(hay, needle, at) {
            return Some(at);
        }
        if at == last {
            assert(first_occurrence(hay@, needle@, at + 1) is None);
            return None;
        }
        at += 1;
    }
    None
}

/// Looks for `needle` from the end on, index by index.
fn scan_backward(hay: &[char], needle: &[char]) -> (r: Option<usize>)
    ensures
        index_view(r) == last_occurrence(hay@, needle@),
{
    if needle.len() > hay.len() {
        return None;
    }
    let mut at: usize = hay.len() - needle.len();
    loop
        invariant
            at <= hay.len() - needle.len(),
            last_occurrence(hay@, needle@) == last_occurrence_upto(hay@, needle@, at as int),
        decreases at,
    {
        if matches_at(hay, needle, at) {
            return Some(at);
        }
        if at == 0 {
            return None;
        }
        at -= 1;
    }
}

/// Whether `needle` stands somewhere in `hay`.
pub fn includes(hay: &[char], needle: &[char]) -> (r: bool)
    ensures
        r == contains(hay@, needle@),
{
    proof {
        lemma_contains_iff_found(hay@, needle@);
    }
    find(hay, needle, 0).is_some()
}

/// The index of the last `c` in `s`.
pub fn rfind_char(s: &[char], c: char) -> (r: Option<usize>)
    ensures
        index_view(r) == last_index_of(s@, c, s@.len() as int),
        r matches Some(at) ==> {
            &&& at < s.len()
            &&& s@[at as int] == c
            &&& forall|j: int| at < j < s@.len() ==> s@[j] != c
        },
        r is None ==> forall|j: int| 0 <= j < s@.len() ==> s@[j] != c,
{
    let mut upto: usize = s.len();
    while upto > 0
        invariant
            upto <= s.len(),
            forall|j: int| upto <= j < s@.len() ==> s@[j] != c,
            last_index_of(s@, c, s@.len() as int) == last_index_of(s@, c, upto as int),
        decreases upto,
    {
        if s[upto - 1] == c {
            return Some(upto - 1);
        }
        upto -= 1;
    }
    None
}

/// Whether `c` is white space.
pub fn space(c: char) -> (r: bool)
    ensures
        r == is_space(c),
{
    let n: u32 = c as u32;
    (0x09 <= n && n <= 0x0d) || n == 0x20 || n == 0x85 || n == 0xa0 || n == 0x1680 || (0x2000 <= n
        && n <= 0x200a) || n == 0x2028 || n == 0x2029 || n == 0x202f || n == 0x205f || n == 0x3000
}

/// How many white-space characters `s` begins with.
pub fn count_leading_spaces(s: &[char]) -> (n: usize)
    ensures
        n == leading_spaces(s@),
        n <= s.len(),
{
    let mut n: usize = 0;
    while n < s.len() && space(s[n])
        invariant
            n <= s.len(),
            forall|j: int| 0 <= j < n ==> is_space(#[trigger] s@[j]),
        decreases s.len() - n,
    {
        n += 1;
    }
    proof {
        lemma_leading_spaces_is(s@, n as int);
    }
    n
}

/// How many white-space characters `s` ends with.
pub fn count_trailing_spaces(s: &[char]) -> (n: usize)
    ensures
        n == trailing_spaces(s@),
        n <= s.len(),
{
    let mut n: usize = 0;
    while n < s.len() && space(s[s.len() - n - 1])
        invariant
            n <= s.len(),
            forall|j: int| s@.len() - n <= j < s@.len() ==> is_space(#[trigger] s@[j]),
        decreases s.len() - n,
    {
        n += 1;
    }
    proof {
        lemma_trailing_spaces_is(s@, n as int);
    }
    n
}

/// How many characters other than white space `s` begins with.
pub fn count_word(s: &[char]) -> (n: usize)
    ensures
        n == word_len(s@),
        n <= s.len(),
{
    let mut n: usize = 0;
    while n < s.len() && !space(s[n])
        invariant
            n <= s.len(),
            forall|j: int| 0 <= j < n ==> !is_space(#[trigger] s@[j]),
        decreases s.len() - n,
    {
        n += 1;
    }
    proof {
        lemma_word_len_is(s@, n as int);
    }
    n
}

/// Where in `s` the part between `lo` and `hi` stands once it is trimmed.
pub fn trim_bounds(s: &[char], lo: usize, hi: usize) -> (r: (usize, usize))
    requires
        lo <= hi <= s.len(),
    ensures
        lo <= r.0 <= r.1 <= hi,
        s@.subrange(r.0 as int, r.1 as int) == trim(s@.subrange(lo as int, hi as int)),
{
    let part = slice_subrange(s, lo, hi);
    let lead: usize = count_leading_spaces(part);
    let rest = slice_subrange(part, lead, part.len());
    let trail: usize = count_trailing_spaces(rest);
    (lo + lead, hi - trail)
}

} // verus!
