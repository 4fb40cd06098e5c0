//! Character-level text utilities: whitespace, trimming, splitting, decimal
//! numbers. Texts are handled as `Vec<char>`, whose view is the `Seq<char>`
//! that a `String` has as well.

use vstd::prelude::*;
use vstd::std_specs::iter::IteratorSpec;

verus! {

// ---------------------------------------------------------------------------
// Strings and character vectors
// ---------------------------------------------------------------------------

/// `String::push` appends one character.
pub assume_specification[ String::push ](s: &mut String, c: char)
    ensures
        final(s)@ == old(s)@.push(c),
;

/// The characters of a string slice, in order.
pub fn chars_of(s: &str) -> (out: Vec<char>)
    ensures
        out@ == s@,
{
    let mut out: Vec<char> = Vec::new();
    let mut it = s.chars();
    loop
        invariant
            out@ + it.remaining() =~= s@,
            it.decrease() is Some,
        ensures
            out@ =~= s@,
        decreases it.decrease()->0,
    {
        match it.next() {
            Some(c) => {
                out.push(c);
            },
            None => {
                break;
            },
        }
    }
    out
}

/// The string made of the given characters, in order.
pub fn string_of(chars: &Vec<char>) -> (s: String)
    ensures
        s@ == chars@,
{
    let mut s = String::new();
    let mut i: usize = 0;
    while i < chars.len()
        invariant
            i <= chars.len(),
            s@ == chars@.take(i as int),
        decreases chars.len() - i,
    {
        s.push(chars[i]);
        i = i + 1;
        assert(chars@.take(i as int) =~= chars@.take(i - 1).push(chars@[i - 1]));
    }
    assert(chars@.take(chars.len() as int) =~= chars@);
    s
}

/// A copy of `src[from..to]`.
pub(crate) fn slice_of(src: &Vec<char>, from: usize, to: usize) -> (out: Vec<char>)
    requires
        from <= to <= src.len(),
    ensures
        out@ == src@.subrange(from as int, to as int),
{
    let mut out: Vec<char> = Vec::new();
    let mut i: usize = from;
    while i < to
        invariant
            from <= i <= to <= src.len(),
            out@ == src@.subrange(from as int, i as int),
        decreases to - i,
    {
        out.push(src[i]);
        i = i + 1;
        assert(src@.subrange(from as int, i as int) =~= src@.subrange(from as int, i - 1).push(
            src@[i - 1],
        ));
    }
    out
}

/// Whether two character vectors hold the same text.
pub fn same_chars(a: &Vec<char>, b: &Vec<char>) -> (same: bool)
    ensures
        same == (a@ == b@),
{
    if a.len() != b.len() {
        return false;
    }
    let mut i: usize = 0;
    while i < a.len()
        invariant
            a.len() == b.len(),
            i <= a.len(),
            a@.take(i as int) == b@.take(i as int),
        decreases a.len() - i,
    {
        if a[i] != b[i] {
            return false;
        }
        i = i + 1;
        proof {
            assert(a@.take(i as int) =~= a@.take(i - 1).push(a@[i - 1]));
            assert(b@.take(i as int) =~= b@.take(i - 1).push(b@[i - 1]));
        }
    }
    proof {
        assert(a@.take(a.len() as int) =~= a@);
        assert(b@.take(b.len() as int) =~= b@);
    }
    true
}

/// Whether two string slices hold the same text.
pub fn same_text(a: &str, b: &str) -> (same: bool)
    ensures
        same == (a@ == b@),
{
    let x = chars_of(a);
    let y = chars_of(b);
    same_chars(&x, &y)
}

// ---------------------------------------------------------------------------
// Whitespace and trimming
// ---------------------------------------------------------------------------

/// The code points with the Unicode `White_Space` property.
pub open spec fn is_whitespace_spec(c: char) -> bool {
    let u = c as u32;
    ||| 0x09 <= u <= 0x0D
    ||| u == 0x20
    ||| u == 0x85
    ||| u == 0xA0
    ||| u == 0x1680
    ||| 0x2000 <= u <= 0x200A
    ||| u == 0x2028
    ||| u == 0x2029
    ||| u == 0x202F
    ||| u == 0x205F
    ||| u == 0x3000
}

/// Whether `c` is whitespace.
#[verifier::when_used_as_spec(is_whitespace_spec)]
pub fn is_whitespace(c: char) -> (yes: bool)
    ensures
        yes == is_whitespace_spec(c),
{
    let u: u32 = c as u32;
    (0x09 <= u && u <= 0x0D) || u == 0x20 || u == 0x85 || u == 0xA0 || u == 0x1680 || (0x2000 <= u
        && u <= 0x200A) || u == 0x2028 || u == 0x2029 || u == 0x202F || u == 0x205F || u == 0x3000
}

/// Length of the longest prefix of `s` whose characters all satisfy `keep`.
pub open spec fn run_len(s: Seq<char>, keep: spec_fn(char) -> bool) -> nat
    decreases s.len(),
{
    if s.len() > 0 && keep(s[0]) {
        1 + run_len(s.drop_first(), keep)
    } else {
        0
    }
}

/// The predicate that holds of whitespace.
pub open spec fn whitespace() -> spec_fn(char) -> bool {
    |c: char| is_whitespace_spec(c)
}

/// The predicate that holds of everything but whitespace.
pub open spec fn non_whitespace() -> spec_fn(char) -> bool {
    |c: char| !is_whitespace_spec(c)
}

/// The predicate that holds of every character but `d`.
pub open spec fn other_than(d: char) -> spec_fn(char) -> bool {
    |c: char| c != d
}

/// A run lies within its text, holds only characters that satisfy `keep`,
/// and stops at one that does not.
pub proof fn lemma_run_len_bound(s: Seq<char>, keep: spec_fn(char) -> bool)
    ensures
        run_len(s, keep) <= s.len(),
        forall|k: int| 0 <= k < run_len(s, keep) ==> keep(#[trigger] s[k]),
        run_len(s, keep) < s.len() ==> !keep(s[run_len(s, keep) as int]),
    decreases s.len(),
{
    if s.len() > 0 && keep(s[0]) {
        let t = s.drop_first();
        lemma_run_len_bound(t, keep);
        assert forall|k: int| 0 <= k < run_len(s, keep) implies keep(#[trigger] s[k]) by {
            if k > 0 {
                assert(s[k] == t[k - 1]);
            }
        }
        if run_len(s, keep) < s.len() {
            assert(s[run_len(s, keep) as int] == t[run_len(t, keep) as int]);
        }
    }
}

/// A prefix of `n` characters that satisfy `keep`, which ends the text or
/// meets a character that does not, is the whole run.
pub proof fn lemma_run_len_is(s: Seq<char>, keep: spec_fn(char) -> bool, n: nat)
    requires
        n <= s.len(),
        forall|k: int| 0 <= k < n ==> keep(#[trigger] s[k]),
        n < s.len() ==> !keep(s[n as int]),
    ensures
        run_len(s, keep) == n,
    decreases n,
{
    if n > 0 {
        let t = s.drop_first();
        assert(keep(s[0]));
        assert forall|k: int| 0 <= k < n - 1 implies keep(#[trigger] t[k]) by {
            assert(t[k] == s[k + 1]);
        }
        if n - 1 < t.len() {
            assert(t[n - 1] == s[n as int]);
        }
        lemma_run_len_is(t, keep, (n - 1) as nat);
    }
}

/// Number of whitespace characters at the front of `s`.
pub open spec fn leading_whitespace(s: Seq<char>) -> nat {
    run_len(s, whitespace())
}

/// Number of whitespace characters at the back of `s`.
pub open spec fn trailing_whitespace(s: Seq<char>) -> nat
    decreases s.len(),
{
    if s.len() > 0 && is_whitespace_spec(s.last()) {
        1 + trailing_whitespace(s.drop_last())
    } else {
        0
    }
}

/// `s` without the whitespace at its front.
pub open spec fn trim_start_spec(s: Seq<char>) -> Seq<char> {
    s.skip(leading_whitespace(s) as int)
}

/// `s` without the whitespace at its front and at its back.
pub open spec fn trim_spec(s: Seq<char>) -> Seq<char> {
    let t = trim_start_spec(s);
    t.take(t.len() - trailing_whitespace(t))
}

/// The trailing whitespace lies within its text, is all whitespace, and
/// follows a character that is none.
pub proof fn lemma_trailing_whitespace_bound(s: Seq<char>)
    ensures
        trailing_whitespace(s) <= s.len(),
        forall|k: int|
            s.len() - trailing_whitespace(s) <= k < s.len() ==> is_whitespace_spec(#[trigger] s[k]),
        trailing_whitespace(s) < s.len() ==> !is_whitespace_spec(
            s[s.len() - trailing_whitespace(s) - 1],
        ),
    decreases s.len(),
{
    if s.len() > 0 && is_whitespace_spec(s.last()) {
        let t = s.drop_last();
        lemma_trailing_whitespace_bound(t);
        assert forall|k: int|
            s.len() - trailing_whitespace(s) <= k < s.len() implies is_whitespace_spec(
            #[trigger] s[k],
        ) by {
            if k < s.len() - 1 {
                assert(s[k] == t[k]);
            }
        }
        if trailing_whitespace(s) < s.len() {
            assert(s[s.len() - trailing_whitespace(s) - 1] == t[t.len() - trailing_whitespace(t)
                - 1]);
        }
    }
}

/// A run of `n` whitespace characters at the back that starts the text or
/// follows a character that is no whitespace is the whole trailing whitespace.
pub proof fn lemma_trailing_whitespace_is(s: Seq<char>, n: nat)
    requires
        n <= s.len(),
        forall|k: int| s.len() - n <= k < s.len() ==> is_whitespace_spec(#[trigger] s[k]),
        n < s.len() ==> !is_whitespace_spec(s[s.len() - n - 1]),
    ensures
        trailing_whitespace(s) == n,
    decreases n,
{
    if n > 0 {
        let t = s.drop_last();
        assert(is_whitespace_spec(s[s.len() - 1]));
        assert forall|k: int| t.len() - (n - 1) <= k < t.len() implies is_whitespace_spec(
            #[trigger] t[k],
        ) by {
            assert(t[k] == s[k]);
        }
        if n - 1 < t.len() {
            assert(t[t.len() - (n - 1) - 1] == s[s.len() - n - 1]);
        }
        lemma_trailing_whitespace_is(t, (n - 1) as nat);
    }
}

/// A trimmed text neither starts nor ends with whitespace.
pub proof fn lemma_trim_is_tight(s: Seq<char>)
    ensures
        trim_spec(s).len() <= s.len(),
        trim_spec(s).len() > 0 ==> !is_whitespace_spec(trim_spec(s).first())
            && !is_whitespace_spec(trim_spec(s).last()),
{
    lemma_run_len_bound(s, whitespace());
    let t = trim_start_spec(s);
    lemma_trailing_whitespace_bound(t);
    if trim_spec(s).len() > 0 {
        assert(t[0] == s[leading_whitespace(s) as int]);
    }
}

/// The text between the leading and the trailing whitespace of `s`.
pub fn trim(s: &Vec<char>) -> (out: Vec<char>)
    ensures
        out@ == trim_spec(s@),
{
    let mut start: usize = 0;
    while start < s.len() && is_whitespace(s[start])
        invariant
            start <= s.len(),
            forall|k: int| 0 <= k < start ==> is_whitespace_spec(#[trigger] s@[k]),
        decreases s.len() - start,
    {
        start = start + 1;
    }
    let mut end: usize = s.len();
    while end > start && is_whitespace(s[end - 1])
        invariant
            start <= end <= s.len(),
            forall|k: int| end <= k < s.len() ==> is_whitespace_spec(#[trigger] s@[k]),
        decreases end,
    {
        end = end - 1;
    }
    proof {
        lemma_run_len_is(s@, whitespace(), start as nat);
        let t = trim_start_spec(s@);
        assert(t == s@.skip(start as int));
        let n = (s.len() - end) as nat;
        assert forall|k: int| t.len() - n <= k < t.len() implies is_whitespace_spec(
            #[trigger] t[k],
        ) by {
            assert(t[k] == s@[k + start]);
        }
        if n < t.len() {
            assert(t[t.len() - n - 1] == s@[end - 1]);
        }
        lemma_trailing_whitespace_is(t, n);
        assert(t.take(t.len() - n) =~= s@.subrange(start as int, end as int));
    }
    slice_of(s, start, end)
}

// ---------------------------------------------------------------------------
// Comparison without regard to ASCII case
// ---------------------------------------------------------------------------

/// The code point of `c`, with the ASCII capitals mapped to their small
/// letters.
pub open spec fn ascii_lower_spec(c: char) -> u32 {
    let u = c as u32;
    if 0x41 <= u <= 0x5A {
        (u + 0x20) as u32
    } else {
        u
    }
}

/// The code point of `c` with ASCII capitals made small.
#[verifier::when_used_as_spec(ascii_lower_spec)]
pub fn ascii_lower(c: char) -> (u: u32)
    ensures
        u == ascii_lower_spec(c),
{
    let u: u32 = c as u32;
    if 0x41 <= u && u <= 0x5A {
        u + 0x20
    } else {
        u
    }
}

/// Equality of two texts up to the case of their ASCII letters.
pub open spec fn eq_ignore_ascii_case_spec(a: Seq<char>, b: Seq<char>) -> bool {
    &&& a.len() == b.len()
    &&& forall|i: int| 0 <= i < a.len() ==> ascii_lower_spec(#[trigger] a[i]) == ascii_lower_spec(b[i])
}

/// Compares two texts without regard to the case of ASCII letters.
pub fn eq_ignore_ascii_case(a: &Vec<char>, b: &Vec<char>) -> (same: bool)
    ensures
        same == eq_ignore_ascii_case_spec(a@, b@),
{
    if a.len() != b.len() {
        return false;
    }
    let mut i: usize = 0;
    while i < a.len()
        invariant
            a.len() == b.len(),
            i <= a.len(),
            forall|k: int| 0 <= k < i ==> ascii_lower_spec(#[trigger] a@[k]) == ascii_lower_spec(b@[k]),
        decreases a.len() - i,
    {
        if ascii_lower(a[i]) != ascii_lower(b[i]) {
            return false;
        }
        i = i + 1;
    }
    true
}

/// Whether `s` opens with `keyword`, in any ASCII case, and one space.
pub open spec fn has_keyword(s: Seq<char>, keyword: Seq<char>) -> bool {
    &&& s.len() > keyword.len()
    &&& eq_ignore_ascii_case_spec(s.take(keyword.len() as int), keyword)
    &&& s[keyword.len() as int] == ' '
}

/// What follows `keyword` and its space in `s`.
pub open spec fn after_keyword(s: Seq<char>, keyword: Seq<char>) -> Seq<char> {
    s.skip(keyword.len() as int + 1)
}

/// The rest of `s` behind `keyword` and one space, where `s` opens with them.
pub fn strip_keyword(s: &Vec<char>, keyword: &Vec<char>) -> (rest: Option<Vec<char>>)
    ensures
        (rest is Some) == has_keyword(s@, keyword@),
        rest is Some ==> rest->0@ == after_keyword(s@, keyword@),
{
    let n = keyword.len();
    if s.len() <= n {
        return None;
    }
    let mut i: usize = 0;
    while i < n
        invariant
            n == keyword.len(),
            n < s.len(),
            i <= n,
            forall|k: int| 0 <= k < i ==> ascii_lower_spec(#[trigger] s@[k]) == ascii_lower_spec(keyword@[k]),
        decreases n - i,
    {
        if ascii_lower(s[i]) != ascii_lower(keyword[i]) {
            proof {
                assert(s@.take(n as int)[i as int] == s@[i as int]);
            }
            return None;
        }
        i = i + 1;
    }
    proof {
        assert forall|k: int| 0 <= k < n implies ascii_lower_spec(#[trigger] s@.take(n as int)[k])
            == ascii_lower_spec(keyword@[k]) by {
            assert(s@.take(n as int)[k] == s@[k]);
        }
    }
    if s[n] != ' ' {
        return None;
    }
    Some(slice_of(s, n + 1, s.len()))
}

// ---------------------------------------------------------------------------
// Removing and splitting
// ---------------------------------------------------------------------------

/// `s` with every occurrence of `c` taken out.
pub open spec fn without_spec(s: Seq<char>, c: char) -> Seq<char>
    decreases s.len(),
{
    if s.len() == 0 {
        s
    } else if s.last() == c {
        without_spec(s.drop_last(), c)
    } else {
        without_spec(s.drop_last(), c).push(s.last())
    }
}

/// Copies `s` without its occurrences of `c`.
pub fn without(s: &Vec<char>, c: char) -> (out: Vec<char>)
    ensures
        out@ == without_spec(s@, c),
{
    let mut out: Vec<char> = Vec::new();
    let mut i: usize = 0;
    while i < s.len()
        invariant
            i <= s.len(),
            out@ == without_spec(s@.take(i as int), c),
        decreases s.len() - i,
    {
        proof {
            assert(s@.take(i + 1).drop_last() =~= s@.take(i as int));
        }
        if s[i] != c {
            out.push(s[i]);
        }
        i = i + 1;
    }
    proof {
        assert(s@.take(s.len() as int) =~= s@);
    }
    out
}

/// What `without_spec` keeps: no `c`, and nothing more than `s` had.
pub proof fn lemma_without_has_none(s: Seq<char>, c: char)
    ensures
        without_spec(s, c).len() <= s.len(),
        forall|k: int| 0 <= k < without_spec(s, c).len() ==> #[trigger] without_spec(s, c)[k] != c,
        !s.contains(c) ==> without_spec(s, c) == s,
    decreases s.len(),
{
    if s.len() > 0 {
        let t = s.drop_last();
        lemma_without_has_none(t, c);
        if !s.contains(c) {
            assert(s.last() != c) by {
                assert(s[s.len() - 1] == s.last());
            }
            assert(!t.contains(c)) by {
                if t.contains(c) {
                    let k = choose|k: int| 0 <= k < t.len() && t[k] == c;
                    assert(s[k] == c);
                }
            }
            assert(t.push(s.last()) =~= s);
        }
    }
}

/// The text before the first `d` in `s` and the text behind it, where `s`
/// holds a `d`.
pub open spec fn split_once_spec(s: Seq<char>, d: char) -> Option<(Seq<char>, Seq<char>)> {
    let n = run_len(s, other_than(d));
    if n < s.len() {
        Some((s.take(n as int), s.skip(n as int + 1)))
    } else {
        None
    }
}

/// Cuts `s` at its first `d`, where it has one.
pub fn split_once(s: &Vec<char>, d: char) -> (parts: Option<(Vec<char>, Vec<char>)>)
    ensures
        match parts {
            Some((head, tail)) => split_once_spec(s@, d) == Some((head@, tail@)),
            None => split_once_spec(s@, d) is None,
        },
{
    let mut i: usize = 0;
    while i < s.len() && s[i] != d
        invariant
            i <= s.len(),
            forall|k: int| 0 <= k < i ==> other_than(d)(#[trigger] s@[k]),
        decreases s.len() - i,
    {
        i = i + 1;
    }
    proof {
        lemma_run_len_is(s@, other_than(d), i as nat);
    }
    if i < s.len() {
        let head = slice_of(s, 0, i);
        let tail = slice_of(s, i + 1, s.len());
        Some((head, tail))
    } else {
        None
    }
}

/// The views of a vector of texts.
pub open spec fn texts_of(parts: Seq<Vec<char>>) -> Seq<Seq<char>> {
    parts.map_values(|p: Vec<char>| p@)
}

/// The fields of `s` between occurrences of `d`: one more than there are
/// occurrences, empty fields included.
pub open spec fn split_spec(s: Seq<char>, d: char) -> Seq<Seq<char>>
    decreases s.len(),
{
    let n = run_len(s, other_than(d));
    if n < s.len() {
        seq![s.take(n as int)] + split_spec(s.skip(n as int + 1), d)
    } else {
        seq![s]
    }
}

/// Cuts `s` at every `d`.
pub fn split(s: &Vec<char>, d: char) -> (parts: Vec<Vec<char>>)
    ensures
        texts_of(parts@) == split_spec(s@, d),
{
    let mut parts: Vec<Vec<char>> = Vec::new();
    let mut start: usize = 0;
    let mut i: usize = 0;
    proof {
        assert(s@.skip(0) =~= s@);
        assert(texts_of(parts@) + split_spec(s@, d) =~= split_spec(s@, d));
    }
    while i < s.len()
        invariant
            start <= i <= s.len(),
            forall|k: int| start <= k < i ==> other_than(d)(#[trigger] s@[k]),
            texts_of(parts@) + split_spec(s@.skip(start as int), d) == split_spec(s@, d),
        decreases s.len() - i,
    {
        if s[i] == d {
            let field = slice_of(s, start, i);
            proof {
                let rest = s@.skip(start as int);
                assert forall|k: int| 0 <= k < i - start implies other_than(d)(#[trigger] rest[k]) by {
                    assert(rest[k] == s@[k + start]);
                }
                assert(rest[i - start] == s@[i as int]);
                lemma_run_len_is(rest, other_than(d), (i - start) as nat);
                assert(rest.take(i - start) =~= field@);
                assert(rest.skip(i - start + 1) =~= s@.skip(i + 1));
                assert(texts_of(parts@.push(field)) =~= texts_of(parts@) + seq![field@]);
                assert(texts_of(parts@) + (seq![field@] + split_spec(s@.skip(i + 1), d)) =~= texts_of(
                    parts@.push(field),
                ) + split_spec(s@.skip(i + 1), d));
            }
            parts.push(field);
            start = i + 1;
        }
        i = i + 1;
    }
    let field = slice_of(s, start, s.len());
    proof {
        let rest = s@.skip(start as int);
        assert forall|k: int| 0 <= k < rest.len() implies other_than(d)(#[trigger] rest[k]) by {
            assert(rest[k] == s@[k + start]);
        }
        lemma_run_len_is(rest, other_than(d), rest.len());
        assert(rest =~= field@);
        assert(texts_of(parts@.push(field)) =~= texts_of(parts@) + seq![field@]);
    }
    parts.push(field);
    parts
}

/// The words of `s`: its longest runs of characters that are no whitespace,
/// in order.
pub open spec fn words_spec(s: Seq<char>) -> Seq<Seq<char>>
    decreases s.len(),
{
    if s.len() == 0 {
        Seq::empty()
    } else if is_whitespace_spec(s[0]) {
        words_spec(s.drop_first())
    } else {
        let n = run_len(s, non_whitespace());
        if 0 < n <= s.len() {
            seq![s.take(n as int)] + words_spec(s.skip(n as int))
        } else {
            Seq::empty()
        }
    }
}

/// Cuts `s` into its words.
pub fn words(s: &Vec<char>) -> (parts: Vec<Vec<char>>)
    ensures
        texts_of(parts@) == words_spec(s@),
{
    let mut parts: Vec<Vec<char>> = Vec::new();
    let mut i: usize = 0;
    proof {
        assert(s@.skip(0) =~= s@);
        assert(texts_of(parts@) + words_spec(s@) =~= words_spec(s@));
    }
    while i < s.len()
        invariant
            i <= s.len(),
            texts_of(parts@) + words_spec(s@.skip(i as int)) == words_spec(s@),
        decreases s.len() - i,
    {
        if is_whitespace(s[i]) {
            proof {
                assert(s@.skip(i as int).drop_first() =~= s@.skip(i + 1));
            }
            i = i + 1;
        } else {
            let from = i;
            i = i + 1;
            while i < s.len() && !is_whitespace(s[i])
                invariant
                    from < i <= s.len(),
                    forall|k: int| from <= k < i ==> non_whitespace()(#[trigger] s@[k]),
                decreases s.len() - i,
            {
                i = i + 1;
            }
            let word = slice_of(s, from, i);
            proof {
                let rest = s@.skip(from as int);
                assert forall|k: int| 0 <= k < i - from implies non_whitespace()(#[trigger] rest[k]) by {
                    assert(rest[k] == s@[k + from]);
                }
                if i < s.len() {
                    assert(rest[i - from] == s@[i as int]);
                }
                lemma_run_len_is(rest, non_whitespace(), (i - from) as nat);
                assert(rest[0] == s@[from as int]);
                assert(rest.take(i - from) =~= word@);
                assert(rest.skip(i - from) =~= s@.skip(i as int));
                assert(texts_of(parts@.push(word)) =~= texts_of(parts@) + seq![word@]);
                assert(texts_of(parts@) + (seq![word@] + words_spec(s@.skip(i as int))) =~= texts_of(
                    parts@.push(word),
                ) + words_spec(s@.skip(i as int)));
            }
            parts.push(word);
        }
    }
    proof {
        assert(s@.skip(s.len() as int).len() == 0);
        assert(texts_of(parts@) + Seq::<Seq<char>>::empty() =~= texts_of(parts@));
    }
    parts
}

// ---------------------------------------------------------------------------
// Decimal numbers
// ---------------------------------------------------------------------------

/// Whether `c` is one of the ten ASCII digits.
pub open spec fn is_digit_spec(c: char) -> bool {
    0x30 <= c as u32 <= 0x39
}

/// The number that the digit `c` stands for.
pub open spec fn digit_value(c: char) -> nat {
    (c as u32 - 0x30) as nat
}

/// Whether every character of `s` is an ASCII digit.
pub open spec fn all_digits(s: Seq<char>) -> bool {
    forall|i: int| 0 <= i < s.len() ==> is_digit_spec(#[trigger] s[i])
}

/// The number that the digits `s` write in base ten.
pub open spec fn digits_value(s: Seq<char>) -> nat
    decreases s.len(),
{
    if s.len() == 0 {
        0
    } else {
        digits_value(s.drop_last()) * 10 + digit_value(s.last())
    }
}

/// The digits of an unsigned literal: `s` without a plus sign at its front.
pub open spec fn literal_digits(s: Seq<char>) -> Seq<char> {
    if s.len() > 0 && s[0] == '+' {
        s.drop_first()
    } else {
        s
    }
}

/// The number that `s` writes: an optional plus sign, then one or more ASCII
/// digits. Anything else writes no number.
pub open spec fn parse_unsigned_spec(s: Seq<char>) -> Option<nat> {
    let digits = literal_digits(s);
    if digits.len() > 0 && all_digits(digits) {
        Some(digits_value(digits))
    } else {
        None
    }
}

/// The number that `s` writes, where it fits the machine's index type.
pub open spec fn parse_usize_spec(s: Seq<char>) -> Option<usize> {
    match parse_unsigned_spec(s) {
        Some(n) => if n <= usize::MAX {
            Some(n as usize)
        } else {
            None
        },
        None => None,
    }
}

/// A longer run of digits writes no smaller number than its prefixes.
pub proof fn lemma_digits_value_grows(s: Seq<char>, k: int)
    requires
        0 <= k <= s.len(),
    ensures
        digits_value(s.take(k)) <= digits_value(s),
    decreases s.len() - k,
{
    if k < s.len() {
        lemma_digits_value_grows(s, k + 1);
        assert(s.take(k + 1).drop_last() =~= s.take(k));
    } else {
        assert(s.take(k) =~= s);
    }
}

/// Reads a number in base ten.
pub fn parse_usize(s: &Vec<char>) -> (parsed: Option<usize>)
    ensures
        parsed == parse_usize_spec(s@),
{
    let from: usize = if s.len() > 0 && s[0] == '+' {
        1
    } else {
        0
    };
    if from == s.len() {
        proof {
            assert(literal_digits(s@).len() == 0);
        }
        return None;
    }
    let ghost digits = literal_digits(s@);
    proof {
        assert(digits =~= s@.skip(from as int));
    }
    let mut value: usize = 0;
    let mut i: usize = from;
    while i < s.len()
        invariant
            from <= i <= s.len(),
            digits == s@.skip(from as int),
            digits == literal_digits(s@),
            all_digits(digits.take(i - from)),
            value == digits_value(digits.take(i - from)),
        decreases s.len() - i,
    {
        let u: u32 = s[i] as u32;
        proof {
            assert(digits[i - from] == s@[i as int]);
            assert(digits.take(i - from + 1).drop_last() =~= digits.take(i - from));
        }
        if u < 0x30 || u > 0x39 {
            proof {
                assert(!is_digit_spec(digits[i - from]));
            }
            return None;
        }
        let d: usize = (u - 0x30) as usize;
        proof {
            assert forall|k: int| 0 <= k < i - from + 1 implies is_digit_spec(
                #[trigger] digits.take(i - from + 1)[k],
            ) by {
                if k < i - from {
                    assert(digits.take(i - from)[k] == digits[k]);
                }
            }
        }
        if value > (usize::MAX - d) / 10 {
            proof {
                let longer = digits.take(i - from + 1);
                assert(longer.last() == s@[i as int]);
                assert(digits_value(longer) == value * 10 + d);
                lemma_digits_value_grows(digits, i - from + 1);
            }
            return None;
        }
        proof {
            assert(digits.take(i - from + 1).last() == s@[i as int]);
        }
        value = value * 10 + d;
        i = i + 1;
    }
    proof {
        assert(digits.take(s.len() - from) =~= digits);
    }
    Some(value)
}

/// The character that writes the digit `d`.
pub open spec fn digit_char_spec(d: nat) -> char {
    if d == 0 {
        '0'
    } else if d == 1 {
        '1'
    } else if d == 2 {
        '2'
    } else if d == 3 {
        '3'
    } else if d == 4 {
        '4'
    } else if d == 5 {
        '5'
    } else if d == 6 {
        '6'
    } else if d == 7 {
        '7'
    } else if d == 8 {
        '8'
    } else {
        '9'
    }
}

fn digit_char(d: usize) -> (c: char)
    requires
        d < 10,
    ensures
        c == digit_char_spec(d as nat),
{
    if d == 0 {
        '0'
    } else if d == 1 {
        '1'
    } else if d == 2 {
        '2'
    } else if d == 3 {
        '3'
    } else if d == 4 {
        '4'
    } else if d == 5 {
        '5'
    } else if d == 6 {
        '6'
    } else if d == 7 {
        '7'
    } else if d == 8 {
        '8'
    } else {
        '9'
    }
}

/// The digits of `n` in base ten, without leading zeros.
pub open spec fn decimal_spec(n: nat) -> Seq<char>
    decreases n,
{
    if n < 10 {
        seq![digit_char_spec(n)]
    } else {
        decimal_spec(n / 10).push(digit_char_spec(n % 10))
    }
}

/// Writes `n` in base ten.
pub fn decimal(n: usize) -> (out: Vec<char>)
    ensures
        out@ == decimal_spec(n as nat),
    decreases n,
{
    if n < 10 {
        let mut out: Vec<char> = Vec::new();
        out.push(digit_char(n));
        assert(out@ =~= seq![digit_char_spec(n as nat)]);
        out
    } else {
        let mut out = decimal(n / 10);
        out.push(digit_char(n % 10));
        out
    }
}

/// Reading back what `decimal_spec` wrote gives the number again.
pub proof fn lemma_decimal_round_trip(n: nat)
    ensures
        decimal_spec(n).len() > 0,
        all_digits(decimal_spec(n)),
        digits_value(decimal_spec(n)) == n,
        parse_unsigned_spec(decimal_spec(n)) == Some(n),
    decreases n,
{
    if n < 10 {
        let s = decimal_spec(n);
        assert(s.drop_last() =~= Seq::<char>::empty());
        assert(digits_value(s.drop_last()) == 0);
        assert(s.last() == digit_char_spec(n));
    } else {
        lemma_decimal_round_trip(n / 10);
        let head = decimal_spec(n / 10);
        let s = decimal_spec(n);
        assert(s.drop_last() =~= head);
        assert(s.last() == digit_char_spec(n % 10));
        assert forall|i: int| 0 <= i < s.len() implies is_digit_spec(#[trigger] s[i]) by {
            if i < head.len() {
                assert(s[i] == head[i]);
            }
        }
    }
    assert(decimal_spec(n)[0] != '+') by {
        assert(is_digit_spec(decimal_spec(n)[0]));
    }
}

// ---------------------------------------------------------------------------
// Laws of splitting
// ---------------------------------------------------------------------------

/// A keyword, one space and a rest open with that keyword, and the rest
/// follows it.
pub proof fn lemma_keyword_match(keyword: Seq<char>, rest: Seq<char>)
    ensures
        has_keyword(keyword + seq![' '] + rest, keyword),
        after_keyword(keyword + seq![' '] + rest, keyword) == rest,
{
    let line = keyword + seq![' '] + rest;
    assert(line.take(keyword.len() as int) =~= keyword);
    assert(line[keyword.len() as int] == ' ');
    assert(line.skip(keyword.len() as int + 1) =~= rest);
}

/// A line that differs from a keyword at some place, the case of ASCII
/// letters aside, neither opens with the keyword nor is the keyword.
pub proof fn lemma_keyword_mismatch(line: Seq<char>, keyword: Seq<char>, k: int)
    requires
        0 <= k < keyword.len(),
        k < line.len(),
        ascii_lower_spec(line[k]) != ascii_lower_spec(keyword[k]),
    ensures
        !has_keyword(line, keyword),
        !eq_ignore_ascii_case_spec(line, keyword),
{
    if line.len() > keyword.len() {
        assert(line.take(keyword.len() as int)[k] == line[k]);
    }
}

/// A text without `d` is its own and only field.
pub proof fn lemma_split_single(field: Seq<char>, d: char)
    requires
        !field.contains(d),
    ensures
        split_spec(field, d) == seq![field],
        split_once_spec(field, d) is None,
{
    assert forall|k: int| 0 <= k < field.len() implies other_than(d)(#[trigger] field[k]) by {
        if field[k] == d {
            assert(field.contains(d));
        }
    }
    lemma_run_len_is(field, other_than(d), field.len());
}

/// A text without `d`, then `d`, then a rest: the text is the first field,
/// and the fields of the rest follow.
pub proof fn lemma_split_first(field: Seq<char>, d: char, rest: Seq<char>)
    requires
        !field.contains(d),
    ensures
        split_spec(field + seq![d] + rest, d) == seq![field] + split_spec(rest, d),
        split_once_spec(field + seq![d] + rest, d) == Some((field, rest)),
{
    let s = field + seq![d] + rest;
    assert forall|k: int| 0 <= k < field.len() implies other_than(d)(#[trigger] s[k]) by {
        assert(s[k] == field[k]);
        if field[k] == d {
            assert(field.contains(d));
        }
    }
    assert(s[field.len() as int] == d);
    lemma_run_len_is(s, other_than(d), field.len());
    assert(s.take(field.len() as int) =~= field);
    assert(s.skip(field.len() as int + 1) =~= rest);
}

/// Whether a text is a word: not empty and free of whitespace.
pub open spec fn is_word(w: Seq<char>) -> bool {
    &&& w.len() > 0
    &&& forall|k: int| 0 <= k < w.len() ==> !is_whitespace_spec(#[trigger] w[k])
}

/// A word is its own and only word.
pub proof fn lemma_words_single(word: Seq<char>)
    requires
        is_word(word),
    ensures
        words_spec(word) == seq![word],
{
    assert forall|k: int| 0 <= k < word.len() implies non_whitespace()(#[trigger] word[k]) by {}
    lemma_run_len_is(word, non_whitespace(), word.len());
    assert(word.take(word.len() as int) =~= word);
    assert(word.skip(word.len() as int).len() == 0);
    assert(words_spec(word.skip(word.len() as int)) =~= Seq::<Seq<char>>::empty());
    assert(seq![word] + Seq::<Seq<char>>::empty() =~= seq![word]);
}

/// A word, one whitespace character and a rest: the word is the first word,
/// and the words of the rest follow.
pub proof fn lemma_words_first(word: Seq<char>, gap: char, rest: Seq<char>)
    requires
        is_word(word),
        is_whitespace_spec(gap),
    ensures
        words_spec(word + seq![gap] + rest) == seq![word] + words_spec(rest),
{
    let s = word + seq![gap] + rest;
    assert forall|k: int| 0 <= k < word.len() implies non_whitespace()(#[trigger] s[k]) by {
        assert(s[k] == word[k]);
    }
    assert(s[word.len() as int] == gap);
    lemma_run_len_is(s, non_whitespace(), word.len());
    assert(s[0] == word[0]);
    assert(s.take(word.len() as int) =~= word);
    let tail = s.skip(word.len() as int);
    assert(tail[0] == gap);
    assert(tail.drop_first() =~= rest);
    assert(words_spec(tail) == words_spec(rest));
    assert(!is_whitespace_spec(s[0]));
    assert(words_spec(s) == seq![s.take(word.len() as int)] + words_spec(tail));
}

/// The digits of a number form a word without a space or a plus sign.
pub proof fn lemma_decimal_is_word(n: nat)
    ensures
        is_word(decimal_spec(n)),
        !decimal_spec(n).contains(' '),
{
    lemma_decimal_round_trip(n);
    let s = decimal_spec(n);
    assert forall|k: int| 0 <= k < s.len() implies !is_whitespace_spec(#[trigger] s[k]) by {
        assert(is_digit_spec(s[k]));
    }
    if s.contains(' ') {
        let k = choose|k: int| 0 <= k < s.len() && s[k] == ' ';
        assert(is_digit_spec(s[k]));
    }
}

} // verus!
