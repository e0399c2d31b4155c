//! Character-sequence utilities: locating a character, splitting on a
//! separator, trimming whitespace, and comparing strings, each specified
//! over `Seq<char>` views.

use vstd::prelude::*;
use vstd::string::StrSliceExecFns;
use vstd::string::StringExecFns;

verus! {

/// True when `c` occurs somewhere in `s`.
pub open spec fn occurs(s: Seq<char>, c: char) -> bool {
    exists|i: int| 0 <= i < s.len() && s[i] == c
}

/// Index of the last occurrence of `c` in `s`, or -1 when `c` does not occur.
pub open spec fn last_at(s: Seq<char>, c: char) -> int
    decreases s.len(),
{
    if s.len() == 0 {
        -1
    } else if s.last() == c {
        s.len() - 1
    } else {
        last_at(s.drop_last(), c)
    }
}

/// `last_at` returns a valid index of `c`, with no later occurrence,
/// and -1 exactly when `c` does not occur.
pub proof fn lemma_last_at(s: Seq<char>, c: char)
    ensures
        -1 <= last_at(s, c) < s.len(),
        last_at(s, c) >= 0 ==> s[last_at(s, c)] == c,
        forall|j: int| last_at(s, c) < j < s.len() ==> s[j] != c,
        last_at(s, c) == -1 <==> !occurs(s, c),
    decreases s.len(),
{
    if s.len() > 0 {
        lemma_last_at(s.drop_last(), c);
        if s.last() != c {
            assert(forall|j: int| 0 <= j < s.len() - 1 ==> s[j] == s.drop_last()[j]);
            if last_at(s, c) >= 0 {
                assert(occurs(s, c));
            }
            if occurs(s, c) {
                let w = choose|w: int| 0 <= w < s.len() && s[w] == c;
                assert(w < s.len() - 1);
                assert(s.drop_last()[w] == c);
                assert(occurs(s.drop_last(), c));
            }
        }
    }
}

/// Position of the last occurrence of `c` in `s`, if any.
pub fn find_last(s: &str, c: char) -> (r: Option<usize>)
    ensures
        last_at(s@, c) >= 0 ==> r == Some(last_at(s@, c) as usize),
        last_at(s@, c) == -1 ==> r is None,
{
    let n: usize = s.unicode_len();
    let mut i: usize = n;
    proof {
        assert(s@.take(n as int) =~= s@);
    }
    while i > 0
        invariant
            0 <= i <= n,
            n == s@.len(),
            last_at(s@, c) == last_at(s@.take(i as int), c),
        decreases i,
    {
        let ch = s.get_char(i - 1);
        proof {
            assert(s@.take(i as int).drop_last() =~= s@.take(i as int - 1));
            assert(s@.take(i as int).last() == s@[i as int - 1]);
        }
        if ch == c {
            proof {
                lemma_last_at(s@, c);
            }
            return Some(i - 1);
        }
        i = i - 1;
    }
    proof {
        assert(s@.take(0) =~= Seq::<char>::empty());
        lemma_last_at(s@, c);
    }
    None
}

/// The segments of `s` delimited by `sep`. There is always at least one
/// segment; `n` separators yield `n + 1` segments, in order, without the
/// separator itself.
pub open spec fn split_chars(s: Seq<char>, sep: char) -> Seq<Seq<char>>
    decreases s.len(),
{
    if s.len() == 0 {
        seq![Seq::<char>::empty()]
    } else if s[0] == sep {
        seq![Seq::<char>::empty()] + split_chars(s.drop_first(), sep)
    } else {
        let rest = split_chars(s.drop_first(), sep);
        seq![seq![s[0]] + rest[0]] + rest.drop_first()
    }
}

/// Splitting yields at least one segment.
pub proof fn lemma_split_chars_len(s: Seq<char>, sep: char)
    ensures
        split_chars(s, sep).len() >= 1,
    decreases s.len(),
{
    if s.len() > 0 {
        lemma_split_chars_len(s.drop_first(), sep);
    }
}

/// A sequence without the separator is a single segment.
pub proof fn lemma_split_chars_whole(s: Seq<char>, sep: char)
    requires
        !occurs(s, sep),
    ensures
        split_chars(s, sep) =~~= seq![s],
    decreases s.len(),
{
    if s.len() > 0 {
        assert(s[0] != sep);
        assert(forall|j: int| 0 <= j < s.drop_first().len() ==> s.drop_first()[j] == s[j + 1]);
        lemma_split_chars_whole(s.drop_first(), sep);
        assert(seq![s[0]] + s.drop_first() =~= s);
    }
}

/// Splitting off a separator-free prefix: the prefix becomes the first
/// segment and the remainder splits independently.
pub proof fn lemma_split_chars_prefix(a: Seq<char>, b: Seq<char>, sep: char)
    requires
        !occurs(a, sep),
    ensures
        split_chars(a + seq![sep] + b, sep) =~~= seq![a] + split_chars(b, sep),
    decreases a.len(),
{
    let s = a + seq![sep] + b;
    if a.len() == 0 {
        assert(s[0] == sep);
        assert(s.drop_first() =~= b);
        assert(a =~= Seq::<char>::empty());
    } else {
        assert(s[0] == a[0]);
        assert(a[0] != sep);
        assert(forall|j: int| 0 <= j < a.drop_first().len() ==> a.drop_first()[j] == a[j + 1]);
        assert(!occurs(a.drop_first(), sep));
        assert(s.drop_first() =~= a.drop_first() + seq![sep] + b);
        lemma_split_chars_prefix(a.drop_first(), b, sep);
        let rest = split_chars(s.drop_first(), sep);
        lemma_split_chars_len(b, sep);
        assert(rest[0] == a.drop_first());
        assert(rest.drop_first() =~~= split_chars(b, sep));
        assert(seq![s[0]] + rest[0] =~= a);
    }
}

/// No segment is longer than the sequence it was split from.
pub proof fn lemma_split_chars_segment_len(s: Seq<char>, sep: char)
    ensures
        forall|i: int|
            0 <= i < split_chars(s, sep).len() ==> (#[trigger] split_chars(s, sep)[i]).len()
                <= s.len(),
    decreases s.len(),
{
    if s.len() > 0 {
        lemma_split_chars_segment_len(s.drop_first(), sep);
        let rest = split_chars(s.drop_first(), sep);
        lemma_split_chars_len(s.drop_first(), sep);
        if s[0] == sep {
            assert(forall|i: int|
                1 <= i < split_chars(s, sep).len() ==> split_chars(s, sep)[i] == rest[i - 1]);
        } else {
            assert(split_chars(s, sep)[0] == seq![s[0]] + rest[0]);
            assert(forall|i: int|
                1 <= i < split_chars(s, sep).len() ==> split_chars(s, sep)[i] == rest[i]);
        }
    }
}

/// Prepending `p` to the first segment of a non-empty segment list.
pub open spec fn prepend_first(p: Seq<char>, segments: Seq<Seq<char>>) -> Seq<Seq<char>> {
    seq![p + segments[0]] + segments.drop_first()
}

/// Split `s` into the segments delimited by `sep`.
pub fn split_str(s: &str, sep: char) -> (parts: Vec<String>)
    ensures
        parts.deep_view() =~~= split_chars(s@, sep),
        parts.len() >= 1,
{
    let n: usize = s.unicode_len();
    let mut parts: Vec<String> = Vec::new();
    let mut cur: String = String::new();
    let mut i: usize = 0;
    proof {
        lemma_split_chars_len(s@, sep);
        assert(s@.skip(0) =~= s@);
    }
    while i < n
        invariant
            0 <= i <= n,
            n == s@.len(),
            split_chars(s@.skip(i as int), sep).len() >= 1,
            split_chars(s@, sep) =~~= parts.deep_view() + prepend_first(
                cur@,
                split_chars(s@.skip(i as int), sep),
            ),
        decreases n - i,
    {
        let c = s.get_char(i);
        let ghost tail = s@.skip(i as int);
        let ghost tail2 = s@.skip(i as int + 1);
        proof {
            assert(tail[0] == s@[i as int]);
            assert(tail.drop_first() =~= tail2);
            lemma_split_chars_len(tail2, sep);
        }
        if c == sep {
            let ghost old_parts = parts.deep_view();
            let ghost old_cur = cur@;
            parts.push(cur);
            cur = String::new();
            proof {
                assert(split_chars(tail, sep) =~~= seq![Seq::<char>::empty()] + split_chars(
                    tail2,
                    sep,
                ));
                assert(prepend_first(old_cur, split_chars(tail, sep)) =~~= seq![old_cur]
                    + split_chars(tail2, sep));
                assert(prepend_first(cur@, split_chars(tail2, sep)) =~~= split_chars(tail2, sep));
                assert(parts.deep_view() =~~= old_parts + seq![old_cur]);
            }
        } else {
            let ghost old_cur = cur@;
            let piece = s.substring_char(i, i + 1);
            cur.append(piece);
            proof {
                let rest = split_chars(tail2, sep);
                assert(split_chars(tail, sep) =~~= seq![seq![tail[0]] + rest[0]]
                    + rest.drop_first());
                assert(piece@ =~= seq![s@[i as int]]);
                assert(cur@ =~= old_cur + seq![tail[0]]);
                assert(prepend_first(old_cur, split_chars(tail, sep)) =~~= prepend_first(
                    cur@,
                    rest,
                ));
            }
        }
        i = i + 1;
    }
    proof {
        assert(s@.skip(n as int) =~= Seq::<char>::empty());
        assert(prepend_first(cur@, split_chars(Seq::<char>::empty(), sep)) =~~= seq![cur@]);
    }
    let ghost old_parts = parts.deep_view();
    parts.push(cur);
    proof {
        assert(parts.deep_view() =~~= old_parts + seq![cur@]);
    }
    parts
}

/// The characters that count as whitespace: the Unicode `White_Space`
/// property, as documented for `char::is_whitespace`.
pub open spec fn spec_is_space(c: char) -> bool {
    ||| c == '\u{0009}'
    ||| c == '\u{000A}'
    ||| c == '\u{000B}'
    ||| c == '\u{000C}'
    ||| c == '\u{000D}'
    ||| c == ' '
    ||| c == '\u{0085}'
    ||| c == '\u{00A0}'
    ||| c == '\u{1680}'
    ||| ('\u{2000}' <= c && c <= '\u{200A}')
    ||| c == '\u{2028}'
    ||| c == '\u{2029}'
    ||| c == '\u{202F}'
    ||| c == '\u{205F}'
    ||| c == '\u{3000}'
}

/// Whether `c` is a whitespace character.
#[verifier::when_used_as_spec(spec_is_space)]
pub fn is_space(c: char) -> (r: bool)
    ensures
        r == spec_is_space(c),
{
    c == '\u{0009}' || c == '\u{000A}' || c == '\u{000B}' || c == '\u{000C}' || c == '\u{000D}'
        || c == ' ' || c == '\u{0085}' || c == '\u{00A0}' || c == '\u{1680}' || ('\u{2000}' <= c
        && c <= '\u{200A}') || c == '\u{2028}' || c == '\u{2029}' || c == '\u{202F}' || c
        == '\u{205F}' || c == '\u{3000}'
}

/// `s` with its trailing whitespace removed.
pub open spec fn trim_end_chars(s: Seq<char>) -> Seq<char>
    decreases s.len(),
{
    if s.len() > 0 && spec_is_space(s.last()) {
        trim_end_chars(s.drop_last())
    } else {
        s
    }
}

/// `s` with its leading whitespace removed.
pub open spec fn trim_start_chars(s: Seq<char>) -> Seq<char>
    decreases s.len(),
{
    if s.len() > 0 && spec_is_space(s[0]) {
        trim_start_chars(s.drop_first())
    } else {
        s
    }
}

/// `s` with whitespace removed from both ends.
pub open spec fn trim_chars(s: Seq<char>) -> Seq<char> {
    trim_start_chars(trim_end_chars(s))
}

/// Remove trailing whitespace.
pub fn trim_end_str<'a>(s: &'a str) -> (r: &'a str)
    ensures
        r@ == trim_end_chars(s@),
{
    let n: usize = s.unicode_len();
    let mut e: usize = n;
    proof {
        assert(s@.take(n as int) =~= s@);
    }
    while e > 0 && is_space(s.get_char(e - 1))
        invariant
            0 <= e <= n,
            n == s@.len(),
            trim_end_chars(s@) == trim_end_chars(s@.take(e as int)),
        decreases e,
    {
        proof {
            assert(s@.take(e as int).last() == s@[e as int - 1]);
            assert(s@.take(e as int).drop_last() =~= s@.take(e as int - 1));
        }
        e = e - 1;
    }
    proof {
        if e > 0 {
            assert(s@.take(e as int).last() == s@[e as int - 1]);
        }
        assert(trim_end_chars(s@.take(e as int)) == s@.take(e as int));
    }
    s.substring_char(0, e)
}

/// Remove leading and trailing whitespace.
pub fn trim_str<'a>(s: &'a str) -> (r: &'a str)
    ensures
        r@ == trim_chars(s@),
{
    let n: usize = s.unicode_len();
    let mut e: usize = n;
    proof {
        assert(s@.take(n as int) =~= s@);
    }
    while e > 0 && is_space(s.get_char(e - 1))
        invariant
            0 <= e <= n,
            n == s@.len(),
            trim_end_chars(s@) == trim_end_chars(s@.take(e as int)),
        decreases e,
    {
        proof {
            assert(s@.take(e as int).last() == s@[e as int - 1]);
            assert(s@.take(e as int).drop_last() =~= s@.take(e as int - 1));
        }
        e = e - 1;
    }
    let ghost t = s@.take(e as int);
    proof {
        if e > 0 {
            assert(t.last() == s@[e as int - 1]);
        }
        assert(trim_end_chars(t) == t);
        assert(trim_end_chars(s@) == t);
    }
    let mut b: usize = 0;
    proof {
        assert(t.skip(0) =~= t);
    }
    while b < e && is_space(s.get_char(b))
        invariant
            0 <= b <= e <= n,
            n == s@.len(),
            t == s@.take(e as int),
            trim_start_chars(t) == trim_start_chars(t.skip(b as int)),
        decreases e - b,
    {
        proof {
            assert(t.skip(b as int)[0] == s@[b as int]);
            assert(t.skip(b as int).drop_first() =~= t.skip(b as int + 1));
        }
        b = b + 1;
    }
    proof {
        if b < e {
            assert(t.skip(b as int)[0] == s@[b as int]);
        } else {
            assert(t.skip(b as int) =~= Seq::<char>::empty());
        }
        assert(trim_start_chars(t.skip(b as int)) == t.skip(b as int));
        assert(s@.subrange(b as int, e as int) =~= t.skip(b as int));
    }
    s.substring_char(b, e)
}

/// Trimming never lengthens a sequence.
pub proof fn lemma_trim_end_len(s: Seq<char>)
    ensures
        trim_end_chars(s).len() <= s.len(),
    decreases s.len(),
{
    if s.len() > 0 && spec_is_space(s.last()) {
        lemma_trim_end_len(s.drop_last());
    }
}

/// Trimming never lengthens a sequence.
pub proof fn lemma_trim_start_len(s: Seq<char>)
    ensures
        trim_start_chars(s).len() <= s.len(),
    decreases s.len(),
{
    if s.len() > 0 && spec_is_space(s[0]) {
        lemma_trim_start_len(s.drop_first());
    }
}

/// Trimming never lengthens a sequence.
pub proof fn lemma_trim_len(s: Seq<char>)
    ensures
        trim_chars(s).len() <= s.len(),
{
    lemma_trim_end_len(s);
    lemma_trim_start_len(trim_end_chars(s));
}

/// A character occurs in a concatenation exactly when it occurs in one
/// of the two halves.
pub proof fn lemma_occurs_concat(a: Seq<char>, b: Seq<char>, c: char)
    ensures
        occurs(a + b, c) <==> occurs(a, c) || occurs(b, c),
{
    if occurs(a, c) {
        let i = choose|i: int| 0 <= i < a.len() && a[i] == c;
        assert((a + b)[i] == c);
    }
    if occurs(b, c) {
        let i = choose|i: int| 0 <= i < b.len() && b[i] == c;
        assert((a + b)[a.len() + i] == c);
    }
    if occurs(a + b, c) {
        let i = choose|i: int| 0 <= i < (a + b).len() && (a + b)[i] == c;
        if i < a.len() {
            assert(a[i] == c);
        } else {
            assert(b[i - a.len()] == c);
        }
    }
}

/// Whether `c` occurs in `s`.
pub fn contains_char(s: &str, c: char) -> (r: bool)
    ensures
        r == occurs(s@, c),
{
    proof {
        lemma_last_at(s@, c);
    }
    match find_last(s, c) {
        Some(_) => true,
        None => false,
    }
}

/// Relies on `char::to_string`: the resulting string holds exactly the
/// one character.
#[verifier::external_body]
pub fn char_to_string(c: char) -> (r: String)
    ensures
        r@ == seq![c],
{
    c.to_string()
}

/// Whether two byte vectors hold the same bytes.
pub fn bytes_eq(a: &Vec<u8>, b: &Vec<u8>) -> (r: bool)
    ensures
        r == (a@ == b@),
{
    let an: usize = a.len();
    let bn: usize = b.len();
    if an != bn {
        return false;
    }
    let mut i: usize = 0;
    while i < an
        invariant
            0 <= i <= an,
            an == a@.len(),
            an == b@.len(),
            forall|j: int| 0 <= j < i ==> a@[j] == b@[j],
        decreases an - i,
    {
        if a[i] != b[i] {
            return false;
        }
        i = i + 1;
    }
    proof {
        assert(a@ =~= b@);
    }
    true
}

/// Whether two strings hold the same characters.
pub fn str_eq(a: &str, b: &str) -> (r: bool)
    ensures
        r == (a@ == b@),
{
    let an: usize = a.unicode_len();
    let bn: usize = b.unicode_len();
    if an != bn {
        return false;
    }
    let mut i: usize = 0;
    while i < an
        invariant
            0 <= i <= an,
            an == a@.len(),
            an == b@.len(),
            forall|j: int| 0 <= j < i ==> a@[j] == b@[j],
        decreases an - i,
    {
        if a.get_char(i) != b.get_char(i) {
            return false;
        }
        i = i + 1;
    }
    proof {
        assert(a@ =~= b@);
    }
    true
}

} // verus!
