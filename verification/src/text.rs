//! Character-sequence specifications shared by the span operations: finding a
//! character or a sub-sequence, trimming whitespace, splitting into lines and
//! bounded splitting on a separator.

use vstd::prelude::*;

verus! {

/// The whitespace characters recognised by the trimming and blank-line rules.
pub open spec fn ws(c: char) -> bool {
    c == ' ' || c == '\t' || c == '\r' || c == '\n'
}

/// Index of the first occurrence of `c` in `s`, if any.
pub open spec fn spec_find(s: Seq<char>, c: char) -> Option<int>
    decreases s.len(),
{
    if s.len() == 0 {
        None
    } else if s[0] == c {
        Some(0)
    } else {
        match spec_find(s.skip(1), c) {
            None => None,
            Some(i) => Some(i + 1),
        }
    }
}

pub proof fn lemma_spec_find(s: Seq<char>, c: char)
    ensures
        match spec_find(s, c) {
            None => forall|i: int| 0 <= i < s.len() ==> s[i] != c,
            Some(i) => 0 <= i < s.len() && s[i] == c && (forall|j: int| 0 <= j < i ==> s[j] != c),
        },
    decreases s.len(),
{
    if s.len() == 0 {
    } else if s[0] == c {
    } else {
        lemma_spec_find(s.skip(1), c);
        match spec_find(s.skip(1), c) {
            None => {
                assert forall|i: int| 0 <= i < s.len() implies s[i] != c by {
                    if i > 0 {
                        assert(s.skip(1)[i - 1] == s[i]);
                    }
                }
            },
            Some(i) => {
                assert(s.skip(1)[i] == s[i + 1]);
                assert forall|j: int| 0 <= j < i + 1 implies s[j] != c by {
                    if j > 0 {
                        assert(s.skip(1)[j - 1] == s[j]);
                    }
                }
            },
        }
    }
}

/// Whether `pat` occurs in `s` starting at index `i`.
pub open spec fn has_sub_at(s: Seq<char>, pat: Seq<char>, i: int) -> bool {
    0 <= i && i + pat.len() <= s.len() && s.subrange(i, i + pat.len()) == pat
}

/// Index of the first occurrence of the sub-sequence `pat` in `s`, if any.
pub open spec fn spec_find_sub(s: Seq<char>, pat: Seq<char>) -> Option<int>
    decreases s.len(),
{
    if pat.len() > s.len() {
        None
    } else if s.subrange(0, pat.len() as int) == pat {
        Some(0)
    } else if s.len() == 0 {
        None
    } else {
        match spec_find_sub(s.skip(1), pat) {
            None => None,
            Some(i) => Some(i + 1),
        }
    }
}

pub proof fn lemma_spec_find_sub(s: Seq<char>, pat: Seq<char>)
    ensures
        match spec_find_sub(s, pat) {
            None => forall|i: int| !has_sub_at(s, pat, i),
            Some(i) => has_sub_at(s, pat, i) && (forall|j: int| 0 <= j < i ==> !has_sub_at(
                s,
                pat,
                j,
            )),
        },
    decreases s.len(),
{
    if pat.len() > s.len() {
        assert(forall|i: int| !#[trigger] has_sub_at(s, pat, i));
    } else if s.subrange(0, pat.len() as int) == pat {
        assert(has_sub_at(s, pat, 0));
    } else if s.len() == 0 {
        assert(pat.len() == 0);
        assert(s.subrange(0, 0) =~= pat);
    } else {
        lemma_spec_find_sub(s.skip(1), pat);
        assert forall|i: int| 1 <= i implies has_sub_at(s, pat, i) == has_sub_at(
            s.skip(1),
            pat,
            i - 1,
        ) by {
            if 0 <= i - 1 && i - 1 + pat.len() <= s.skip(1).len() {
                assert(s.skip(1).subrange(i - 1, i - 1 + pat.len()) =~= s.subrange(
                    i,
                    i + pat.len(),
                ));
            }
        }
        assert(!has_sub_at(s, pat, 0));
    }
}

/// `s` with leading whitespace removed.
pub open spec fn spec_trim_front(s: Seq<char>) -> Seq<char>
    decreases s.len(),
{
    if s.len() > 0 && ws(s[0]) {
        spec_trim_front(s.skip(1))
    } else {
        s
    }
}

/// `s` with trailing whitespace removed.
pub open spec fn spec_trim_back(s: Seq<char>) -> Seq<char>
    decreases s.len(),
{
    if s.len() > 0 && ws(s[s.len() - 1]) {
        spec_trim_back(s.take(s.len() - 1))
    } else {
        s
    }
}

/// `s` with leading and trailing whitespace removed.
pub open spec fn spec_trim(s: Seq<char>) -> Seq<char> {
    spec_trim_back(spec_trim_front(s))
}

pub proof fn lemma_trim_front_skip(s: Seq<char>, a: int)
    requires
        0 <= a <= s.len(),
        forall|k: int| 0 <= k < a ==> ws(s[k]),
        a < s.len() ==> !ws(s[a]),
    ensures
        spec_trim_front(s) == s.skip(a),
    decreases a,
{
    if a == 0 {
        assert(s.skip(0) =~= s);
    } else {
        lemma_trim_front_skip(s.skip(1), a - 1);
        assert(s.skip(1).skip(a - 1) =~= s.skip(a));
    }
}

pub proof fn lemma_trim_back_take(s: Seq<char>, b: int)
    requires
        0 <= b <= s.len(),
        forall|k: int| b <= k < s.len() ==> ws(s[k]),
        b > 0 ==> !ws(s[b - 1]),
    ensures
        spec_trim_back(s) == s.take(b),
    decreases s.len(),
{
    if b == s.len() {
        assert(s.take(b) =~= s);
    } else {
        lemma_trim_back_take(s.take(s.len() - 1), b);
        assert(s.take(s.len() - 1).take(b) =~= s.take(b));
    }
}

/// Trimming leaves a sub-range of the original sequence; positions `a` and
/// `b` delimit it as the exec scan finds them.
pub proof fn lemma_trim_range(s: Seq<char>, a: int, b: int)
    requires
        0 <= a <= b <= s.len(),
        forall|k: int| 0 <= k < a ==> ws(s[k]),
        forall|k: int| b <= k < s.len() ==> ws(s[k]),
        a < s.len() ==> !ws(s[a]),
        b > a ==> !ws(s[b - 1]),
    ensures
        spec_trim(s) == s.subrange(a, b),
{
    lemma_trim_front_skip(s, a);
    let t = s.skip(a);
    lemma_trim_back_take(t, b - a);
    assert(t.take(b - a) =~= s.subrange(a, b));
}

/// A trailing carriage return is not part of a line.
pub open spec fn strip_cr(s: Seq<char>) -> Seq<char> {
    if s.len() > 0 && s[s.len() - 1] == '\r' {
        s.take(s.len() - 1)
    } else {
        s
    }
}

/// The lines of `s`: pieces between newline characters, a carriage return
/// directly before a newline shed, and no final empty line after a trailing
/// newline.  A piece not ended by a newline keeps a trailing carriage return.
pub open spec fn spec_lines(s: Seq<char>) -> Seq<Seq<char>>
    decreases s.len(),
{
    if s.len() == 0 {
        seq![]
    } else {
        match spec_find(s, '\n') {
            None => seq![s],
            Some(i) => if 0 <= i < s.len() {
                seq![strip_cr(s.take(i))] + spec_lines(s.skip(i + 1))
            } else {
                seq![s]
            },
        }
    }
}

/// At most `n` pieces of `s` split on separator `pat`; the last piece holds
/// the unsplit remainder.
pub open spec fn spec_splitn(n: nat, s: Seq<char>, pat: Seq<char>) -> Seq<Seq<char>>
    decreases n,
{
    if n == 0 {
        seq![]
    } else if n == 1 {
        seq![s]
    } else {
        match spec_find_sub(s, pat) {
            None => seq![s],
            Some(i) => seq![s.take(i)] + spec_splitn((n - 1) as nat, s.skip(i + pat.len()), pat),
        }
    }
}

/// A first occurrence found at or after `from` in `s` is the first occurrence
/// in `s` with its first `from` characters dropped.
pub proof fn lemma_find_char_shift(s: Seq<char>, from: int, j: int, c: char)
    requires
        0 <= from <= s.len(),
        from <= j < s.len(),
        s[j] == c,
        forall|t: int| from <= t < j ==> s[t] != c,
    ensures
        spec_find(s.skip(from), c) == Some(j - from),
{
    let r = s.skip(from);
    lemma_spec_find(r, c);
    assert(forall|t: int| 0 <= t < r.len() ==> r[t] == s[t + from]);
    assert(r[j - from] == c);
    match spec_find(r, c) {
        None => {
            assert(false);
        },
        Some(i) => {
            if i < j - from {
                assert(s[i + from] == c);
                assert(false);
            }
            if i > j - from {
                assert(r[j - from] != c);
                assert(false);
            }
        },
    }
}

/// When `c` does not occur at or after `from`, it does not occur in the
/// shifted sequence at all.
pub proof fn lemma_find_char_shift_none(s: Seq<char>, from: int, c: char)
    requires
        0 <= from <= s.len(),
        forall|t: int| from <= t < s.len() ==> s[t] != c,
    ensures
        spec_find(s.skip(from), c) == None::<int>,
{
    let r = s.skip(from);
    lemma_spec_find(r, c);
    assert(forall|t: int| 0 <= t < r.len() ==> r[t] == s[t + from]);
    match spec_find(r, c) {
        None => {
        },
        Some(i) => {
            assert(s[i + from] == c);
            assert(false);
        },
    }
}

/// Occurrences of `pat` in a shifted sequence correspond to occurrences in
/// the original one, `from` positions later.
pub proof fn lemma_has_sub_at_shift(s: Seq<char>, pat: Seq<char>, from: int, t: int)
    requires
        0 <= from <= s.len(),
        0 <= t,
    ensures
        has_sub_at(s.skip(from), pat, t) == has_sub_at(s, pat, t + from),
{
    let r = s.skip(from);
    if t + pat.len() <= r.len() {
        assert(r.subrange(t, t + pat.len()) =~= s.subrange(t + from, t + from + pat.len()));
    }
}

/// A first occurrence of `pat` found at or after `from` is the first
/// occurrence in the shifted sequence.
pub proof fn lemma_find_sub_shift(s: Seq<char>, pat: Seq<char>, from: int, j: int)
    requires
        0 <= from <= s.len(),
        from <= j,
        has_sub_at(s, pat, j),
        forall|t: int| from <= t < j ==> !has_sub_at(s, pat, t),
    ensures
        spec_find_sub(s.skip(from), pat) == Some(j - from),
{
    let r = s.skip(from);
    lemma_spec_find_sub(r, pat);
    assert forall|t: int| 0 <= t implies has_sub_at(r, pat, t) == has_sub_at(s, pat, t + from) by {
        lemma_has_sub_at_shift(s, pat, from, t);
    }
    assert(has_sub_at(r, pat, j - from));
    match spec_find_sub(r, pat) {
        None => {
            assert(false);
        },
        Some(i) => {
            if i < j - from {
                assert(has_sub_at(s, pat, i + from));
                assert(false);
            }
            if i > j - from {
                assert(!has_sub_at(r, pat, j - from));
                assert(false);
            }
        },
    }
}

/// When `pat` does not occur at or after `from`, it does not occur in the
/// shifted sequence at all.
pub proof fn lemma_find_sub_shift_none(s: Seq<char>, pat: Seq<char>, from: int)
    requires
        0 <= from <= s.len(),
        forall|t: int| from <= t ==> !has_sub_at(s, pat, t),
    ensures
        spec_find_sub(s.skip(from), pat) == None::<int>,
{
    let r = s.skip(from);
    lemma_spec_find_sub(r, pat);
    match spec_find_sub(r, pat) {
        None => {
        },
        Some(i) => {
            lemma_has_sub_at_shift(s, pat, from, i);
            assert(has_sub_at(s, pat, i + from));
            assert(false);
        },
    }
}

/// A two-way split yields one piece, or two exactly when the separator
/// occurs.
pub proof fn lemma_splitn2_len(s: Seq<char>, pat: Seq<char>)
    ensures
        1 <= spec_splitn(2, s, pat).len() <= 2,
        spec_splitn(2, s, pat).len() == 2 <==> spec_find_sub(s, pat) is Some,
        spec_splitn(2, s, pat).len() == 1 ==> spec_splitn(2, s, pat) == seq![s],
{
    match spec_find_sub(s, pat) {
        None => {
        },
        Some(i) => {
            assert(spec_splitn(1, s.skip(i + pat.len()), pat) == seq![s.skip(i + pat.len())]);
        },
    }
}

/// The first of at most two pieces of `s` split on `pat`.
pub open spec fn head2(s: Seq<char>, pat: Seq<char>) -> Seq<char> {
    spec_splitn(2, s, pat)[0]
}

/// The second of at most two pieces of `s` split on `pat`, when the
/// separator occurs.
pub open spec fn tail2(s: Seq<char>, pat: Seq<char>) -> Option<Seq<char>> {
    let p = spec_splitn(2, s, pat);
    if p.len() == 2 {
        Some(p[1])
    } else {
        None
    }
}

/// Relies on `String::push`: appends the given character to the end of the
/// string.
pub assume_specification[ String::push ](s: &mut String, ch: char)
    ensures
        final(s)@ == old(s)@.push(ch),
;

/// Compares two string slices by contents.
pub fn str_eq(a: &str, b: &str) -> (r: bool)
    ensures
        r == (a@ == b@),
{
    let la: usize = a.unicode_len();
    let lb: usize = b.unicode_len();
    if la != lb {
        assert(a@ != b@);
        return false;
    }
    let mut i: usize = 0;
    while i < la
        invariant
            la == a@.len(),
            la == b@.len(),
            0 <= i <= la,
            forall|k: int| 0 <= k < i ==> a@[k] == b@[k],
        decreases la - i,
    {
        if a.get_char(i) != b.get_char(i) {
            return false;
        }
        i = i + 1;
    }
    proof {
        assert(a@ =~= b@);
    }
    true
}

} // verus!
