//! A byte-accurate view into one source file's text.
//!
//! A span records a range of a backing text together with the identifier of
//! the file the text came from and the offset of that text inside the file,
//! so that every value sliced out of a doc comment can still point a
//! diagnostic at its exact place in the original source.  All offsets and
//! lengths count characters of the backing text.

use vstd::prelude::*;

use crate::diagnostic::Diagnostic;
use crate::text::{
    has_sub_at, lemma_spec_find, lemma_spec_find_sub, lemma_trim_range, spec_find, spec_find_sub,
    spec_lines, spec_splitn, spec_trim, spec_trim_front, strip_cr, ws,
};

verus! {

/// An immutable view over a range of one source text.
pub struct Span {
    source: String,
    start: usize,
    len: usize,
    file_id: usize,
    source_offset: usize,
}

/// The texts of a sequence of spans.
pub open spec fn span_texts(v: Seq<Span>) -> Seq<Seq<char>> {
    v.map_values(|sp: Span| sp@)
}

impl View for Span {
    type V = Seq<char>;

    closed spec fn view(&self) -> Seq<char> {
        self.source@.subrange(self.start as int, self.start + self.len)
    }
}

impl Span {
    /// The range lies inside the backing text, and the backing text lies
    /// inside the addressable range of its file.
    #[verifier::type_invariant]
    pub closed spec fn wf(self) -> bool {
        self.start + self.len <= self.source@.len() && self.source_offset + self.source@.len()
            <= usize::MAX
    }

    pub closed spec fn spec_start(self) -> usize {
        self.start
    }

    pub closed spec fn spec_len(self) -> usize {
        self.len
    }

    pub closed spec fn spec_file_id(self) -> usize {
        self.file_id
    }

    pub closed spec fn spec_source_offset(self) -> usize {
        self.source_offset
    }

    /// What the type invariant yields about a span's position: its length is
    /// its text's length, and its whole range, shifted by its file offset,
    /// stays addressable.
    pub proof fn wf_facts(&self)
        requires
            self.wf(),
        ensures
            self.spec_len() == self@.len(),
            self.spec_start() + self.spec_source_offset() + self.spec_len() <= usize::MAX,
    {
    }

    /// Everything a span's behaviour depends on: its text, its position and
    /// its file.
    pub open spec fn same_span(self, other: Span) -> bool {
        self@ == other@ && self.spec_start() == other.spec_start() && self.spec_len()
            == other.spec_len() && self.spec_file_id() == other.spec_file_id()
            && self.spec_source_offset() == other.spec_source_offset()
    }

    /// A span cut out of `parent`: same file, same file offset, and a range
    /// inside the parent's range.
    pub open spec fn derived_from(self, parent: Span) -> bool {
        self.spec_file_id() == parent.spec_file_id() && self.spec_source_offset()
            == parent.spec_source_offset() && parent.spec_start() <= self.spec_start()
            && self.spec_start() + self.spec_len() <= parent.spec_start() + parent.spec_len()
    }

    /// The empty span of the given file.
    pub fn empty(file_id: usize) -> (r: Span)
        ensures
            r@ == Seq::<char>::empty(),
            r.spec_len() == 0,
            r.spec_start() == 0,
            r.spec_file_id() == file_id,
            r.spec_source_offset() == 0,
    {
        let r = Span { source: String::new(), start: 0, len: 0, file_id, source_offset: 0 };
        proof {
            assert(r@ =~= Seq::<char>::empty());
        }
        r
    }

    /// A span covering all of `source`, with no file attached.
    pub fn dummy(source: &str) -> (r: Span)
        ensures
            r@ == source@,
            r.spec_start() == 0,
            r.spec_len() == source@.len(),
            r.spec_file_id() == 0,
            r.spec_source_offset() == 0,
    {
        let len: usize = source.unicode_len();
        let r = Span {
            source: String::from_str(source),
            start: 0,
            len,
            file_id: 0,
            source_offset: 0,
        };
        proof {
            assert(r@ =~= source@);
        }
        r
    }

    /// A span covering all of `source`, which sits at character offset
    /// `source_offset` of file `file_id`.
    pub fn root(source: &str, file_id: usize, source_offset: usize) -> (r: Span)
        requires
            source_offset + source@.len() <= usize::MAX,
        ensures
            r@ == source@,
            r.spec_start() == 0,
            r.spec_len() == source@.len(),
            r.spec_file_id() == file_id,
            r.spec_source_offset() == source_offset,
    {
        let len: usize = source.unicode_len();
        let r = Span { source: String::from_str(source), start: 0, len, file_id, source_offset };
        proof {
            assert(r@ =~= source@);
        }
        r
    }

    pub fn start(&self) -> (r: usize)
        ensures
            r == self.spec_start(),
    {
        self.start
    }

    pub fn len(&self) -> (r: usize)
        ensures
            r == self.spec_len(),
            r == self@.len(),
    {
        proof {
            use_type_invariant(&*self);
        }
        self.len
    }

    pub fn file_id(&self) -> (r: usize)
        ensures
            r == self.spec_file_id(),
    {
        self.file_id
    }

    pub fn source_offset(&self) -> (r: usize)
        ensures
            r == self.spec_source_offset(),
    {
        self.source_offset
    }

    pub fn is_empty(&self) -> (r: bool)
        ensures
            r == (self@.len() == 0),
    {
        proof {
            use_type_invariant(&*self);
        }
        self.len == 0
    }

    /// The character at position `i` of the span's text.
    pub fn char_at(&self, i: usize) -> (c: char)
        requires
            i < self@.len(),
        ensures
            c == self@[i as int],
    {
        proof {
            use_type_invariant(&*self);
        }
        self.source.as_str().get_char(self.start + i)
    }

    /// An exact copy.
    pub fn duplicate(&self) -> (r: Span)
        ensures
            r.same_span(*self),
            r.derived_from(*self),
    {
        proof {
            use_type_invariant(&*self);
        }
        Span {
            source: self.source.clone(),
            start: self.start,
            len: self.len,
            file_id: self.file_id,
            source_offset: self.source_offset,
        }
    }

    /// The sub-span of length `len` starting `start` characters into this
    /// span.  Position information is preserved: the result still points into
    /// the original source.
    pub fn slice(&self, start: usize, len: usize) -> (r: Span)
        requires
            start + len <= self@.len(),
        ensures
            r@ == self@.subrange(start as int, start + len),
            r.spec_start() == self.spec_start() + start,
            r.spec_len() == len,
            r.derived_from(*self),
    {
        proof {
            use_type_invariant(&*self);
        }
        let r = Span {
            source: self.source.clone(),
            start: self.start + start,
            len,
            file_id: self.file_id,
            source_offset: self.source_offset,
        };
        proof {
            assert(r@ =~= self@.subrange(start as int, start + len));
        }
        r
    }

    /// The span's text as a string slice.
    pub fn as_str(&self) -> (r: &str)
        ensures
            r@ == self@,
    {
        proof {
            use_type_invariant(&*self);
        }
        self.source.as_str().substring_char(self.start, self.start + self.len)
    }

    /// The span's text as an owned string.
    pub fn to_string(&self) -> (r: String)
        ensures
            r@ == self@,
    {
        String::from_str(self.as_str())
    }

    /// Whether the span's text equals `other`.
    pub fn eq_str(&self, other: &str) -> (r: bool)
        ensures
            r == (self@ == other@),
    {
        crate::text::str_eq(self.as_str(), other)
    }

    /// Whether the span's text starts with `prefix`.
    pub fn starts_with(&self, prefix: &str) -> (r: bool)
        ensures
            r == (self@.len() >= prefix@.len() && self@.subrange(0, prefix@.len() as int)
                == prefix@),
    {
        let n: usize = self.len();
        let pn: usize = prefix.unicode_len();
        if n < pn {
            return false;
        }
        let mut i: usize = 0;
        while i < pn
            invariant
                pn <= n == self@.len(),
                pn == prefix@.len(),
                0 <= i <= pn,
                forall|k: int| 0 <= k < i ==> self@[k] == prefix@[k],
            decreases pn - i,
        {
            if self.char_at(i) != prefix.get_char(i) {
                assert(self@.subrange(0, pn as int)[i as int] != prefix@[i as int]);
                return false;
            }
            i = i + 1;
        }
        proof {
            assert(self@.subrange(0, pn as int) =~= prefix@);
        }
        true
    }

    /// Whether every character of the span's text is whitespace; true of the
    /// empty span.
    pub fn is_blank(&self) -> (r: bool)
        ensures
            r == (forall|k: int| 0 <= k < self@.len() ==> ws(self@[k])),
    {
        let n: usize = self.len();
        let mut i: usize = 0;
        while i < n
            invariant
                n == self@.len(),
                0 <= i <= n,
                forall|k: int| 0 <= k < i ==> ws(self@[k]),
            decreases n - i,
        {
            let c = self.char_at(i);
            if !(c == ' ' || c == '\t' || c == '\r' || c == '\n') {
                return false;
            }
            i = i + 1;
        }
        true
    }

    /// The position of the first non-whitespace character, if any.
    pub fn first_non_ws(&self) -> (r: Option<usize>)
        ensures
            match r {
                Some(i) => i < self@.len() && !ws(self@[i as int]) && (forall|k: int|
                    0 <= k < i ==> ws(self@[k])),
                None => forall|k: int| 0 <= k < self@.len() ==> ws(self@[k]),
            },
    {
        let n: usize = self.len();
        let mut i: usize = 0;
        while i < n
            invariant
                n == self@.len(),
                0 <= i <= n,
                forall|k: int| 0 <= k < i ==> ws(self@[k]),
            decreases n - i,
        {
            let c = self.char_at(i);
            if !(c == ' ' || c == '\t' || c == '\r' || c == '\n') {
                return Some(i);
            }
            i = i + 1;
        }
        None
    }

    /// The position of the first occurrence of `c` at or after `from`, with
    /// nothing found before it.
    pub fn find_char_from(&self, from: usize, c: char) -> (r: Option<usize>)
        requires
            from <= self@.len(),
        ensures
            match r {
                Some(j) => from <= j < self@.len() && self@[j as int] == c && (forall|t: int|
                    from <= t < j ==> self@[t] != c),
                None => forall|t: int| from <= t < self@.len() ==> self@[t] != c,
            },
    {
        let n: usize = self.len();
        let mut i: usize = from;
        while i < n
            invariant
                n == self@.len(),
                from <= i <= n,
                forall|t: int| from <= t < i ==> self@[t] != c,
            decreases n - i,
        {
            if self.char_at(i) == c {
                return Some(i);
            }
            i = i + 1;
        }
        None
    }

    /// Whether `pat` occurs in the span's text starting at position `at`.
    pub fn match_at(&self, at: usize, pat: &str) -> (r: bool)
        requires
            at <= self@.len(),
        ensures
            r == has_sub_at(self@, pat@, at as int),
    {
        let n: usize = self.len();
        let pn: usize = pat.unicode_len();
        if n - at < pn {
            return false;
        }
        let mut i: usize = 0;
        while i < pn
            invariant
                at + pn <= n == self@.len(),
                pn == pat@.len(),
                0 <= i <= pn,
                forall|k: int| 0 <= k < i ==> self@[at + k] == pat@[k],
            decreases pn - i,
        {
            if self.char_at(at + i) != pat.get_char(i) {
                assert(self@.subrange(at as int, at + pn)[i as int] != pat@[i as int]);
                return false;
            }
            i = i + 1;
        }
        proof {
            assert(self@.subrange(at as int, at + pn) =~= pat@);
        }
        true
    }

    /// The position of the first occurrence of `pat` at or after `from`.
    pub fn find_sub_from(&self, from: usize, pat: &str) -> (r: Option<usize>)
        requires
            from <= self@.len(),
        ensures
            match r {
                Some(j) => from <= j && has_sub_at(self@, pat@, j as int) && (forall|t: int|
                    from <= t < j ==> !has_sub_at(self@, pat@, t)),
                None => forall|t: int| from <= t ==> !has_sub_at(self@, pat@, t),
            },
    {
        let n: usize = self.len();
        let mut i: usize = from;
        while i < n
            invariant
                n == self@.len(),
                from <= i <= n,
                forall|t: int| from <= t < i ==> !has_sub_at(self@, pat@, t),
            decreases n - i,
        {
            if self.match_at(i, pat) {
                return Some(i);
            }
            i = i + 1;
        }
        if self.match_at(n, pat) {
            return Some(n);
        }
        proof {
            assert(forall|t: int| t > n ==> !has_sub_at(self@, pat@, t));
        }
        None
    }

    /// The lines of the span, as sub-spans: pieces between newline
    /// characters, each shedding a carriage return that preceded the newline,
    /// with no final empty line after a trailing newline.
    pub fn lines(&self) -> (r: Vec<Span>)
        ensures
            span_texts(r@) == spec_lines(self@),
            forall|i: int| 0 <= i < r@.len() ==> (#[trigger] r@[i]).derived_from(*self),
    {
        let mut r: Vec<Span> = Vec::new();
        let n: usize = self.len();
        let mut pos: usize = 0;
        proof {
            assert(self@.skip(0) =~= self@);
            assert(span_texts(r@) =~= Seq::<Seq<char>>::empty());
            assert(span_texts(r@) + spec_lines(self@) =~= spec_lines(self@));
        }
        while pos < n
            invariant
                n == self@.len(),
                0 <= pos <= n,
                spec_lines(self@) == span_texts(r@) + spec_lines(self@.skip(pos as int)),
                forall|i: int| 0 <= i < r@.len() ==> (#[trigger] r@[i]).derived_from(*self),
            decreases n - pos,
        {
            let ghost rem = self@.skip(pos as int);
            let ghost old_r = r@;
            let found = self.find_char_from(pos, '\n');
            proof {
                match found {
                    Some(j) => {
                        crate::text::lemma_find_char_shift(self@, pos as int, j as int, '\n');
                    },
                    None => {
                        crate::text::lemma_find_char_shift_none(self@, pos as int, '\n');
                    },
                }
            }
            match found {
                Some(j) => {
                    let cut: usize = if j > pos && self.char_at(j - 1) == '\r' {
                        j - 1
                    } else {
                        j
                    };
                    let line = self.slice(pos, cut - pos);
                    proof {
                        assert(rem.take(j - pos) =~= self@.subrange(pos as int, j as int));
                        assert(line@ =~= strip_cr(rem.take(j - pos)));
                        assert(spec_lines(rem) == seq![strip_cr(rem.take(j - pos))] + spec_lines(
                            rem.skip(j - pos + 1),
                        ));
                        assert(self@.skip(j + 1) =~= rem.skip(j - pos + 1));
                    }
                    r.push(line);
                    proof {
                        assert(span_texts(r@) =~= span_texts(old_r) + seq![line@]);
                        assert((span_texts(old_r) + seq![line@]) + spec_lines(self@.skip(j + 1))
                            =~= span_texts(old_r) + spec_lines(rem));
                    }
                    pos = j + 1;
                },
                None => {
                    let line = self.slice(pos, n - pos);
                    proof {
                        assert(line@ =~= rem);
                        assert(rem.len() > 0);
                        assert(spec_lines(rem) == seq![rem]);
                    }
                    r.push(line);
                    pos = n;
                    proof {
                        assert(span_texts(r@) =~= span_texts(old_r) + seq![rem]);
                        assert(self@.skip(pos as int) =~= Seq::<char>::empty());
                        assert(spec_lines(self@.skip(pos as int)) == Seq::<Seq<char>>::empty());
                        assert(span_texts(r@) + spec_lines(self@.skip(pos as int)) =~= span_texts(
                            old_r,
                        ) + spec_lines(rem));
                    }
                },
            }
        }
        proof {
            assert(self@.skip(pos as int) =~= Seq::<char>::empty());
            assert(spec_lines(self@.skip(pos as int)) == Seq::<Seq<char>>::empty());
            assert(span_texts(r@) + spec_lines(self@.skip(pos as int)) =~= span_texts(r@));
        }
        r
    }

    /// At most `n` sub-spans split on the separator `pat`; the last one keeps
    /// the unsplit remainder.
    pub fn splitn(&self, n: usize, pat: &str) -> (r: Vec<Span>)
        requires
            pat@.len() >= 1,
        ensures
            span_texts(r@) == spec_splitn(n as nat, self@, pat@),
            forall|i: int| 0 <= i < r@.len() ==> (#[trigger] r@[i]).derived_from(*self),
    {
        let mut r: Vec<Span> = Vec::new();
        if n == 0 {
            proof {
                assert(span_texts(r@) =~= spec_splitn(0nat, self@, pat@));
            }
            return r;
        }
        let sn: usize = self.len();
        let pn: usize = pat.unicode_len();
        let mut pos: usize = 0;
        let mut k: usize = n;
        proof {
            assert(self@.skip(0) =~= self@);
            assert(span_texts(r@) =~= Seq::<Seq<char>>::empty());
            assert(span_texts(r@) + spec_splitn(n as nat, self@, pat@) =~= spec_splitn(
                n as nat,
                self@,
                pat@,
            ));
        }
        loop
            invariant
                sn == self@.len(),
                pn == pat@.len(),
                pn >= 1,
                1 <= k <= n,
                0 <= pos <= sn,
                spec_splitn(n as nat, self@, pat@) == span_texts(r@) + spec_splitn(
                    k as nat,
                    self@.skip(pos as int),
                    pat@,
                ),
                forall|i: int| 0 <= i < r@.len() ==> (#[trigger] r@[i]).derived_from(*self),
            decreases k,
        {
            let ghost rem = self@.skip(pos as int);
            let ghost old_r = r@;
            if k == 1 {
                let piece = self.slice(pos, sn - pos);
                proof {
                    assert(piece@ =~= rem);
                }
                r.push(piece);
                proof {
                    assert(spec_splitn(1nat, rem, pat@) =~= seq![rem]);
                    assert(span_texts(r@) =~= span_texts(old_r) + seq![rem]);
                }
                return r;
            }
            let found = self.find_sub_from(pos, pat);
            proof {
                match found {
                    Some(j) => {
                        crate::text::lemma_find_sub_shift(self@, pat@, pos as int, j as int);
                    },
                    None => {
                        crate::text::lemma_find_sub_shift_none(self@, pat@, pos as int);
                    },
                }
            }
            match found {
                Some(j) => {
                    let piece = self.slice(pos, j - pos);
                    proof {
                        assert(piece@ =~= rem.take(j - pos));
                        assert(has_sub_at(self@, pat@, j as int));
                        assert(spec_splitn(k as nat, rem, pat@) == seq![rem.take(j - pos)]
                            + spec_splitn((k - 1) as nat, rem.skip(j - pos + pat@.len()), pat@));
                        assert(self@.skip(j + pn) =~= rem.skip(j - pos + pat@.len()));
                    }
                    r.push(piece);
                    proof {
                        assert(span_texts(r@) =~= span_texts(old_r) + seq![piece@]);
                        assert((span_texts(old_r) + seq![piece@]) + spec_splitn(
                            (k - 1) as nat,
                            self@.skip(j + pn),
                            pat@,
                        ) =~= span_texts(old_r) + spec_splitn(k as nat, rem, pat@));
                    }
                    pos = j + pn;
                    k = k - 1;
                },
                None => {
                    let piece = self.slice(pos, sn - pos);
                    proof {
                        assert(piece@ =~= rem);
                    }
                    r.push(piece);
                    proof {
                        assert(spec_splitn(k as nat, rem, pat@) == seq![rem]);
                        assert(span_texts(r@) =~= span_texts(old_r) + seq![rem]);
                    }
                    return r;
                },
            }
        }
    }

    /// The span with leading and trailing whitespace shed.
    pub fn trim(&self) -> (r: Span)
        ensures
            r@ == spec_trim(self@),
            r.derived_from(*self),
            r.spec_start() == self.spec_start() + (self@.len() - spec_trim_front(self@).len()),
    {
        let n: usize = self.len();
        let mut a: usize = 0;
        while a < n && char_is_ws(self.char_at(a))
            invariant
                n == self@.len(),
                0 <= a <= n,
                forall|k: int| 0 <= k < a ==> ws(self@[k]),
            decreases n - a,
        {
            a = a + 1;
        }
        if a == n {
            proof {
                lemma_trim_range(self@, n as int, n as int);
                crate::text::lemma_trim_front_skip(self@, n as int);
            }
            let r = self.slice(n, 0);
            proof {
                assert(r@ =~= spec_trim(self@));
                assert(spec_trim_front(self@).len() == 0);
            }
            return r;
        }
        let mut b: usize = n;
        while b > a + 1 && char_is_ws(self.char_at(b - 1))
            invariant
                n == self@.len(),
                0 <= a < n,
                !ws(self@[a as int]),
                a + 1 <= b <= n,
                forall|k: int| b <= k < n ==> ws(self@[k]),
            decreases b,
        {
            b = b - 1;
        }
        proof {
            if b == a + 1 {
                assert(!ws(self@[a as int]));
            }
            lemma_trim_range(self@, a as int, b as int);
            crate::text::lemma_trim_front_skip(self@, a as int);
            assert(spec_trim_front(self@).len() == self@.len() - a);
        }
        let r = self.slice(a, b - a);
        proof {
            assert(r@ =~= spec_trim(self@));
        }
        r
    }

    /// The span past `prefix`, when the span's text starts with `prefix`.
    pub fn strip_prefix(&self, prefix: &str) -> (r: Option<Span>)
        ensures
            match r {
                Some(t) => self@.len() >= prefix@.len() && self@.subrange(0, prefix@.len() as int)
                    == prefix@ && t@ == self@.skip(prefix@.len() as int) && t.derived_from(*self)
                    && t.spec_start() == self.spec_start() + prefix@.len(),
                None => !(self@.len() >= prefix@.len() && self@.subrange(0, prefix@.len() as int)
                    == prefix@),
            },
    {
        if self.starts_with(prefix) {
            let pn: usize = prefix.unicode_len();
            let n: usize = self.len();
            let t = self.slice(pn, n - pn);
            proof {
                assert(t@ =~= self@.skip(prefix@.len() as int));
            }
            Some(t)
        } else {
            None
        }
    }

    /// A diagnostic whose primary range is this span's place in its file.
    pub fn diagnostic(&self, text: &str) -> (d: Diagnostic)
        ensures
            d.spec_text() == text@,
            d.spec_start() == self.spec_start() + self.spec_source_offset(),
            d.spec_len() == self.spec_len(),
            d.spec_file_id() == self.spec_file_id(),
            d.spec_additional().len() == 0,
    {
        Diagnostic::from_span(text, self)
    }

    /// Replaces this span with `span`; used to re-blame a parsed tag's
    /// location onto its whole tag line.
    pub fn replace(&mut self, span: Span)
        ensures
            *final(self) == span,
    {
        *self = span;
    }
}

/// Whether `c` is one of the whitespace characters the trimming rules know.
pub fn char_is_ws(c: char) -> (r: bool)
    ensures
        r == ws(c),
{
    c == ' ' || c == '\t' || c == '\r' || c == '\n'
}

impl Clone for Span {
    /// The clone has the same text, position and file as the original.
    fn clone(&self) -> (r: Span)
        ensures
            r.same_span(*self),
    {
        self.duplicate()
    }
}

impl PartialEq for Span {
    /// Span equality compares rendered text, not offsets: a sliced sub-span
    /// with different offsets but equal text is equal.
    fn eq(&self, other: &Span) -> (r: bool) {
        self.eq_str(other.as_str())
    }
}

impl vstd::std_specs::cmp::PartialEqSpecImpl for Span {
    open spec fn obeys_eq_spec() -> bool {
        true
    }

    open spec fn eq_spec(&self, other: &Span) -> bool {
        self@ == other@
    }
}

} // verus!
