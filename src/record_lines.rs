//! Splitting a log line into fields on delimiters that no escape precedes.
use vstd::prelude::*;

use crate::text::{chars_of, string_of, DELIMITER, ESCAPE};

verus! {

/// The length of the first field of `s`: the characters before the first
/// `d` that no escape precedes, or all of `s`. An escape takes the character
/// after it into the field, whatever that is.
pub open spec fn field_len(s: Seq<char>, d: char) -> nat
    decreases s.len(),
{
    if s.len() == 0 {
        0
    } else if s[0] == ESCAPE && s.len() >= 2 {
        2 + field_len(s.skip(2), d)
    } else if s[0] == d {
        0
    } else {
        1 + field_len(s.skip(1), d)
    }
}

/// A field is no longer than the text it starts.
pub proof fn lemma_field_len_bound(s: Seq<char>, d: char)
    ensures
        field_len(s, d) <= s.len(),
    decreases s.len(),
{
    if s.len() >= 2 && s[0] == ESCAPE {
        lemma_field_len_bound(s.skip(2), d);
    } else if s.len() > 0 && s[0] != d {
        lemma_field_len_bound(s.skip(1), d);
    }
}

/// `s` cut at every unescaped `d`; an empty `s` gives one empty piece, and a
/// trailing `d` gives a trailing empty piece.
pub open spec fn split_all(s: Seq<char>, d: char) -> Seq<Seq<char>>
    decreases s.len(),
{
    let n = field_len(s, d);
    if n >= s.len() {
        seq![s]
    } else {
        seq![s.take(n as int)] + split_all(s.skip(n + 1 as int), d)
    }
}

/// The next field of the remaining text `s` and the text after it: `None`
/// once nothing remains. The delimiter that ends the field is consumed.
pub open spec fn next_field(s: Seq<char>) -> Option<(Seq<char>, Seq<char>)> {
    if s.len() == 0 {
        None
    } else {
        let n = field_len(s, DELIMITER);
        if n >= s.len() {
            Some((s, Seq::empty()))
        } else {
            Some((s.take(n as int), s.skip(n + 1 as int)))
        }
    }
}

/// All the fields that splitting `s` yields, in order.
pub open spec fn fields(s: Seq<char>) -> Seq<Seq<char>>
    decreases s.len(),
{
    if s.len() == 0 {
        Seq::empty()
    } else {
        let n = field_len(s, DELIMITER);
        if n >= s.len() {
            seq![s]
        } else {
            seq![s.take(n as int)] + fields(s.skip(n + 1 as int))
        }
    }
}

/// A field that ends before the text does ends at the delimiter.
pub proof fn lemma_field_ends_at_delimiter(s: Seq<char>, d: char)
    ensures
        field_len(s, d) < s.len() ==> s[field_len(s, d) as int] == d,
    decreases s.len(),
{
    if s.len() >= 2 && s[0] == ESCAPE {
        lemma_field_ends_at_delimiter(s.skip(2), d);
    } else if s.len() > 0 && s[0] != d {
        lemma_field_ends_at_delimiter(s.skip(1), d);
    }
}

/// Splitting loses no text: the field handed out, the delimiter that ended
/// it (where one did), and the text left for later, which `drain` hands out
/// unchanged, make up the text as it was.
pub proof fn lemma_split_keeps_text(s: Seq<char>)
    requires
        s.len() > 0,
    ensures
        ({
            let (t, rest) = next_field(s)->0;
            if field_len(s, DELIMITER) < s.len() {
                s == t + seq![DELIMITER] + rest
            } else {
                t == s && rest.len() == 0
            }
        }),
{
    let n = field_len(s, DELIMITER);
    if n < s.len() {
        lemma_field_ends_at_delimiter(s, DELIMITER);
        assert(s =~= s.take(n as int) + seq![DELIMITER] + s.skip(n + 1 as int));
    }
}

/// The end of the field of `s` that starts at `from`: the index of the
/// first `d` after `from` that no escape precedes, or the length of `s`.
pub fn field_end(s: &[char], from: usize, d: char) -> (r: usize)
    requires
        from <= s@.len(),
    ensures
        from <= r <= s@.len(),
        r - from == field_len(s@.skip(from as int), d),
{
    let mut i: usize = from;
    while i < s.len()
        invariant
            from <= i <= s@.len(),
            field_len(s@.skip(from as int), d) == (i - from) + field_len(s@.skip(i as int), d),
        decreases s@.len() - i,
    {
        let rest = Ghost(s@.skip(i as int));
        if s[i] == ESCAPE && i + 1 < s.len() {
            assert(rest@.skip(2) == s@.skip(i + 2));
            i += 2;
        } else if s[i] == d {
            return i;
        } else {
            assert(rest@.skip(1) == s@.skip(i + 1));
            i += 1;
        }
    }
    i
}

/// `s` cut at every unescaped `d`, as `split_all` says.
pub fn split_chars(s: &[char], d: char) -> (r: Vec<Vec<char>>)
    ensures
        r@.map_values(|t: Vec<char>| t@) == split_all(s@, d),
{
    let mut out: Vec<Vec<char>> = Vec::new();
    let mut pos: usize = 0;
    assert(s@.skip(0) == s@);
    loop
        invariant
            pos <= s@.len(),
            out@.map_values(|t: Vec<char>| t@) + split_all(s@.skip(pos as int), d) == split_all(
                s@,
                d,
            ),
        decreases s@.len() + 1 - pos,
    {
        let ghost prev = out@.map_values(|t: Vec<char>| t@);
        let ghost rest = s@.skip(pos as int);
        let end = field_end(s, pos, d);
        let piece = vstd::slice::slice_to_vec(vstd::slice::slice_subrange(s, pos, end));
        assert(piece@ == rest.take(end - pos));
        out.push(piece);
        assert(out@.map_values(|t: Vec<char>| t@) =~= prev.push(piece@));
        if end < s.len() {
            assert(rest.skip(end - pos + 1) == s@.skip(end + 1));
            assert(prev.push(piece@) + split_all(s@.skip(end + 1), d) =~= prev + (seq![piece@]
                + split_all(s@.skip(end + 1), d)));
            pos = end + 1;
        } else {
            assert(rest.take(end - pos) == rest);
            assert(prev + seq![rest] =~= prev.push(piece@));
            return out;
        }
    }
}

/// A log line's payload, handed out field by field on `:` that no `\`
/// precedes. The escapes stay in the fields.
pub struct SplitRecordLine {
    chars: Vec<char>,
    pos: usize,
}

impl View for SplitRecordLine {
    type V = Seq<char>;

    /// The text that has not been handed out yet.
    closed spec fn view(&self) -> Seq<char> {
        self.chars@.skip(self.pos as int)
    }
}

impl SplitRecordLine {
    #[verifier::type_invariant]
    spec fn inv(&self) -> bool {
        self.pos <= self.chars@.len()
    }

    /// Splitting the text `remaining`.
    pub fn new(remaining: &str) -> (r: SplitRecordLine)
        ensures
            r@ == remaining@,
    {
        let chars = chars_of(remaining);
        assert(chars@.skip(0) == chars@);
        SplitRecordLine { chars, pos: 0 }
    }

    /// Splitting from a line's characters `line[from..]`.
    pub fn from_chars(line: &[char], from: usize) -> (r: SplitRecordLine)
        requires
            from <= line@.len(),
        ensures
            r@ == line@.skip(from as int),
    {
        let chars = vstd::slice::slice_to_vec(line);
        SplitRecordLine { chars, pos: from }
    }

    /// The next field, as characters.
    pub fn next_chars(&mut self) -> (r: Option<Vec<char>>)
        ensures
            match next_field(old(self)@) {
                None => r is None && final(self)@ == old(self)@,
                Some((t, rest)) => r is Some && r->0@ == t && final(self)@ == rest,
            },
    {
        proof {
            use_type_invariant(&*self);
        }
        if self.pos >= self.chars.len() {
            return None;
        }
        let start = self.pos;
        let end = field_end(self.chars.as_slice(), start, DELIMITER);
        let token = vstd::slice::slice_to_vec(
            vstd::slice::slice_subrange(self.chars.as_slice(), start, end),
        );
        proof {
            let s = self.chars@.skip(start as int);
            assert(token@ == s.take(end - start));
            if end < self.chars@.len() {
                assert(s.skip(end - start + 1) == self.chars@.skip(end + 1));
            } else {
                assert(s.take(end - start) == s);
            }
        }
        if end < self.chars.len() {
            self.pos = end + 1;
        } else {
            self.pos = end;
        }
        Some(token)
    }

    /// The next field.
    pub fn next(&mut self) -> (r: Option<String>)
        ensures
            match next_field(old(self)@) {
                None => r is None && final(self)@ == old(self)@,
                Some((t, rest)) => r is Some && r->0@ == t && final(self)@ == rest,
            },
    {
        match self.next_chars() {
            Some(t) => Some(string_of(t.as_slice())),
            None => None,
        }
    }

    /// All that remains, unsplit, as characters; nothing remains after.
    pub fn drain_chars(&mut self) -> (r: Vec<char>)
        ensures
            r@ == old(self)@,
            final(self)@ == Seq::<char>::empty(),
    {
        proof {
            use_type_invariant(&*self);
        }
        let out = vstd::slice::slice_to_vec(
            vstd::slice::slice_subrange(self.chars.as_slice(), self.pos, self.chars.len()),
        );
        self.pos = self.chars.len();
        out
    }

    /// All that remains, unsplit; nothing remains after.
    pub fn drain(&mut self) -> (r: String)
        ensures
            r@ == old(self)@,
            final(self)@ == Seq::<char>::empty(),
    {
        let out = self.drain_chars();
        string_of(out.as_slice())
    }

    /// The fields that remain, in order; nothing remains after.
    pub fn rest_fields(&mut self) -> (r: Vec<Vec<char>>)
        ensures
            r@.map_values(|t: Vec<char>| t@) == fields(old(self)@),
            final(self)@ == Seq::<char>::empty(),
    {
        let mut out: Vec<Vec<char>> = Vec::new();
        loop
            invariant
                out@.map_values(|t: Vec<char>| t@) + fields(self@) == fields(old(self)@),
            decreases self@.len(),
        {
            let ghost before = self@;
            let ghost prev = out@.map_values(|t: Vec<char>| t@);
            match self.next_chars() {
                Some(t) => {
                    proof {
                        lemma_field_len_bound(before, DELIMITER);
                    }
                    out.push(t);
                    assert(out@.map_values(|t: Vec<char>| t@) =~= prev.push(t@));
                    assert(fields(before) == seq![t@] + fields(self@));
                    assert(prev.push(t@) + fields(self@) =~= prev + (seq![t@] + fields(self@)));
                },
                None => {
                    assert(self@ =~= Seq::<char>::empty());
                    assert(prev + fields(self@) =~= prev);
                    return out;
                },
            }
        }
    }
}

} // verus!
