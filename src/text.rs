use vstd::prelude::*;
use vstd::std_specs::iter::IteratorSpec;

verus! {

/// Relies on `String::push`, which appends the character to the end of the
/// string.
pub assume_specification[ std::string::String::push ](s: &mut std::string::String, ch: char)
    ensures
        final(s)@ == old(s)@.push(ch),
;

/// The characters of `s`, in order.
pub fn chars_of(s: &str) -> (r: Vec<char>)
    ensures
        r@ == s@,
{
    let mut out: Vec<char> = Vec::new();
    for c in iter: s.chars()
        invariant
            out@ == iter.seq().subrange(0, iter.index() as int),
            iter.seq() == s@,
    {
        out.push(c);
    }
    out
}

/// A `String` holding the characters of `cs`.
pub fn string_of(cs: &[char]) -> (r: String)
    ensures
        r@ == cs@,
{
    let mut out = String::new();
    let mut i: usize = 0;
    while i < cs.len()
        invariant
            i <= cs@.len(),
            out@ == cs@.subrange(0, i as int),
        decreases cs@.len() - i,
    {
        out.push(cs[i]);
        i += 1;
        proof { assert(cs@.subrange(0, i as int) == cs@.subrange(0, i - 1).push(cs@[i - 1])); }
    }
    proof { assert(cs@.subrange(0, cs@.len() as int) == cs@); }
    out
}

/// The escape character of the log format.
pub const ESCAPE: char = '\\';

/// The field delimiter of the log format.
pub const DELIMITER: char = ':';

/// `s` with each escaped delimiter (`\:`) read as `:` and each escaped
/// escape (`\\`) read as `\`, from left to right; other characters,
/// and an escape before any other character, stay as they are.
pub open spec fn unescape(s: Seq<char>) -> Seq<char>
    decreases s.len(),
{
    if s.len() == 0 {
        s
    } else if s.len() >= 2 && s[0] == ESCAPE && (s[1] == DELIMITER || s[1] == ESCAPE) {
        seq![s[1]] + unescape(s.skip(2))
    } else {
        seq![s[0]] + unescape(s.skip(1))
    }
}

/// `s` written so that `unescape` gives it back: each `:` and `\` gets an
/// escape before it.
pub open spec fn escape(s: Seq<char>) -> Seq<char>
    decreases s.len(),
{
    if s.len() == 0 {
        s
    } else if s[0] == DELIMITER || s[0] == ESCAPE {
        seq![ESCAPE, s[0]] + escape(s.skip(1))
    } else {
        seq![s[0]] + escape(s.skip(1))
    }
}

/// Reading an escaped text gives back the text.
pub proof fn lemma_unescape_escape(s: Seq<char>)
    ensures
        unescape(escape(s)) == s,
    decreases s.len(),
{
    if s.len() > 0 {
        lemma_unescape_escape(s.skip(1));
        let e = escape(s);
        if s[0] == DELIMITER || s[0] == ESCAPE {
            assert(e.skip(2) == escape(s.skip(1)));
        } else {
            assert(e.skip(1) == escape(s.skip(1)));
        }
        assert(s == seq![s[0]] + s.skip(1));
    }
}

/// The characters of `s[from..to]` unescaped.
pub fn unescape_chars(s: &[char], from: usize, to: usize) -> (r: Vec<char>)
    requires
        from <= to <= s@.len(),
    ensures
        r@ == unescape(s@.subrange(from as int, to as int)),
{
    let mut out: Vec<char> = Vec::new();
    let mut i: usize = from;
    while i < to
        invariant
            from <= i <= to <= s@.len(),
            out@ + unescape(s@.subrange(i as int, to as int)) == unescape(
                s@.subrange(from as int, to as int),
            ),
        decreases to - i,
    {
        let rest = Ghost(s@.subrange(i as int, to as int));
        if i + 1 < to && s[i] == ESCAPE && (s[i + 1] == DELIMITER || s[i + 1] == ESCAPE) {
            out.push(s[i + 1]);
            assert(rest@.skip(2) == s@.subrange(i + 2, to as int));
            i += 2;
        } else {
            out.push(s[i]);
            assert(rest@.skip(1) == s@.subrange(i + 1, to as int));
            i += 1;
        }
    }
    assert(unescape(s@.subrange(to as int, to as int)) == Seq::<char>::empty());
    out
}

/// The string of `s[from..to]` unescaped.
pub fn unescape_string(s: &[char], from: usize, to: usize) -> (r: String)
    requires
        from <= to <= s@.len(),
    ensures
        r@ == unescape(s@.subrange(from as int, to as int)),
{
    let cs = unescape_chars(s, from, to);
    string_of(cs.as_slice())
}

/// Whether `pat` occurs in `s` starting at index `i`.
pub open spec fn occurs_at(s: Seq<char>, pat: Seq<char>, i: int) -> bool {
    0 <= i && i + pat.len() <= s.len() && s.subrange(i, i + pat.len()) == pat
}

/// Whether `pat` occurs somewhere in `s`.
pub open spec fn contains(s: Seq<char>, pat: Seq<char>) -> bool {
    exists|i: int| occurs_at(s, pat, i)
}

/// Whether `pat` occurs in `s[..n]`.
pub fn contains_in_prefix(s: &[char], n: usize, pat: &[char]) -> (r: bool)
    requires
        n <= s@.len(),
    ensures
        r == contains(s@.subrange(0, n as int), pat@),
{
    let ghost p = s@.subrange(0, n as int);
    if pat.len() > n {
        assert forall|i: int| !occurs_at(p, pat@, i) by {}
        return false;
    }
    let last = n - pat.len();
    let mut i: usize = 0;
    while i <= last
        invariant
            last + pat@.len() == n <= s@.len(),
            p == s@.subrange(0, n as int),
            forall|j: int| 0 <= j < i ==> !occurs_at(p, pat@, j),
        decreases last + 1 - i,
    {
        let mut k: usize = 0;
        let mut same = true;
        while k < pat.len()
            invariant
                i <= last,
                last + pat@.len() == n <= s@.len(),
                k <= pat@.len(),
                same == (forall|j: int| 0 <= j < k ==> s@[i + j] == pat@[j]),
            decreases pat@.len() - k,
        {
            if s[i + k] != pat[k] {
                same = false;
            }
            k += 1;
        }
        if same {
            assert(p.subrange(i as int, i + pat@.len()) =~= pat@);
            assert(occurs_at(p, pat@, i as int));
            return true;
        }
        assert(!occurs_at(p, pat@, i as int)) by {
            let w = choose|j: int| 0 <= j < pat@.len() && s@[i + j] != pat@[j];
            if p.subrange(i as int, i + pat@.len()) == pat@ {
                assert(p.subrange(i as int, i + pat@.len())[w] == pat@[w]);
            }
        }
        i += 1;
    }
    assert forall|j: int| !occurs_at(p, pat@, j) by {
        if 0 <= j < i {
        }
    }
    false
}

} // verus!
