//! The values that the engine writes into its log records, and how one
//! field decodes into one value.
use vstd::prelude::*;

use crate::numbers::{i32_text, i64_text, is_float_literal, is_float_text, parse_i32, parse_i64};
use crate::record_lines::{split_all, split_chars};
use crate::text::{
    chars_of, escape, lemma_unescape_escape, string_of, unescape, unescape_string, DELIMITER, ESCAPE,
};

verus! {

/// JavaScript and V8 values. As the log writes them, strings are ASCII,
/// with unprintable characters escaped as `\xNN` and others as `\uNNNN`.
#[derive(Clone, Debug, PartialEq)]
pub enum JSValue {
    String(String),
    Int(i64),
    /// A floating-point number, kept as the literal that the log holds.
    Float(String),
    RegEx(String),
    Boolean(bool),
    Null,
    Undefined,
    /// "V8-specific oddball type that leaks into the log data".
    V8Specific,
    Function { name: String, is_user_fn: bool },
    /// Anonymous function.
    Lambda,
    /// Object with the name of the constructor function.
    Object { index: i32, constructor: String },
    /// Object with only the index.
    ObjectUnknown(i32),
    /// Literal object.
    ObjectLiteral { index: i32, pairs: Vec<(String, String)> },
    /// A value the logging code is unsure about.
    Unsure,
}

/// What a `JSValue` holds, with its texts as character sequences.
pub enum JSValueModel {
    String(Seq<char>),
    Int(i64),
    Float(Seq<char>),
    RegEx(Seq<char>),
    Boolean(bool),
    Null,
    Undefined,
    V8Specific,
    Function { name: Seq<char>, is_user_fn: bool },
    Lambda,
    Object { index: i32, constructor: Seq<char> },
    ObjectUnknown(i32),
    ObjectLiteral { index: i32, pairs: Seq<(Seq<char>, Seq<char>)> },
    Unsure,
}

pub open spec fn pairs_view(pairs: Seq<(String, String)>) -> Seq<(Seq<char>, Seq<char>)> {
    pairs.map_values(|p: (String, String)| (p.0@, p.1@))
}

impl View for JSValue {
    type V = JSValueModel;

    open spec fn view(&self) -> JSValueModel {
        match self {
            JSValue::String(s) => JSValueModel::String(s@),
            JSValue::Int(n) => JSValueModel::Int(*n),
            JSValue::Float(s) => JSValueModel::Float(s@),
            JSValue::RegEx(s) => JSValueModel::RegEx(s@),
            JSValue::Boolean(b) => JSValueModel::Boolean(*b),
            JSValue::Null => JSValueModel::Null,
            JSValue::Undefined => JSValueModel::Undefined,
            JSValue::V8Specific => JSValueModel::V8Specific,
            JSValue::Function { name, is_user_fn } => JSValueModel::Function {
                name: name@,
                is_user_fn: *is_user_fn,
            },
            JSValue::Lambda => JSValueModel::Lambda,
            JSValue::Object { index, constructor } => JSValueModel::Object {
                index: *index,
                constructor: constructor@,
            },
            JSValue::ObjectUnknown(i) => JSValueModel::ObjectUnknown(*i),
            JSValue::ObjectLiteral { index, pairs } => JSValueModel::ObjectLiteral {
                index: *index,
                pairs: pairs_view(pairs@),
            },
            JSValue::Unsure => JSValueModel::Unsure,
        }
    }
}

/// The first index `i` at or after `from` where `p` holds an escaped
/// delimiter `\:`.
pub open spec fn escaped_colon_from(p: Seq<char>, from: int) -> Option<int>
    decreases p.len() - from,
{
    if from < 0 || from + 1 >= p.len() {
        None
    } else if p[from] == ESCAPE && p[from + 1] == DELIMITER {
        Some(from)
    } else {
        escaped_colon_from(p, from + 1)
    }
}

/// A `key\:value` member of an object literal, both sides unescaped.
pub open spec fn pair_of(p: Seq<char>) -> Option<(Seq<char>, Seq<char>)> {
    match escaped_colon_from(p, 0) {
        Some(i) => Some((unescape(p.take(i)), unescape(p.skip(i + 2)))),
        None => None,
    }
}

/// The members of an object literal, if each of them is a `key\:value`.
pub open spec fn pairs_of(ps: Seq<Seq<char>>) -> Option<Seq<(Seq<char>, Seq<char>)>> {
    if forall|i: int| 0 <= i < ps.len() ==> (#[trigger] pair_of(ps[i])) is Some {
        Some(ps.map_values(|p: Seq<char>| pair_of(p)->0))
    } else {
        None
    }
}

/// The object that the text between `{` and `}` describes: an index, then
/// nothing, a constructor name, or two or more `key\:value` members, all
/// separated by unescaped commas. Text of another shape gives an object of
/// unknown constructor with index -1.
pub open spec fn object_of(inner: Seq<char>) -> JSValueModel {
    let parts = split_all(inner, ',');
    match i32_text(parts[0]) {
        None => JSValueModel::ObjectUnknown(-1i32),
        Some(index) => if parts.len() == 1 {
            JSValueModel::ObjectUnknown(index as i32)
        } else if parts.len() == 2 {
            JSValueModel::Object { index: index as i32, constructor: unescape(parts[1]) }
        } else {
            match pairs_of(parts.skip(1)) {
                Some(pairs) => JSValueModel::ObjectLiteral { index: index as i32, pairs },
                None => JSValueModel::ObjectUnknown(-1i32),
            }
        },
    }
}

/// Whether `t` starts and ends with `c` and holds at least two characters.
pub open spec fn wrapped_in(t: Seq<char>, c: char) -> bool {
    t.len() >= 2 && t[0] == c && t.last() == c
}

/// The value that the field `t` denotes. The first rule that applies wins.
pub open spec fn value_of(t: Seq<char>) -> JSValueModel {
    if t == "#F"@ {
        JSValueModel::Boolean(false)
    } else if t == "#T"@ {
        JSValueModel::Boolean(true)
    } else if t == "#N"@ {
        JSValueModel::Null
    } else if t == "#U"@ {
        JSValueModel::Undefined
    } else if t == "#?"@ {
        JSValueModel::V8Specific
    } else if t == "<anonymous>"@ {
        JSValueModel::Lambda
    } else if t == "?"@ {
        JSValueModel::Unsure
    } else if wrapped_in(t, '"') {
        JSValueModel::String(unescape(t.subrange(1, t.len() - 1)))
    } else if wrapped_in(t, '/') {
        JSValueModel::RegEx(unescape(t.subrange(1, t.len() - 1)))
    } else if t.len() >= 2 && t[0] == '{' && t.last() == '}' {
        object_of(t.subrange(1, t.len() - 1))
    } else if i64_text(t) is Some {
        JSValueModel::Int(i64_text(t)->0 as i64)
    } else if is_float_text(t) {
        JSValueModel::Float(t)
    } else if t.len() >= 1 && t[0] == '%' {
        JSValueModel::Function { name: unescape(t.skip(1)), is_user_fn: false }
    } else {
        JSValueModel::Function { name: unescape(t), is_user_fn: true }
    }
}

/// Any text, with its delimiters and escapes escaped and put in double
/// quotes, decodes to the string of that very text: `"a\:b"` to `a:b`, and
/// `"\\"` to a single backslash.
pub proof fn lemma_quoted_string_decodes(s: Seq<char>)
    ensures
        value_of(seq!['"'] + escape(s) + seq!['"']) == JSValueModel::String(s),
{
    let t = seq!['"'] + escape(s) + seq!['"'];
    lemma_unescape_escape(s);
    assert(t.subrange(1, t.len() - 1) =~= escape(s));
    assert(t[0] == '"' && t.last() == '"');
    reveal_strlit("#F");
    reveal_strlit("#T");
    reveal_strlit("#N");
    reveal_strlit("#U");
    reveal_strlit("#?");
    reveal_strlit("<anonymous>");
    reveal_strlit("?");
    assert(t != "#F"@ && t != "#T"@ && t != "#N"@ && t != "#U"@ && t != "#?"@) by {
        assert("#F"@[0] == '#' && "#T"@[0] == '#' && "#N"@[0] == '#' && "#U"@[0] == '#'
            && "#?"@[0] == '#');
    }
    assert(t != "<anonymous>"@ && t != "?"@) by {
        assert("<anonymous>"@[0] == '<' && "?"@[0] == '?');
    }
}

/// Whether the characters `s` spell `w`.
pub fn chars_equal(s: &[char], w: &str) -> (r: bool)
    ensures
        r == (s@ == w@),
{
    let n = w.unicode_len();
    if s.len() != n {
        return false;
    }
    let mut i: usize = 0;
    while i < n
        invariant
            i <= n,
            n == s@.len(),
            n == w@.len(),
            forall|j: int| 0 <= j < i ==> s@[j] == w@[j],
        decreases n - i,
    {
        if s[i] != w.get_char(i) {
            return false;
        }
        i += 1;
    }
    assert(s@ =~= w@);
    true
}

/// Where in `p`, at or after `from`, the first escaped delimiter starts.
fn find_escaped_colon(p: &[char], from: usize) -> (r: Option<usize>)
    requires
        from <= p@.len(),
    ensures
        match escaped_colon_from(p@, from as int) {
            Some(i) => r is Some && r->0 == i,
            None => r is None,
        },
    decreases p@.len() - from,
{
    if p.len() - from < 2 {
        None
    } else if p[from] == ESCAPE && p[from + 1] == DELIMITER {
        Some(from)
    } else {
        find_escaped_colon(p, from + 1)
    }
}

proof fn lemma_escaped_colon_bound(p: Seq<char>, from: int)
    ensures
        match escaped_colon_from(p, from) {
            Some(i) => from <= i && i + 1 < p.len(),
            None => true,
        },
    decreases p.len() - from,
{
    if from >= 0 && from + 1 < p.len() && !(p[from] == ESCAPE && p[from + 1] == DELIMITER) {
        lemma_escaped_colon_bound(p, from + 1);
    }
}

/// The members `parts[1..]` of an object literal, or `None` where one of
/// them has no `\:`.
fn decode_pairs(parts: &Vec<Vec<char>>) -> (r: Option<Vec<(String, String)>>)
    requires
        parts@.len() >= 1,
    ensures
        ({
            let ps = parts@.map_values(|t: Vec<char>| t@).skip(1);
            match pairs_of(ps) {
                Some(pairs) => r is Some && pairs_view(r->0@) == pairs,
                None => r is None,
            }
        }),
{
    let ghost ps = parts@.map_values(|t: Vec<char>| t@).skip(1);
    let mut out: Vec<(String, String)> = Vec::new();
    let mut i: usize = 1;
    while i < parts.len()
        invariant
            1 <= i <= parts@.len(),
            ps == parts@.map_values(|t: Vec<char>| t@).skip(1),
            out@.len() == i - 1,
            forall|j: int| 0 <= j < i - 1 ==> (#[trigger] pair_of(ps[j])) is Some,
            pairs_view(out@) == ps.take(i - 1).map_values(|p: Seq<char>| pair_of(p)->0),
        decreases parts@.len() - i,
    {
        let p = parts[i].as_slice();
        assert(ps[i - 1] == p@);
        match find_escaped_colon(p, 0) {
            None => {
                assert(pair_of(ps[i - 1]) is None);
                return None;
            },
            Some(k) => {
                proof {
                    lemma_escaped_colon_bound(p@, 0);
                }
                let key = unescape_string(p, 0, k);
                let len = p.len();
                let val = unescape_string(p, k + 2, len);
                proof {
                    assert(p@.subrange(0, k as int) == p@.take(k as int));
                    assert(p@.subrange(k + 2, p@.len() as int) == p@.skip(k + 2));
                }
                let ghost prev = out@;
                out.push((key, val));
                proof {
                    assert(pairs_view(out@) =~= pairs_view(prev).push((key@, val@)));
                    assert(ps.take(i as int).map_values(|p: Seq<char>| pair_of(p)->0) =~= ps.take(
                        i - 1,
                    ).map_values(|p: Seq<char>| pair_of(p)->0).push(pair_of(ps[i - 1])->0));
                }
                i += 1;
            },
        }
    }
    assert(ps.take(i - 1) == ps);
    Some(out)
}

/// The object that `t[1..t.len() - 1]` describes, as `object_of` says.
fn decode_object(t: &[char]) -> (r: JSValue)
    requires
        t@.len() >= 2,
    ensures
        r@ == object_of(t@.subrange(1, t@.len() - 1)),
{
    let inner = vstd::slice::slice_subrange(t, 1, t.len() - 1);
    let parts = split_chars(inner, ',');
    let ghost ps = parts@.map_values(|t: Vec<char>| t@);
    assert(ps == split_all(inner@, ','));
    assert(parts@.len() >= 1) by {
        assert(split_all(inner@, ',').len() >= 1);
    }
    assert(ps[0] == parts[0]@);
    match parse_i32(parts[0].as_slice()) {
        None => JSValue::ObjectUnknown(-1),
        Some(index) => {
            if parts.len() == 1 {
                JSValue::ObjectUnknown(index)
            } else if parts.len() == 2 {
                assert(ps[1] == parts[1]@);
                let constructor = unescape_string(parts[1].as_slice(), 0, parts[1].len());
                assert(parts[1]@.subrange(0, parts[1]@.len() as int) == parts[1]@);
                JSValue::Object { index, constructor }
            } else {
                match decode_pairs(&parts) {
                    Some(pairs) => JSValue::ObjectLiteral { index, pairs },
                    None => JSValue::ObjectUnknown(-1),
                }
            }
        },
    }
}

/// The value that the field `t` denotes.
pub fn decode_value(t: &[char]) -> (r: JSValue)
    ensures
        r@ == value_of(t@),
{
    let n = t.len();
    if chars_equal(t, "#F") {
        JSValue::Boolean(false)
    } else if chars_equal(t, "#T") {
        JSValue::Boolean(true)
    } else if chars_equal(t, "#N") {
        JSValue::Null
    } else if chars_equal(t, "#U") {
        JSValue::Undefined
    } else if chars_equal(t, "#?") {
        JSValue::V8Specific
    } else if chars_equal(t, "<anonymous>") {
        JSValue::Lambda
    } else if chars_equal(t, "?") {
        JSValue::Unsure
    } else if n >= 2 && t[0] == '"' && t[n - 1] == '"' {
        JSValue::String(unescape_string(t, 1, n - 1))
    } else if n >= 2 && t[0] == '/' && t[n - 1] == '/' {
        JSValue::RegEx(unescape_string(t, 1, n - 1))
    } else if n >= 2 && t[0] == '{' && t[n - 1] == '}' {
        decode_object(t)
    } else {
        match parse_i64(t) {
            Some(v) => JSValue::Int(v),
            None => {
                if is_float_literal(t) {
                    JSValue::Float(string_of(t))
                } else if n >= 1 && t[0] == '%' {
                    assert(t@.subrange(1, n as int) == t@.skip(1));
                    JSValue::Function { name: unescape_string(t, 1, n), is_user_fn: false }
                } else {
                    assert(t@.subrange(0, n as int) == t@);
                    JSValue::Function { name: unescape_string(t, 0, n), is_user_fn: true }
                }
            },
        }
    }
}

impl JSValue {
    /// The value that the log field `token` denotes.
    pub fn from_token(token: &str) -> (r: JSValue)
        ensures
            r@ == value_of(token@),
    {
        let t = chars_of(token);
        decode_value(t.as_slice())
    }
}

} // verus!
