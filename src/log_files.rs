//! Log file names, and the records of a log file's lines.
use vstd::prelude::*;

use crate::js_values::chars_equal;
use crate::log_records::{record_of, LogRecord, LogRecordErr, LogRecordModel};
use crate::numbers::{parse_u32, parse_u64, u32_text, u64_text};
use crate::text::{chars_of, string_of};

verus! {

/// Whether `s` begins with `p`.
pub open spec fn starts_with(s: Seq<char>, p: Seq<char>) -> bool {
    s.len() >= p.len() && s.take(p.len() as int) == p
}

/// Whether `s` finishes with `p`.
pub open spec fn ends_with(s: Seq<char>, p: Seq<char>) -> bool {
    s.len() >= p.len() && s.skip(s.len() - p.len()) == p
}

/// Whether `name` has the shape of a log file name: `vv8-` first and
/// `.log` last.
pub open spec fn is_log_file_name(name: Seq<char>) -> bool {
    starts_with(name, "vv8-"@) && ends_with(name, ".log"@)
}

/// The length of `s` up to the first `d`, or all of it.
pub open spec fn plain_field_len(s: Seq<char>, d: char) -> nat
    decreases s.len(),
{
    if s.len() == 0 || s[0] == d {
        0
    } else {
        1 + plain_field_len(s.skip(1), d)
    }
}

/// `s` cut at every `d`, as `str::split` cuts it.
pub open spec fn plain_split(s: Seq<char>, d: char) -> Seq<Seq<char>>
    decreases s.len(),
{
    let n = plain_field_len(s, d);
    if n >= s.len() {
        seq![s]
    } else {
        seq![s.take(n as int)] + plain_split(s.skip(n + 1 as int), d)
    }
}

/// Information in the log file name that the engine creates:
/// `vv8-$TIMESTAMP-$PID-$TID-$THREAD_NAME.log`, e.g.,
/// `vv8-1726285073665-87-87-chrome.0.log`.
#[derive(Clone, Debug, PartialEq, Eq, Hash)]
pub struct LogFileInfo {
    /// The timestamp part of the file name.
    pub timestamp: u64,
    /// The process ID part of the file name.
    pub pid: u32,
    /// The thread ID part of the file name.
    pub tid: u32,
    /// The thread name part of the file name.
    pub thread_name: String,
}

/// What a `LogFileInfo` holds.
pub struct LogFileInfoModel {
    pub timestamp: u64,
    pub pid: u32,
    pub tid: u32,
    pub thread_name: Seq<char>,
}

impl View for LogFileInfo {
    type V = LogFileInfoModel;

    open spec fn view(&self) -> LogFileInfoModel {
        LogFileInfoModel {
            timestamp: self.timestamp,
            pid: self.pid,
            tid: self.tid,
            thread_name: self.thread_name@,
        }
    }
}

/// Error when parsing a log file name to `LogFileInfo`.
#[derive(Clone, Copy, Debug, PartialEq, Eq, Structural)]
pub enum LogFileInfoErr {
    NotALogFileName,
    TimestampParsing,
    PidParsing,
    TidParsing,
}

/// What the parts between `vv8-` and `.log` say: four parts cut at `-`, the
/// first three numbers.
pub open spec fn info_of_middle(middle: Seq<char>) -> Result<LogFileInfoModel, LogFileInfoErr> {
    let parts = plain_split(middle, '-');
    if parts.len() != 4 {
        Err(LogFileInfoErr::NotALogFileName)
    } else {
        match u64_text(parts[0]) {
            None => Err(LogFileInfoErr::TimestampParsing),
            Some(timestamp) => match u32_text(parts[1]) {
                None => Err(LogFileInfoErr::PidParsing),
                Some(pid) => match u32_text(parts[2]) {
                    None => Err(LogFileInfoErr::TidParsing),
                    Some(tid) => Ok(
                        LogFileInfoModel {
                            timestamp: timestamp as u64,
                            pid: pid as u32,
                            tid: tid as u32,
                            thread_name: parts[3],
                        },
                    ),
                },
            },
        }
    }
}

/// What a file name says, where it is a log file name.
pub open spec fn log_file_info_of(name: Seq<char>) -> Result<LogFileInfoModel, LogFileInfoErr> {
    if !is_log_file_name(name) {
        Err(LogFileInfoErr::NotALogFileName)
    } else {
        info_of_middle(name.subrange(4, name.len() - 4))
    }
}

/// Whether `r` is the information or the error that `spec` gives.
pub open spec fn info_matches(r: Result<LogFileInfo, LogFileInfoErr>, spec: Result<LogFileInfoModel, LogFileInfoErr>) -> bool {
    match spec {
        Ok(m) => r is Ok && r->Ok_0@ == m,
        Err(e) => r == Err::<LogFileInfo, LogFileInfoErr>(e),
    }
}

/// Whether the characters `s[from..]` start with `p`.
fn chars_start_with(s: &[char], from: usize, p: &str) -> (r: bool)
    requires
        from <= s@.len(),
    ensures
        r == starts_with(s@.skip(from as int), p@),
{
    let n = p.unicode_len();
    if s.len() - from < n {
        return false;
    }
    let head = vstd::slice::slice_subrange(s, from, from + n);
    assert(head@ == s@.skip(from as int).take(n as int));
    chars_equal(head, p)
}

/// Whether `file_name` is not a log file name.
pub fn is_not_vv8_log_file(file_name: &str) -> (r: bool)
    ensures
        r == !is_log_file_name(file_name@),
{
    proof {
        reveal_strlit("vv8-");
        reveal_strlit(".log");
    }
    let cs = chars_of(file_name);
    assert(cs@.skip(0) == cs@);
    if !chars_start_with(cs.as_slice(), 0, "vv8-") {
        return true;
    }
    if cs.len() < 4 {
        return true;
    }
    let ghost tail = cs@.skip(cs@.len() - 4);
    assert(tail.take(4) == tail);
    !chars_start_with(cs.as_slice(), cs.len() - 4, ".log")
}

proof fn lemma_log_file_name_len(name: Seq<char>)
    requires
        is_log_file_name(name),
    ensures
        name.len() >= 8,
{
    reveal_strlit("vv8-");
    reveal_strlit(".log");
    if name.len() < 8 {
        let k = name.len() - 4;
        assert(name.skip(k)[0] == name[k]);
        assert(name[k] == '.');
        assert(name.take(4)[k] == name[k]);
        assert("vv8-"@[k] != '.');
    }
}

/// The end of the part of `s` that starts at `from`: the first `d` after
/// `from`, or the end of `s`.
fn plain_field_end(s: &[char], from: usize, d: char) -> (r: usize)
    requires
        from <= s@.len(),
    ensures
        from <= r <= s@.len(),
        r - from == plain_field_len(s@.skip(from as int), d),
{
    let mut i: usize = from;
    while i < s.len()
        invariant
            from <= i <= s@.len(),
            plain_field_len(s@.skip(from as int), d) == (i - from) + plain_field_len(
                s@.skip(i as int),
                d,
            ),
        decreases s@.len() - i,
    {
        if s[i] == d {
            return i;
        }
        assert(s@.skip(i as int).skip(1) == s@.skip(i + 1));
        i += 1;
    }
    i
}

/// `s` cut at every `d`, as `plain_split` says.
fn plain_split_chars(s: &[char], d: char) -> (r: Vec<Vec<char>>)
    ensures
        r@.map_values(|t: Vec<char>| t@) == plain_split(s@, d),
{
    let mut out: Vec<Vec<char>> = Vec::new();
    let mut pos: usize = 0;
    assert(s@.skip(0) == s@);
    loop
        invariant
            pos <= s@.len(),
            out@.map_values(|t: Vec<char>| t@) + plain_split(s@.skip(pos as int), d) == plain_split(
                s@,
                d,
            ),
        decreases s@.len() + 1 - pos,
    {
        let ghost prev = out@.map_values(|t: Vec<char>| t@);
        let ghost rest = s@.skip(pos as int);
        let end = plain_field_end(s, pos, d);
        let piece = vstd::slice::slice_to_vec(vstd::slice::slice_subrange(s, pos, end));
        assert(piece@ == rest.take(end - pos));
        out.push(piece);
        assert(out@.map_values(|t: Vec<char>| t@) =~= prev.push(piece@));
        if end < s.len() {
            assert(rest.skip(end - pos + 1) == s@.skip(end + 1));
            assert(prev.push(piece@) + plain_split(s@.skip(end + 1), d) =~= prev + (seq![piece@]
                + plain_split(s@.skip(end + 1), d)));
            pos = end + 1;
        } else {
            assert(rest.take(end - pos) == rest);
            assert(prev + seq![rest] =~= prev.push(piece@));
            return out;
        }
    }
}

/// Reads the information of a name that has the shape of a log file name.
pub fn do_parse_log_file_info(file_name: &str) -> (r: Result<LogFileInfo, LogFileInfoErr>)
    requires
        is_log_file_name(file_name@),
    ensures
        info_matches(r, info_of_middle(file_name@.subrange(4, file_name@.len() - 4))),
{
    proof {
        lemma_log_file_name_len(file_name@);
    }
    let cs = chars_of(file_name);
    let middle = vstd::slice::slice_subrange(cs.as_slice(), 4, cs.len() - 4);
    let parts = plain_split_chars(middle, '-');
    let ghost ps = parts@.map_values(|t: Vec<char>| t@);
    if parts.len() != 4 {
        return Err(LogFileInfoErr::NotALogFileName);
    }
    assert(ps[0] == parts[0]@ && ps[1] == parts[1]@ && ps[2] == parts[2]@ && ps[3] == parts[3]@);
    let timestamp = match parse_u64(parts[0].as_slice()) {
        None => return Err(LogFileInfoErr::TimestampParsing),
        Some(t) => t,
    };
    let pid = match parse_u32(parts[1].as_slice()) {
        None => return Err(LogFileInfoErr::PidParsing),
        Some(p) => p,
    };
    let tid = match parse_u32(parts[2].as_slice()) {
        None => return Err(LogFileInfoErr::TidParsing),
        Some(t) => t,
    };
    let thread_name = string_of(parts[3].as_slice());
    Ok(LogFileInfo { timestamp, pid, tid, thread_name })
}

impl LogFileInfo {
    /// The information in a log file's name.
    pub fn from_file_name(file_name: &str) -> (r: Result<LogFileInfo, LogFileInfoErr>)
        ensures
            info_matches(r, log_file_info_of(file_name@)),
    {
        if is_not_vv8_log_file(file_name) {
            return Err(LogFileInfoErr::NotALogFileName);
        }
        do_parse_log_file_info(file_name)
    }
}

/// A line of a log file that did not parse.
#[derive(Clone, Debug, PartialEq)]
pub struct ReadErr {
    /// Line number starting from 0.
    pub line_n: usize,
    pub line: String,
    pub err: LogRecordErr,
}

/// Error when reading a log file.
#[derive(Clone, Debug, PartialEq, Eq)]
pub enum LogFileErr {
    NotAFile,
    NoFileName,
    /// The file name is not valid UTF-8.
    InvalidFileName,
    NotALogFileName,
    /// The file could not be opened; the text says why.
    OpenFileError(String),
}

/// A log file: the information in its name, its records with their line
/// numbers from 0, and the lines that did not parse.
#[derive(Clone, Debug, PartialEq)]
pub struct LogFile {
    pub info: LogFileInfo,
    pub records: Vec<(usize, LogRecord)>,
    pub read_errs: Vec<ReadErr>,
}

/// The records of the lines `lines` that parse, each with its index.
pub open spec fn parsed_records(lines: Seq<Seq<char>>) -> Seq<(usize, LogRecordModel)>
    decreases lines.len(),
{
    if lines.len() == 0 {
        Seq::empty()
    } else {
        let prev = parsed_records(lines.drop_last());
        match record_of(lines.last()) {
            Ok(m) => prev.push(((lines.len() - 1) as usize, m)),
            Err(_) => prev,
        }
    }
}

/// The lines of `lines` that do not parse, each with its index and error.
pub open spec fn read_errors(lines: Seq<Seq<char>>) -> Seq<(usize, Seq<char>, LogRecordErr)>
    decreases lines.len(),
{
    if lines.len() == 0 {
        Seq::empty()
    } else {
        let prev = read_errors(lines.drop_last());
        match record_of(lines.last()) {
            Ok(_) => prev,
            Err(e) => prev.push(((lines.len() - 1) as usize, lines.last(), e)),
        }
    }
}

pub open spec fn lines_view(lines: Seq<String>) -> Seq<Seq<char>> {
    lines.map_values(|l: String| l@)
}

pub open spec fn numbered_records_view(rs: Seq<(usize, LogRecord)>) -> Seq<(usize, LogRecordModel)> {
    rs.map_values(|p: (usize, LogRecord)| (p.0, p.1@))
}

pub open spec fn read_errs_view(es: Seq<ReadErr>) -> Seq<(usize, Seq<char>, LogRecordErr)> {
    es.map_values(|e: ReadErr| (e.line_n, e.line@, e.err))
}

/// Parses each line of a log file's content into a record, keeping the
/// lines that do not parse with their errors; both lists go by line
/// number, from 0.
pub fn parse_log_lines(lines: &Vec<String>) -> (r: (Vec<(usize, LogRecord)>, Vec<ReadErr>))
    ensures
        numbered_records_view(r.0@) == parsed_records(lines_view(lines@)),
        read_errs_view(r.1@) == read_errors(lines_view(lines@)),
{
    let ghost all = lines_view(lines@);
    let mut records: Vec<(usize, LogRecord)> = Vec::new();
    let mut read_errs: Vec<ReadErr> = Vec::new();
    let mut i: usize = 0;
    while i < lines.len()
        invariant
            i <= lines@.len(),
            all == lines_view(lines@),
            numbered_records_view(records@) == parsed_records(all.take(i as int)),
            read_errs_view(read_errs@) == read_errors(all.take(i as int)),
        decreases lines@.len() - i,
    {
        let line = &lines[i];
        let parsed = LogRecord::parse(line.as_str());
        proof {
            assert(all.take(i + 1).drop_last() =~= all.take(i as int));
            assert(all.take(i + 1).last() == line@);
        }
        match parsed {
            Ok(record) => {
                let ghost prev = records@;
                records.push((i, record));
                assert(numbered_records_view(records@) =~= numbered_records_view(prev).push(
                    (i, record@),
                ));
            },
            Err(err) => {
                let ghost prev = read_errs@;
                read_errs.push(ReadErr { line_n: i, line: line.clone(), err });
                assert(read_errs_view(read_errs@) =~= read_errs_view(prev).push((i, line@, err)));
            },
        }
        i += 1;
    }
    assert(all.take(i as int) =~= all);
    (records, read_errs)
}

} // verus!
