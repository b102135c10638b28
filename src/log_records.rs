//! One line of the log, decoded into a typed record.
use vstd::prelude::*;

use crate::js_values::{decode_value, value_of, JSValue, JSValueModel};
use crate::numbers::{hex_u64_text, i32_text, parse_hex_u64, parse_i32};
use crate::record_lines::{fields, next_field, SplitRecordLine};
use crate::text::{chars_of, string_of, unescape, unescape_chars};

verus! {

/// A log record, corresponding to one line in the log file.
#[derive(Clone, Debug, PartialEq)]
pub enum LogRecord {
    /// `~`: (Possibly) a new isolate context, a namespace for e.g. script IDs.
    IsolateContext {
        /// Isolate address that is unique per-process, e.g., `0x2a3800370000`.
        address: u64,
    },
    /// `@`: (Possibly) a new `window.origin` value of the current isolate
    /// context: a string, or `Unsure` where it is not available.
    WindowOrigin { value: JSValue },
    /// `$`: Script provenance.
    ScriptProvenance {
        /// The new script's ID, e.g., 5.
        id: i32,
        /// The script's URL as a string (empty for an anonymous or internal
        /// script), or the parent script's ID as an integer for `eval`.
        name: JSValue,
        /// The full script source.
        source: String,
    },
    /// `!`: Execution context for subsequent log records.
    ExecutionContext {
        /// Active script ID, or `ID_UNSURE`.
        script_id: i32,
    },
    /// `c`: Function call.
    FunctionCall {
        /// Character offset within the script, e.g., 27 or -1.
        offset: i32,
        /// Function name, e.g., `atob` for `%atob`.
        method: String,
        /// Whether the name came without the `%` of a built-in function.
        is_user_fn: bool,
        /// Receiver (`this` value), e.g., `{729551,Window}`.
        receiver: JSValue,
        /// Positional arguments to the function.
        arguments: Vec<JSValue>,
    },
    /// `n`: "Construction" function call, e.g., `new Foo(1, 2, 3)`.
    ConstructionCall { offset: i32, method: String, is_user_fn: bool, arguments: Vec<JSValue> },
    /// `g`: Getting property value, e.g., `foo.bar`.
    GetProperty { offset: i32, object: JSValue, property: JSValue },
    /// `s`: Setting property value, e.g., `foo.bar = baz`.
    SetProperty { offset: i32, object: JSValue, property: JSValue, value: JSValue },
}

/// What a `LogRecord` holds.
pub enum LogRecordModel {
    IsolateContext { address: u64 },
    WindowOrigin { value: JSValueModel },
    ScriptProvenance { id: i32, name: JSValueModel, source: Seq<char> },
    ExecutionContext { script_id: i32 },
    FunctionCall {
        offset: i32,
        method: Seq<char>,
        is_user_fn: bool,
        receiver: JSValueModel,
        arguments: Seq<JSValueModel>,
    },
    ConstructionCall {
        offset: i32,
        method: Seq<char>,
        is_user_fn: bool,
        arguments: Seq<JSValueModel>,
    },
    GetProperty { offset: i32, object: JSValueModel, property: JSValueModel },
    SetProperty {
        offset: i32,
        object: JSValueModel,
        property: JSValueModel,
        value: JSValueModel,
    },
}

pub open spec fn values_view(vs: Seq<JSValue>) -> Seq<JSValueModel> {
    vs.map_values(|v: JSValue| v@)
}

impl View for LogRecord {
    type V = LogRecordModel;

    open spec fn view(&self) -> LogRecordModel {
        match self {
            LogRecord::IsolateContext { address } => LogRecordModel::IsolateContext {
                address: *address,
            },
            LogRecord::WindowOrigin { value } => LogRecordModel::WindowOrigin { value: value@ },
            LogRecord::ScriptProvenance { id, name, source } => LogRecordModel::ScriptProvenance {
                id: *id,
                name: name@,
                source: source@,
            },
            LogRecord::ExecutionContext { script_id } => LogRecordModel::ExecutionContext {
                script_id: *script_id,
            },
            LogRecord::FunctionCall { offset, method, is_user_fn, receiver, arguments } =>
                LogRecordModel::FunctionCall {
                offset: *offset,
                method: method@,
                is_user_fn: *is_user_fn,
                receiver: receiver@,
                arguments: values_view(arguments@),
            },
            LogRecord::ConstructionCall { offset, method, is_user_fn, arguments } =>
                LogRecordModel::ConstructionCall {
                offset: *offset,
                method: method@,
                is_user_fn: *is_user_fn,
                arguments: values_view(arguments@),
            },
            LogRecord::GetProperty { offset, object, property } => LogRecordModel::GetProperty {
                offset: *offset,
                object: object@,
                property: property@,
            },
            LogRecord::SetProperty { offset, object, property, value } =>
                LogRecordModel::SetProperty {
                offset: *offset,
                object: object@,
                property: property@,
                value: value@,
            },
        }
    }
}

/// Unsure script ID (`?` in the log file).
pub const ID_UNSURE: i32 = i32::MIN;

/// Error when parsing a line of log record: which field was missing or
/// malformed.
#[derive(Clone, Copy, Debug, PartialEq, Eq, Structural)]
pub enum LogRecordErr {
    NoIsolateAddress,
    InvalidIsolateAddress,
    InvalidHexNumber,
    NoValue,
    NoScriptId,
    InvalidScriptId,
    NoScriptName,
    NoExecutionContextScriptId,
    InvalidExecutionContextScriptId,
    NoFunctionCallOffset,
    InvalidFunctionCallOffset,
    NoFunctionCallMethod,
    NoFunctionCallReceiver,
    NoConstructionCallOffset,
    InvalidConstructionCallOffset,
    NoConstructionCallMethod,
    NoGetPropertyOffset,
    InvalidGetPropertyOffset,
    NoGetPropertyObject,
    NoGetPropertyProperty,
    NoSetPropertyOffset,
    InvalidSetPropertyOffset,
    NoSetPropertyObject,
    NoSetPropertyProperty,
    NoSetPropertyValue,
    UnknownLogRecordType,
}

impl LogRecordErr {
    /// A sentence that says what was wrong with the line.
    pub fn message(&self) -> &'static str {
        match self {
            LogRecordErr::NoIsolateAddress => "`~` not followed by isolate address",
            LogRecordErr::InvalidIsolateAddress => "`~` isolate address not a hex",
            LogRecordErr::InvalidHexNumber => "`~` isolate address not a valid hex number",
            LogRecordErr::NoValue => "`@` not followed by value",
            LogRecordErr::NoScriptId => "`$` not followed by script ID",
            LogRecordErr::InvalidScriptId => "`$` script ID not number",
            LogRecordErr::NoScriptName => "`$` not followed by script name",
            LogRecordErr::NoExecutionContextScriptId => "`!` not followed by script ID",
            LogRecordErr::InvalidExecutionContextScriptId => "`!` script ID not number",
            LogRecordErr::NoFunctionCallOffset => "`c` not followed by offset",
            LogRecordErr::InvalidFunctionCallOffset => "`c` offset not number",
            LogRecordErr::NoFunctionCallMethod => "`c` not followed by method",
            LogRecordErr::NoFunctionCallReceiver => "`c` not followed by receiver",
            LogRecordErr::NoConstructionCallOffset => "`n` not followed by offset",
            LogRecordErr::InvalidConstructionCallOffset => "`n` offset not number",
            LogRecordErr::NoConstructionCallMethod => "`n` not followed by method",
            LogRecordErr::NoGetPropertyOffset => "`g` not followed by offset",
            LogRecordErr::InvalidGetPropertyOffset => "`g` offset not number",
            LogRecordErr::NoGetPropertyObject => "`g` not followed by object",
            LogRecordErr::NoGetPropertyProperty => "`g` not followed by property",
            LogRecordErr::NoSetPropertyOffset => "`s` not followed by offset",
            LogRecordErr::InvalidSetPropertyOffset => "`s` offset not number",
            LogRecordErr::NoSetPropertyObject => "`s` not followed by object",
            LogRecordErr::NoSetPropertyProperty => "`s` not followed by property",
            LogRecordErr::NoSetPropertyValue => "`s` not followed by value",
            LogRecordErr::UnknownLogRecordType => "Unknown log record type",
        }
    }
}

/// A method field: the name without a leading `%`, and whether it lacked
/// one (a user-defined function).
pub open spec fn method_of(t: Seq<char>) -> (Seq<char>, bool) {
    if t.len() >= 1 && t[0] == '%' {
        (t.skip(1), false)
    } else {
        (t, true)
    }
}

/// The values that the fields `fs` denote.
pub open spec fn values_of(fs: Seq<Seq<char>>) -> Seq<JSValueModel> {
    fs.map_values(|f: Seq<char>| value_of(f))
}

/// `~`: one field, a hexadecimal address after `0x`.
pub open spec fn isolate_spec(s: Seq<char>) -> Result<LogRecordModel, LogRecordErr> {
    match next_field(s) {
        None => Err(LogRecordErr::NoIsolateAddress),
        Some((t, _)) => if !(t.len() >= 2 && t[0] == '0' && t[1] == 'x') {
            Err(LogRecordErr::InvalidIsolateAddress)
        } else {
            match hex_u64_text(t.skip(2)) {
                None => Err(LogRecordErr::InvalidHexNumber),
                Some(a) => Ok(LogRecordModel::IsolateContext { address: a as u64 }),
            }
        },
    }
}

/// `@`: one field, a value.
pub open spec fn window_spec(s: Seq<char>) -> Result<LogRecordModel, LogRecordErr> {
    match next_field(s) {
        None => Err(LogRecordErr::NoValue),
        Some((t, _)) => Ok(LogRecordModel::WindowOrigin { value: value_of(t) }),
    }
}

/// `$`: an integer ID, a name value, then all the rest, unescaped, as the
/// source.
pub open spec fn provenance_spec(s: Seq<char>) -> Result<LogRecordModel, LogRecordErr> {
    match next_field(s) {
        None => Err(LogRecordErr::NoScriptId),
        Some((t0, r0)) => match i32_text(t0) {
            None => Err(LogRecordErr::InvalidScriptId),
            Some(id) => match next_field(r0) {
                None => Err(LogRecordErr::NoScriptName),
                Some((t1, r1)) => Ok(
                    LogRecordModel::ScriptProvenance {
                        id: id as i32,
                        name: value_of(t1),
                        source: unescape(r1),
                    },
                ),
            },
        },
    }
}

/// `!`: an integer script ID, or `?` for `ID_UNSURE`.
pub open spec fn context_spec(s: Seq<char>) -> Result<LogRecordModel, LogRecordErr> {
    match next_field(s) {
        None => Err(LogRecordErr::NoExecutionContextScriptId),
        Some((t, _)) => if t == "?"@ {
            Ok(LogRecordModel::ExecutionContext { script_id: ID_UNSURE })
        } else {
            match i32_text(t) {
                None => Err(LogRecordErr::InvalidExecutionContextScriptId),
                Some(id) => Ok(LogRecordModel::ExecutionContext { script_id: id as i32 }),
            }
        },
    }
}

/// `c`: an integer offset, a method, a receiver value, then any number of
/// argument values.
pub open spec fn call_spec(s: Seq<char>) -> Result<LogRecordModel, LogRecordErr> {
    match next_field(s) {
        None => Err(LogRecordErr::NoFunctionCallOffset),
        Some((t0, r0)) => match i32_text(t0) {
            None => Err(LogRecordErr::InvalidFunctionCallOffset),
            Some(offset) => match next_field(r0) {
                None => Err(LogRecordErr::NoFunctionCallMethod),
                Some((t1, r1)) => match next_field(r1) {
                    None => Err(LogRecordErr::NoFunctionCallReceiver),
                    Some((t2, r2)) => Ok(
                        LogRecordModel::FunctionCall {
                            offset: offset as i32,
                            method: method_of(t1).0,
                            is_user_fn: method_of(t1).1,
                            receiver: value_of(t2),
                            arguments: values_of(fields(r2)),
                        },
                    ),
                },
            },
        },
    }
}

/// `n`: an integer offset, a method, then any number of argument values.
pub open spec fn construction_spec(s: Seq<char>) -> Result<LogRecordModel, LogRecordErr> {
    match next_field(s) {
        None => Err(LogRecordErr::NoConstructionCallOffset),
        Some((t0, r0)) => match i32_text(t0) {
            None => Err(LogRecordErr::InvalidConstructionCallOffset),
            Some(offset) => match next_field(r0) {
                None => Err(LogRecordErr::NoConstructionCallMethod),
                Some((t1, r1)) => Ok(
                    LogRecordModel::ConstructionCall {
                        offset: offset as i32,
                        method: method_of(t1).0,
                        is_user_fn: method_of(t1).1,
                        arguments: values_of(fields(r1)),
                    },
                ),
            },
        },
    }
}

/// `g`: an integer offset, an object value and a property value.
pub open spec fn get_spec(s: Seq<char>) -> Result<LogRecordModel, LogRecordErr> {
    match next_field(s) {
        None => Err(LogRecordErr::NoGetPropertyOffset),
        Some((t0, r0)) => match i32_text(t0) {
            None => Err(LogRecordErr::InvalidGetPropertyOffset),
            Some(offset) => match next_field(r0) {
                None => Err(LogRecordErr::NoGetPropertyObject),
                Some((t1, r1)) => match next_field(r1) {
                    None => Err(LogRecordErr::NoGetPropertyProperty),
                    Some((t2, _)) => Ok(
                        LogRecordModel::GetProperty {
                            offset: offset as i32,
                            object: value_of(t1),
                            property: value_of(t2),
                        },
                    ),
                },
            },
        },
    }
}

/// `s`: an integer offset, an object value, a property value and the new
/// value.
pub open spec fn set_spec(s: Seq<char>) -> Result<LogRecordModel, LogRecordErr> {
    match next_field(s) {
        None => Err(LogRecordErr::NoSetPropertyOffset),
        Some((t0, r0)) => match i32_text(t0) {
            None => Err(LogRecordErr::InvalidSetPropertyOffset),
            Some(offset) => match next_field(r0) {
                None => Err(LogRecordErr::NoSetPropertyObject),
                Some((t1, r1)) => match next_field(r1) {
                    None => Err(LogRecordErr::NoSetPropertyProperty),
                    Some((t2, r2)) => match next_field(r2) {
                        None => Err(LogRecordErr::NoSetPropertyValue),
                        Some((t3, _)) => Ok(
                            LogRecordModel::SetProperty {
                                offset: offset as i32,
                                object: value_of(t1),
                                property: value_of(t2),
                                value: value_of(t3),
                            },
                        ),
                    },
                },
            },
        },
    }
}

/// The record that `line` holds: its first character tells the kind, and
/// the fields after it follow the kind's layout.
pub open spec fn record_of(line: Seq<char>) -> Result<LogRecordModel, LogRecordErr> {
    if line.len() == 0 {
        Err(LogRecordErr::UnknownLogRecordType)
    } else {
        let s = line.skip(1);
        let tag = line[0];
        if tag == '~' {
            isolate_spec(s)
        } else if tag == '@' {
            window_spec(s)
        } else if tag == '$' {
            provenance_spec(s)
        } else if tag == '!' {
            context_spec(s)
        } else if tag == 'c' {
            call_spec(s)
        } else if tag == 'n' {
            construction_spec(s)
        } else if tag == 'g' {
            get_spec(s)
        } else if tag == 's' {
            set_spec(s)
        } else {
            Err(LogRecordErr::UnknownLogRecordType)
        }
    }
}

/// Whether the result `r` is the record or the error that `spec` gives.
pub open spec fn matches_spec(
    r: Result<LogRecord, LogRecordErr>,
    spec: Result<LogRecordModel, LogRecordErr>,
) -> bool {
    match spec {
        Ok(m) => r is Ok && r->Ok_0@ == m,
        Err(e) => r == Err::<LogRecord, LogRecordErr>(e),
    }
}

fn decode_values(fs: &Vec<Vec<char>>) -> (r: Vec<JSValue>)
    ensures
        values_view(r@) == values_of(fs@.map_values(|t: Vec<char>| t@)),
{
    let mut out: Vec<JSValue> = Vec::new();
    let mut i: usize = 0;
    while i < fs.len()
        invariant
            i <= fs@.len(),
            values_view(out@) == values_of(fs@.map_values(|t: Vec<char>| t@).take(i as int)),
        decreases fs@.len() - i,
    {
        let v = decode_value(fs[i].as_slice());
        let ghost prev = out@;
        out.push(v);
        proof {
            let all = fs@.map_values(|t: Vec<char>| t@);
            assert(all.take(i + 1) =~= all.take(i as int).push(fs@[i as int]@));
            assert(values_view(out@) =~= values_view(prev).push(v@));
            assert(values_of(all.take(i + 1)) =~= values_of(all.take(i as int)).push(
                value_of(fs@[i as int]@),
            ));
        }
        i += 1;
    }
    assert(fs@.map_values(|t: Vec<char>| t@).take(i as int) == fs@.map_values(|t: Vec<char>| t@));
    out
}

/// A method field split into its name and whether it is user-defined.
fn split_method(t: &Vec<char>) -> (r: (String, bool))
    ensures
        r.0@ == method_of(t@).0,
        r.1 == method_of(t@).1,
{
    if t.len() >= 1 && t[0] == '%' {
        let name = vstd::slice::slice_subrange(t.as_slice(), 1, t.len());
        assert(name@ == t@.skip(1));
        (string_of(name), false)
    } else {
        (string_of(t.as_slice()), true)
    }
}

fn parse_isolate(parts: &mut SplitRecordLine) -> (r: Result<LogRecord, LogRecordErr>)
    ensures
        matches_spec(r, isolate_spec(old(parts)@)),
{
    let t = match parts.next_chars() {
        None => return Err(LogRecordErr::NoIsolateAddress),
        Some(t) => t,
    };
    if !(t.len() >= 2 && t[0] == '0' && t[1] == 'x') {
        return Err(LogRecordErr::InvalidIsolateAddress);
    }
    let digits = vstd::slice::slice_subrange(t.as_slice(), 2, t.len());
    assert(digits@ == t@.skip(2));
    match parse_hex_u64(digits) {
        None => Err(LogRecordErr::InvalidHexNumber),
        Some(address) => Ok(LogRecord::IsolateContext { address }),
    }
}

fn parse_provenance(parts: &mut SplitRecordLine) -> (r: Result<LogRecord, LogRecordErr>)
    ensures
        matches_spec(r, provenance_spec(old(parts)@)),
{
    let t0 = match parts.next_chars() {
        None => return Err(LogRecordErr::NoScriptId),
        Some(t) => t,
    };
    let id = match parse_i32(t0.as_slice()) {
        None => return Err(LogRecordErr::InvalidScriptId),
        Some(id) => id,
    };
    let t1 = match parts.next_chars() {
        None => return Err(LogRecordErr::NoScriptName),
        Some(t) => t,
    };
    let name = decode_value(t1.as_slice());
    let rest = parts.drain_chars();
    let source = unescape_chars(rest.as_slice(), 0, rest.len());
    assert(rest@.subrange(0, rest@.len() as int) == rest@);
    Ok(LogRecord::ScriptProvenance { id, name, source: string_of(source.as_slice()) })
}

fn parse_context(parts: &mut SplitRecordLine) -> (r: Result<LogRecord, LogRecordErr>)
    ensures
        matches_spec(r, context_spec(old(parts)@)),
{
    let t = match parts.next_chars() {
        None => return Err(LogRecordErr::NoExecutionContextScriptId),
        Some(t) => t,
    };
    if t.len() == 1 && t[0] == '?' {
        proof {
            reveal_strlit("?");
            assert(t@ =~= "?"@);
        }
        return Ok(LogRecord::ExecutionContext { script_id: ID_UNSURE });
    }
    proof {
        reveal_strlit("?");
        if t@ == "?"@ {
            assert(t@.len() == 1 && t@[0] == '?');
        }
    }
    match parse_i32(t.as_slice()) {
        None => Err(LogRecordErr::InvalidExecutionContextScriptId),
        Some(script_id) => Ok(LogRecord::ExecutionContext { script_id }),
    }
}

fn parse_call(parts: &mut SplitRecordLine) -> (r: Result<LogRecord, LogRecordErr>)
    ensures
        matches_spec(r, call_spec(old(parts)@)),
{
    let t0 = match parts.next_chars() {
        None => return Err(LogRecordErr::NoFunctionCallOffset),
        Some(t) => t,
    };
    let offset = match parse_i32(t0.as_slice()) {
        None => return Err(LogRecordErr::InvalidFunctionCallOffset),
        Some(o) => o,
    };
    let t1 = match parts.next_chars() {
        None => return Err(LogRecordErr::NoFunctionCallMethod),
        Some(t) => t,
    };
    let t2 = match parts.next_chars() {
        None => return Err(LogRecordErr::NoFunctionCallReceiver),
        Some(t) => t,
    };
    let (method, is_user_fn) = split_method(&t1);
    let receiver = decode_value(t2.as_slice());
    let rest = parts.rest_fields();
    let arguments = decode_values(&rest);
    Ok(LogRecord::FunctionCall { offset, method, is_user_fn, receiver, arguments })
}

fn parse_construction(parts: &mut SplitRecordLine) -> (r: Result<LogRecord, LogRecordErr>)
    ensures
        matches_spec(r, construction_spec(old(parts)@)),
{
    let t0 = match parts.next_chars() {
        None => return Err(LogRecordErr::NoConstructionCallOffset),
        Some(t) => t,
    };
    let offset = match parse_i32(t0.as_slice()) {
        None => return Err(LogRecordErr::InvalidConstructionCallOffset),
        Some(o) => o,
    };
    let t1 = match parts.next_chars() {
        None => return Err(LogRecordErr::NoConstructionCallMethod),
        Some(t) => t,
    };
    let (method, is_user_fn) = split_method(&t1);
    let rest = parts.rest_fields();
    let arguments = decode_values(&rest);
    Ok(LogRecord::ConstructionCall { offset, method, is_user_fn, arguments })
}

fn parse_get(parts: &mut SplitRecordLine) -> (r: Result<LogRecord, LogRecordErr>)
    ensures
        matches_spec(r, get_spec(old(parts)@)),
{
    let t0 = match parts.next_chars() {
        None => return Err(LogRecordErr::NoGetPropertyOffset),
        Some(t) => t,
    };
    let offset = match parse_i32(t0.as_slice()) {
        None => return Err(LogRecordErr::InvalidGetPropertyOffset),
        Some(o) => o,
    };
    let t1 = match parts.next_chars() {
        None => return Err(LogRecordErr::NoGetPropertyObject),
        Some(t) => t,
    };
    let t2 = match parts.next_chars() {
        None => return Err(LogRecordErr::NoGetPropertyProperty),
        Some(t) => t,
    };
    let object = decode_value(t1.as_slice());
    let property = decode_value(t2.as_slice());
    Ok(LogRecord::GetProperty { offset, object, property })
}

fn parse_set(parts: &mut SplitRecordLine) -> (r: Result<LogRecord, LogRecordErr>)
    ensures
        matches_spec(r, set_spec(old(parts)@)),
{
    let t0 = match parts.next_chars() {
        None => return Err(LogRecordErr::NoSetPropertyOffset),
        Some(t) => t,
    };
    let offset = match parse_i32(t0.as_slice()) {
        None => return Err(LogRecordErr::InvalidSetPropertyOffset),
        Some(o) => o,
    };
    let t1 = match parts.next_chars() {
        None => return Err(LogRecordErr::NoSetPropertyObject),
        Some(t) => t,
    };
    let t2 = match parts.next_chars() {
        None => return Err(LogRecordErr::NoSetPropertyProperty),
        Some(t) => t,
    };
    let t3 = match parts.next_chars() {
        None => return Err(LogRecordErr::NoSetPropertyValue),
        Some(t) => t,
    };
    let object = decode_value(t1.as_slice());
    let property = decode_value(t2.as_slice());
    let value = decode_value(t3.as_slice());
    Ok(LogRecord::SetProperty { offset, object, property, value })
}

/// The record that the line's characters hold.
pub fn parse_record_chars(line: &[char]) -> (r: Result<LogRecord, LogRecordErr>)
    ensures
        matches_spec(r, record_of(line@)),
{
    if line.len() == 0 {
        return Err(LogRecordErr::UnknownLogRecordType);
    }
    let tag = line[0];
    let mut parts = SplitRecordLine::from_chars(line, 1);
    if tag == '~' {
        parse_isolate(&mut parts)
    } else if tag == '@' {
        match parts.next_chars() {
            None => Err(LogRecordErr::NoValue),
            Some(t) => Ok(LogRecord::WindowOrigin { value: decode_value(t.as_slice()) }),
        }
    } else if tag == '$' {
        parse_provenance(&mut parts)
    } else if tag == '!' {
        parse_context(&mut parts)
    } else if tag == 'c' {
        parse_call(&mut parts)
    } else if tag == 'n' {
        parse_construction(&mut parts)
    } else if tag == 'g' {
        parse_get(&mut parts)
    } else if tag == 's' {
        parse_set(&mut parts)
    } else {
        Err(LogRecordErr::UnknownLogRecordType)
    }
}

impl LogRecord {
    /// The record that one line of the log holds, or the first field that
    /// is missing or malformed.
    pub fn parse(line: &str) -> (r: Result<LogRecord, LogRecordErr>)
        ensures
            matches_spec(r, record_of(line@)),
    {
        let cs = chars_of(line);
        parse_record_chars(cs.as_slice())
    }
}

} // verus!
