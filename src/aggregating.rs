//! Folding a stream of records into what each script did.
use std::collections::HashMap;

use vstd::prelude::*;

use crate::js_values::{chars_equal, JSValue, JSValueModel};
use crate::log_records::{LogRecord, LogRecordModel, ID_UNSURE};
use crate::numbers::is_digit;
use crate::text::{chars_of, contains, contains_in_prefix};

verus! {

broadcast use vstd::std_specs::hash::group_hash_axioms;

/// The type of API call.
#[derive(Clone, Copy, Debug, PartialEq, Eq, Structural, Hash)]
pub enum ApiType {
    Function,
    Construction,
    GetProperty,
    SetProperty,
}

/// Whether the script was injected, and if so, whether it was for
/// interaction.
#[derive(Clone, Copy, Debug, PartialEq, Eq, Structural, Hash)]
pub enum ScriptInjectionType {
    Not,
    Injected,
    Interaction,
}

/// New script's name, e.g., `"chrome\://headless/headless_command.js"` or
/// `""`.
#[derive(Clone, Debug, PartialEq, Eq, Hash)]
pub enum ScriptName {
    /// This also means that the script is either injected or internal.
    Empty,
    /// In URL form.
    Url(String),
    /// The parent script's ID in case of `eval`.
    Eval { parent_script_id: i32 },
}

/// What a `ScriptName` holds.
pub enum ScriptNameModel {
    Empty,
    Url(Seq<char>),
    Eval { parent_script_id: i32 },
}

impl View for ScriptName {
    type V = ScriptNameModel;

    open spec fn view(&self) -> ScriptNameModel {
        match self {
            ScriptName::Empty => ScriptNameModel::Empty,
            ScriptName::Url(u) => ScriptNameModel::Url(u@),
            ScriptName::Eval { parent_script_id } => ScriptNameModel::Eval {
                parent_script_id: *parent_script_id,
            },
        }
    }
}

/// The name that a script's name value stands for: an empty string, a URL,
/// or the parent's ID (an integer, cut to 32 bits).
pub open spec fn script_name_of(v: JSValueModel) -> Option<ScriptNameModel> {
    match v {
        JSValueModel::String(s) => if s.len() == 0 {
            Some(ScriptNameModel::Empty)
        } else {
            Some(ScriptNameModel::Url(s))
        },
        JSValueModel::Int(n) => Some(ScriptNameModel::Eval { parent_script_id: n as i32 }),
        _ => None,
    }
}

impl ScriptName {
    /// The name that a provenance record's name value stands for.
    pub fn from_value(value: JSValue) -> (r: Option<ScriptName>)
        ensures
            match script_name_of(value@) {
                Some(n) => r is Some && r->0@ == n,
                None => r is None,
            },
    {
        match value {
            JSValue::String(s) => {
                if s.as_str().is_empty() {
                    Some(ScriptName::Empty)
                } else {
                    Some(ScriptName::Url(s))
                }
            },
            JSValue::Int(n) => Some(ScriptName::Eval { parent_script_id: #[verifier::truncate] (n as i32) }),
            _ => None,
        }
    }
}

/// A browser JS API call. Arguments are ignored.
#[derive(Clone, Debug, PartialEq, Eq, Hash)]
pub struct ApiCall {
    pub api_type: ApiType,
    pub this: String,
    pub attr: Option<String>,
}

/// What an `ApiCall` holds.
pub struct ApiCallModel {
    pub api_type: ApiType,
    pub this: Seq<char>,
    pub attr: Option<Seq<char>>,
}

pub open spec fn option_view(o: Option<String>) -> Option<Seq<char>> {
    match o {
        Some(s) => Some(s@),
        None => None,
    }
}

impl View for ApiCall {
    type V = ApiCallModel;

    open spec fn view(&self) -> ApiCallModel {
        ApiCallModel { api_type: self.api_type, this: self.this@, attr: option_view(self.attr) }
    }
}

/// A letter, a dot or a space.
pub open spec fn is_name_char(c: char) -> bool {
    ('A' <= c && c <= 'Z') || ('a' <= c && c <= 'z') || c == '.' || c == ' '
}

/// Whether `s` matches `^([A-Za-z\. ]+[0-9]{0,3})+$`: it starts with a
/// letter, dot or space, holds only those and digits, and never four
/// digits in a row.
pub open spec fn is_api_name(s: Seq<char>) -> bool {
    &&& s.len() > 0
    &&& is_name_char(s[0])
    &&& forall|i: int| 0 <= i < s.len() ==> is_name_char(#[trigger] s[i]) || is_digit(s[i])
    &&& forall|i: int|
        0 <= i && i + 3 < s.len() ==> !(is_digit(#[trigger] s[i]) && is_digit(s[i + 1]) && is_digit(
            s[i + 2],
        ) && is_digit(s[i + 3]))
}

/// Whether a call likely is a browser API call, judging by its names:
/// `this` of at least 3 characters and `attr`, if any, of at least 2, both
/// API names.
pub open spec fn likely_browser_api(c: ApiCallModel) -> bool {
    &&& c.this.len() >= 3
    &&& is_api_name(c.this)
    &&& match c.attr {
        Some(a) => a.len() >= 2 && is_api_name(a),
        None => true,
    }
}

fn match_browser_api_name(name: &[char]) -> (r: bool)
    ensures
        r == is_api_name(name@),
{
    if name.len() == 0 {
        return false;
    }
    let c0 = name[0];
    if !(('A' <= c0 && c0 <= 'Z') || ('a' <= c0 && c0 <= 'z') || c0 == '.' || c0 == ' ') {
        return false;
    }
    let mut run: usize = 0;
    let mut i: usize = 0;
    while i < name.len()
        invariant
            i <= name@.len(),
            is_name_char(name@[0]),
            run <= 3,
            run <= i,
            forall|j: int| 0 <= j < i ==> is_name_char(#[trigger] name@[j]) || is_digit(name@[j]),
            forall|j: int|
                0 <= j && j + 3 < i ==> !(is_digit(#[trigger] name@[j]) && is_digit(name@[j + 1])
                    && is_digit(name@[j + 2]) && is_digit(name@[j + 3])),
            forall|j: int| i - run <= j < i ==> is_digit(#[trigger] name@[j]),
            run < i ==> !is_digit(name@[i - run - 1]),
        decreases name@.len() - i,
    {
        let c = name[i];
        if '0' <= c && c <= '9' {
            if run == 3 {
                assert(is_digit(name@[i - 3]) && is_digit(name@[i - 2]) && is_digit(name@[i - 1]));
                assert(!is_api_name(name@)) by {
                    let j = i - 3;
                    assert(j + 3 < name@.len());
                    assert(is_digit(name@[j]) && is_digit(name@[j + 1]) && is_digit(name@[j + 2])
                        && is_digit(name@[j + 3]));
                }
                return false;
            }
            run = run + 1;
        } else if ('A' <= c && c <= 'Z') || ('a' <= c && c <= 'z') || c == '.' || c == ' ' {
            run = 0;
        } else {
            assert(!(is_name_char(name@[i as int]) || is_digit(name@[i as int])));
            return false;
        }
        i += 1;
    }
    true
}

impl ApiCall {
    /// Whether the call is likely a browser API call, judging by its name.
    /// Names are checked to be alphanumeric, optionally with dots and
    /// spaces, with at most 3 consecutive numbers. `this` needs to be at
    /// least 3 characters long; `attr` needs to be at least 2 characters.
    pub fn likely_browser_api(&self) -> (r: bool)
        ensures
            r == likely_browser_api(self@),
    {
        let this = chars_of(self.this.as_str());
        if !(this.len() >= 3 && match_browser_api_name(this.as_slice())) {
            return false;
        }
        match &self.attr {
            Some(attr) => {
                let a = chars_of(attr.as_str());
                a.len() >= 2 && match_browser_api_name(a.as_slice())
            },
            None => true,
        }
    }

    /// Whether the two calls have equal fields.
    pub fn same_as(&self, other: &ApiCall) -> (r: bool)
        ensures
            r == (self@ == other@),
    {
        if self.api_type != other.api_type || !self.this.eq(&other.this) {
            return false;
        }
        match (&self.attr, &other.attr) {
            (Some(a), Some(b)) => a.eq(b),
            (None, None) => true,
            _ => false,
        }
    }
}

/// Lines where API calls were made.
#[derive(Clone, Debug, PartialEq, Eq)]
pub struct CallLines {
    pub lines: Vec<u32>,
    /// The index in `lines`, starting from which there may be interactions.
    pub i_may_interact: Option<u32>,
}

/// What a `CallLines` holds.
pub struct CallLinesModel {
    pub lines: Seq<u32>,
    pub i_may_interact: Option<u32>,
}

impl View for CallLines {
    type V = CallLinesModel;

    open spec fn view(&self) -> CallLinesModel {
        CallLinesModel { lines: self.lines@, i_may_interact: self.i_may_interact }
    }
}

impl CallLinesModel {
    /// At most `u32::MAX` lines, and the interaction boundary, if set,
    /// within them.
    pub open spec fn wf(self) -> bool {
        &&& self.lines.len() <= u32::MAX
        &&& match self.i_may_interact {
            Some(i) => i <= self.lines.len(),
            None => true,
        }
    }

    /// The number of lines before the interaction boundary.
    pub open spec fn n_must_not_interact(self) -> nat {
        match self.i_may_interact {
            Some(i) => i as nat,
            None => self.lines.len(),
        }
    }
}

impl CallLines {
    /// The number of lines recorded.
    pub fn len(&self) -> (r: u32)
        requires
            self@.wf(),
        ensures
            r == self.lines@.len(),
    {
        self.lines.len() as u32
    }

    /// The number of calls from the interaction boundary on.
    pub fn n_may_interact(&self) -> (r: u32)
        requires
            self@.wf(),
        ensures
            r == self.lines@.len() - self@.n_must_not_interact(),
    {
        self.len() - self.n_must_not_interact()
    }

    /// The number of calls before the interaction boundary: all of them
    /// where there is none.
    pub fn n_must_not_interact(&self) -> (r: u32)
        requires
            self@.wf(),
        ensures
            r == self@.n_must_not_interact(),
    {
        match self.i_may_interact {
            Some(i) => i,
            None => self.len(),
        }
    }
}

/// A script that was executed and its aggregate information.
#[derive(Clone, Debug)]
pub struct ScriptAggregate {
    /// Line number in the log file where the script's context appears.
    pub line: u32,
    /// Indicates where the script came from.
    pub name: ScriptName,
    /// JS source code.
    pub source: String,
    pub injection_type: ScriptInjectionType,
    /// API calls made, each once, and the lines where they were made.
    pub api_calls: Vec<(ApiCall, CallLines)>,
    /// API calls that are filtered out.
    pub n_filtered_call: u32,
}

/// What a `ScriptAggregate` holds.
pub struct ScriptModel {
    pub line: u32,
    pub name: ScriptNameModel,
    pub source: Seq<char>,
    pub injection_type: ScriptInjectionType,
    pub api_calls: Seq<(ApiCallModel, CallLinesModel)>,
    pub n_filtered_call: u32,
}

pub open spec fn calls_view(calls: Seq<(ApiCall, CallLines)>) -> Seq<(ApiCallModel, CallLinesModel)> {
    calls.map_values(|e: (ApiCall, CallLines)| (e.0@, e.1@))
}

impl View for ScriptAggregate {
    type V = ScriptModel;

    open spec fn view(&self) -> ScriptModel {
        ScriptModel {
            line: self.line,
            name: self.name@,
            source: self.source@,
            injection_type: self.injection_type,
            api_calls: calls_view(self.api_calls@),
            n_filtered_call: self.n_filtered_call,
        }
    }
}

impl ScriptModel {
    /// Each API call once, each with well-formed lines.
    pub open spec fn wf(self) -> bool {
        &&& forall|i: int| 0 <= i < self.api_calls.len() ==> (#[trigger] self.api_calls[i]).1.wf()
        &&& forall|i: int, j: int|
            0 <= i < j < self.api_calls.len() ==> (#[trigger] self.api_calls[i]).0
                != (#[trigger] self.api_calls[j]).0
    }
}

/// The aggregate of one log stream.
#[derive(Clone, Debug)]
pub struct RecordAggregate {
    pub scripts: HashMap<i32, ScriptAggregate>,
    pub current_script_id: i32,
    pub interaction_injected: bool,
}

/// What a `RecordAggregate` holds.
pub struct AggregateModel {
    pub scripts: Map<i32, ScriptModel>,
    pub current_script_id: i32,
    pub interaction_injected: bool,
}

impl View for RecordAggregate {
    type V = AggregateModel;

    open spec fn view(&self) -> AggregateModel {
        AggregateModel {
            scripts: self.scripts@.map_values(|s: ScriptAggregate| s@),
            current_script_id: self.current_script_id,
            interaction_injected: self.interaction_injected,
        }
    }
}

impl AggregateModel {
    /// Every script is well formed.
    pub open spec fn wf(self) -> bool {
        forall|id: i32| #[trigger] self.scripts.contains_key(id) ==> self.scripts[id].wf()
    }
}

/// Why a record could not be applied to the aggregate.
#[derive(Clone, Copy, Debug, PartialEq, Eq, Structural)]
pub enum AggregateErr {
    /// A script's name is neither a string nor an integer.
    UnexpectedScriptName,
    /// An `eval` script names a parent script that was never registered.
    UnknownParentScript,
    /// A script ID is registered a second time.
    DuplicateScriptId,
    /// The current execution context names no registered script.
    UnknownExecutionContext,
    /// A get or set on a value that is not an object.
    UnexpectedGetSetObject,
    /// A get or set of a property that is no string, object, number or
    /// unsure value.
    UnexpectedGetSetProperty,
}

/// The number of leading characters of a source that are searched for the
/// interaction marker.
pub const INTERACTION_PREFIX_LEN: usize = 100;

/// Whether a script's source looks like the interaction harness: its first
/// `INTERACTION_PREFIX_LEN` characters hold `Gremlins horde`.
pub open spec fn is_interaction_source(source: Seq<char>) -> bool {
    let n = if source.len() < INTERACTION_PREFIX_LEN { source.len() } else {
        INTERACTION_PREFIX_LEN as nat
    };
    contains(source.take(n as int), "Gremlins horde"@)
}

/// The injection type of a script: interaction where an injected script
/// carries the interaction marker.
pub open spec fn injection_of(is_injected: bool, source: Seq<char>) -> ScriptInjectionType {
    if is_injected && is_interaction_source(source) {
        ScriptInjectionType::Interaction
    } else if is_injected {
        ScriptInjectionType::Injected
    } else {
        ScriptInjectionType::Not
    }
}

/// `m` with script `id` set to `s`.
pub open spec fn with_script(m: AggregateModel, id: i32, s: ScriptModel) -> AggregateModel {
    AggregateModel {
        scripts: m.scripts.insert(id, s),
        current_script_id: m.current_script_id,
        interaction_injected: m.interaction_injected,
    }
}

/// `n + 1`, or `n` where that would overflow.
pub open spec fn saturating_inc(n: u32) -> u32 {
    if n < u32::MAX {
        (n + 1) as u32
    } else {
        n
    }
}

/// `s` with one more filtered call.
pub open spec fn with_filtered(s: ScriptModel) -> ScriptModel {
    ScriptModel { n_filtered_call: saturating_inc(s.n_filtered_call), ..s }
}

/// `s` with its API calls replaced.
pub open spec fn with_calls(s: ScriptModel, calls: Seq<(ApiCallModel, CallLinesModel)>) -> ScriptModel {
    ScriptModel { api_calls: calls, ..s }
}

/// Counting one filtered call on the current script.
pub open spec fn count_filtered(m: AggregateModel) -> Result<AggregateModel, AggregateErr> {
    if !m.scripts.contains_key(m.current_script_id) {
        Err(AggregateErr::UnknownExecutionContext)
    } else {
        Ok(with_script(m, m.current_script_id, with_filtered(m.scripts[m.current_script_id])))
    }
}

/// The first index at or after `from` whose call is `c`.
pub open spec fn index_of_call(calls: Seq<(ApiCallModel, CallLinesModel)>, c: ApiCallModel, from: int) -> Option<int>
    decreases calls.len() - from,
{
    if from < 0 || from >= calls.len() {
        None
    } else if calls[from].0 == c {
        Some(from)
    } else {
        index_of_call(calls, c, from + 1)
    }
}

/// `line` appended; where interaction may have started and no boundary is
/// set yet, the boundary is set to where `line` goes.
pub open spec fn record_line(cl: CallLinesModel, line: u32, may_interact: bool) -> CallLinesModel {
    CallLinesModel {
        lines: cl.lines.push(line),
        i_may_interact: if may_interact && cl.i_may_interact is None {
            Some(cl.lines.len() as u32)
        } else {
            cl.i_may_interact
        },
    }
}

/// Recording the call `c` at `line` on the current script, or counting it
/// as filtered where its names do not look like an API (or where its line
/// list is full).
pub open spec fn push_call(m: AggregateModel, c: ApiCallModel, line: u32) -> Result<AggregateModel, AggregateErr> {
    if !m.scripts.contains_key(m.current_script_id) {
        Err(AggregateErr::UnknownExecutionContext)
    } else {
        let id = m.current_script_id;
        let s = m.scripts[id];
        if !likely_browser_api(c) {
            Ok(with_script(m, id, with_filtered(s)))
        } else {
            match index_of_call(s.api_calls, c, 0) {
                Some(i) => {
                    let cl = s.api_calls[i].1;
                    if cl.lines.len() >= u32::MAX {
                        Ok(with_script(m, id, with_filtered(s)))
                    } else {
                        Ok(
                            with_script(
                                m,
                                id,
                                with_calls(
                                    s,
                                    s.api_calls.update(
                                        i,
                                        (c, record_line(cl, line, m.interaction_injected)),
                                    ),
                                ),
                            ),
                        )
                    }
                },
                None => {
                    let fresh = CallLinesModel { lines: Seq::empty(), i_may_interact: None };
                    Ok(
                        with_script(
                            m,
                            id,
                            with_calls(
                                s,
                                s.api_calls.push((c, record_line(fresh, line, m.interaction_injected))),
                            ),
                        ),
                    )
                },
            }
        }
    }
}

/// The receiver name of a function call: the constructor of an object, the
/// name of a built-in function, and the empty name for a static call on a
/// primitive (but for the `Function` placeholder); `None` for the rest.
pub open spec fn receiver_name(receiver: JSValueModel, method: Seq<char>) -> Option<Seq<char>> {
    match receiver {
        JSValueModel::Object { constructor, .. } => Some(constructor),
        JSValueModel::Function { name, is_user_fn } => if is_user_fn {
            None
        } else {
            Some(name)
        },
        JSValueModel::String(_)
        | JSValueModel::Int(_)
        | JSValueModel::Float(_)
        | JSValueModel::RegEx(_)
        | JSValueModel::Boolean(_)
        | JSValueModel::Null
        | JSValueModel::Undefined => if method != "Function"@ {
            Some(Seq::empty())
        } else {
            None
        },
        _ => None,
    }
}

/// A get or set: on an object with a string property it is recorded; on an
/// object literal, or of an object, number or unsure property, it is
/// counted as filtered; any other shape is an error.
pub open spec fn get_set(
    m: AggregateModel,
    api_type: ApiType,
    object: JSValueModel,
    property: JSValueModel,
    line: u32,
) -> Result<AggregateModel, AggregateErr> {
    match object {
        JSValueModel::Object { constructor, .. } => match property {
            JSValueModel::String(attr) => push_call(
                m,
                ApiCallModel { api_type, this: constructor, attr: Some(attr) },
                line,
            ),
            JSValueModel::Object { .. }
            | JSValueModel::Int(_)
            | JSValueModel::Float(_)
            | JSValueModel::Unsure => count_filtered(m),
            _ => Err(AggregateErr::UnexpectedGetSetProperty),
        },
        JSValueModel::ObjectLiteral { .. } => count_filtered(m),
        _ => Err(AggregateErr::UnexpectedGetSetObject),
    }
}

/// Registering script `id`; an `eval` script is injected where its parent
/// is.
pub open spec fn register(
    m: AggregateModel,
    line: u32,
    id: i32,
    name: JSValueModel,
    source: Seq<char>,
) -> Result<AggregateModel, AggregateErr> {
    match script_name_of(name) {
        None => Err(AggregateErr::UnexpectedScriptName),
        Some(n) => {
            let injected: Option<bool> = match n {
                ScriptNameModel::Empty => Some(true),
                ScriptNameModel::Url(_) => Some(false),
                ScriptNameModel::Eval { parent_script_id } => if m.scripts.contains_key(
                    parent_script_id,
                ) {
                    Some(m.scripts[parent_script_id].injection_type != ScriptInjectionType::Not)
                } else {
                    None
                },
            };
            match injected {
                None => Err(AggregateErr::UnknownParentScript),
                Some(is_injected) => if m.scripts.contains_key(id) {
                    Err(AggregateErr::DuplicateScriptId)
                } else {
                    Ok(
                        with_script(
                            m,
                            id,
                            ScriptModel {
                                line,
                                name: n,
                                source,
                                injection_type: injection_of(is_injected, source),
                                api_calls: Seq::empty(),
                                n_filtered_call: 0,
                            },
                        ),
                    )
                },
            }
        },
    }
}

/// What applying the record at `line` makes of the aggregate, or the error
/// for which it is rejected (and the aggregate stays as it was).
pub open spec fn add_spec(m: AggregateModel, line: u32, record: LogRecordModel) -> Result<AggregateModel, AggregateErr> {
    match record {
        LogRecordModel::IsolateContext { .. } | LogRecordModel::WindowOrigin { .. } => Ok(m),
        LogRecordModel::ScriptProvenance { id, name, source } => register(m, line, id, name, source),
        LogRecordModel::ExecutionContext { script_id } => if script_id == ID_UNSURE {
            Ok(m)
        } else if !m.scripts.contains_key(script_id) {
            Err(AggregateErr::UnknownExecutionContext)
        } else {
            Ok(
                AggregateModel {
                    current_script_id: script_id,
                    interaction_injected: m.interaction_injected || m.scripts[script_id].injection_type
                        == ScriptInjectionType::Interaction,
                    ..m
                },
            )
        },
        LogRecordModel::FunctionCall { offset, method, is_user_fn, receiver, .. } => if is_user_fn
            || offset == -1 {
            count_filtered(m)
        } else {
            match receiver_name(receiver, method) {
                Some(this) => push_call(
                    m,
                    ApiCallModel { api_type: ApiType::Function, this, attr: Some(method) },
                    line,
                ),
                None => count_filtered(m),
            }
        },
        LogRecordModel::ConstructionCall { method, is_user_fn, .. } => if is_user_fn {
            count_filtered(m)
        } else {
            push_call(m, ApiCallModel { api_type: ApiType::Construction, this: method, attr: None }, line)
        },
        LogRecordModel::GetProperty { object, property, .. } => get_set(
            m,
            ApiType::GetProperty,
            object,
            property,
            line,
        ),
        LogRecordModel::SetProperty { object, property, .. } => get_set(
            m,
            ApiType::SetProperty,
            object,
            property,
            line,
        ),
    }
}

/// Whether `r` and the aggregate after it are what `spec` gives: the new
/// aggregate on success, the error and the old aggregate on failure.
pub open spec fn applied(
    r: Result<(), AggregateErr>,
    old_m: AggregateModel,
    new_m: AggregateModel,
    spec: Result<AggregateModel, AggregateErr>,
) -> bool {
    match spec {
        Ok(m) => r is Ok && new_m == m,
        Err(e) => r == Err::<(), AggregateErr>(e) && new_m == old_m,
    }
}

/// `index_of_call` finds the first place of the call, or there is none.
pub proof fn lemma_index_of_call(calls: Seq<(ApiCallModel, CallLinesModel)>, c: ApiCallModel, from: int)
    requires
        0 <= from,
    ensures
        match index_of_call(calls, c, from) {
            Some(i) => from <= i < calls.len() && calls[i].0 == c,
            None => forall|j: int| from <= j < calls.len() ==> calls[j].0 != c,
        },
    decreases calls.len() - from,
{
    if from < calls.len() && calls[from].0 != c {
        lemma_index_of_call(calls, c, from + 1);
    }
}

/// Where in `calls` the call `c` is recorded.
fn find_call(calls: &Vec<(ApiCall, CallLines)>, c: &ApiCall) -> (r: Option<usize>)
    ensures
        match index_of_call(calls_view(calls@), c@, 0) {
            Some(i) => r is Some && r->0 == i,
            None => r is None,
        },
{
    let ghost v = calls_view(calls@);
    let mut i: usize = 0;
    while i < calls.len()
        invariant
            i <= calls@.len(),
            v == calls_view(calls@),
            index_of_call(v, c@, 0) == index_of_call(v, c@, i as int),
        decreases calls@.len() - i,
    {
        assert(v[i as int].0 == calls@[i as int].0@);
        if calls[i].0.same_as(c) {
            return Some(i);
        }
        i += 1;
    }
    None
}

/// Whether the source's first characters hold the interaction marker.
fn looks_like_interaction(source: &[char]) -> (r: bool)
    ensures
        r == is_interaction_source(source@),
{
    let n = if source.len() < INTERACTION_PREFIX_LEN { source.len() } else { INTERACTION_PREFIX_LEN };
    let marker = chars_of("Gremlins horde");
    contains_in_prefix(source, n, marker.as_slice())
}

/// The receiver name of a function call, as `receiver_name` says.
fn this_of(receiver: JSValue, method: &String) -> (r: Option<String>)
    ensures
        match receiver_name(receiver@, method@) {
            Some(n) => r is Some && r->0@ == n,
            None => r is None,
        },
{
    match receiver {
        JSValue::Object { constructor, .. } => Some(constructor),
        JSValue::Function { name, is_user_fn } => {
            if is_user_fn {
                None
            } else {
                Some(name)
            }
        },
        JSValue::String(_)
        | JSValue::Int(_)
        | JSValue::Float(_)
        | JSValue::RegEx(_)
        | JSValue::Boolean(_)
        | JSValue::Null
        | JSValue::Undefined => {
            let m = chars_of(method.as_str());
            if !chars_equal(m.as_slice(), "Function") {
                Some(String::new())
            } else {
                None
            }
        },
        _ => None,
    }
}

impl Default for RecordAggregate {
    fn default() -> (r: RecordAggregate)
        ensures
            r@.scripts == Map::<i32, ScriptModel>::empty(),
            r@.current_script_id == 0,
            !r@.interaction_injected,
            r@.wf(),
    {
        RecordAggregate::new()
    }
}

impl RecordAggregate {
    /// An aggregate with no script and no interaction yet.
    pub fn new() -> (r: RecordAggregate)
        ensures
            r@.scripts == Map::<i32, ScriptModel>::empty(),
            r@.current_script_id == 0,
            !r@.interaction_injected,
            r@.wf(),
    {
        let r = RecordAggregate {
            scripts: HashMap::new(),
            current_script_id: 0,
            interaction_injected: false,
        };
        assert(r@.scripts =~= Map::<i32, ScriptModel>::empty());
        r
    }

    /// Counts one filtered call on the current script.
    fn count_filtered(&mut self) -> (r: Result<(), AggregateErr>)
        requires
            old(self)@.wf(),
        ensures
            final(self)@.wf(),
            applied(r, old(self)@, final(self)@, count_filtered(old(self)@)),
    {
        let ghost m0 = self@;
        let id = self.current_script_id;
        match self.scripts.remove(&id) {
            None => {
                assert(self@.scripts =~= m0.scripts);
                Err(AggregateErr::UnknownExecutionContext)
            },
            Some(mut s) => {
                if s.n_filtered_call < u32::MAX {
                    s.n_filtered_call = s.n_filtered_call + 1;
                }
                self.scripts.insert(id, s);
                assert(self@.scripts =~= m0.scripts.insert(id, with_filtered(m0.scripts[id])));
                Ok(())
            },
        }
    }

    /// Records the call `c` at `line` on the current script, as
    /// `push_call` says.
    fn push_api_call(&mut self, c: ApiCall, line: u32) -> (r: Result<(), AggregateErr>)
        requires
            old(self)@.wf(),
        ensures
            final(self)@.wf(),
            applied(r, old(self)@, final(self)@, push_call(old(self)@, c@, line)),
    {
        let ghost m0 = self@;
        let may_interact = self.interaction_injected;
        let id = self.current_script_id;
        let mut s = match self.scripts.remove(&id) {
            None => {
                assert(self@.scripts =~= m0.scripts);
                return Err(AggregateErr::UnknownExecutionContext);
            },
            Some(s) => s,
        };
        let ghost s0 = s@;
        assert(s0 == m0.scripts[id]);
        assert(s0.wf());
        if !c.likely_browser_api() {
            if s.n_filtered_call < u32::MAX {
                s.n_filtered_call = s.n_filtered_call + 1;
            }
            self.scripts.insert(id, s);
            assert(self@.scripts =~= m0.scripts.insert(id, with_filtered(s0)));
            return Ok(());
        }
        match find_call(&s.api_calls, &c) {
            Some(i) => {
                proof {
                    lemma_index_of_call(s0.api_calls, c@, 0);
                }
                assert(s0.api_calls[i as int].1 == s.api_calls@[i as int].1@);
                if s.api_calls[i].1.lines.len() >= u32::MAX as usize {
                    if s.n_filtered_call < u32::MAX {
                        s.n_filtered_call = s.n_filtered_call + 1;
                    }
                    self.scripts.insert(id, s);
                    assert(self@.scripts =~= m0.scripts.insert(id, with_filtered(s0)));
                    return Ok(());
                }
                let ghost calls0 = s.api_calls@;
                let (_, mut cl) = s.api_calls.remove(i);
                let ghost cl0 = cl@;
                if may_interact && cl.i_may_interact.is_none() {
                    cl.i_may_interact = Some(cl.lines.len() as u32);
                }
                cl.lines.push(line);
                assert(cl@ == record_line(cl0, line, may_interact));
                let ghost entry = (c@, cl@);
                s.api_calls.insert(i, (c, cl));
                assert(s.api_calls@ =~= calls0.update(i as int, s.api_calls@[i as int]));
                let ghost calls1 = s0.api_calls.update(i as int, entry);
                assert(calls_view(s.api_calls@) =~= calls1);
                assert(s@ == with_calls(s0, calls1));
                assert(s@.wf()) by {
                    assert forall|a: int, b: int|
                        0 <= a < b < calls1.len() implies (#[trigger] calls1[a]).0 != (
                        #[trigger] calls1[b]).0 by {
                        if a != i && b != i {
                            assert(s0.api_calls[a].0 != s0.api_calls[b].0);
                        } else if a == i {
                            assert(s0.api_calls[i as int].0 != s0.api_calls[b].0);
                        } else {
                            assert(s0.api_calls[a].0 != s0.api_calls[i as int].0);
                        }
                    }
                }
                self.scripts.insert(id, s);
                assert(self@.scripts =~= m0.scripts.insert(id, with_calls(s0, calls1)));
                Ok(())
            },
            None => {
                proof {
                    lemma_index_of_call(s0.api_calls, c@, 0);
                }
                let mut cl = CallLines { lines: Vec::new(), i_may_interact: None };
                if may_interact {
                    cl.i_may_interact = Some(0);
                }
                cl.lines.push(line);
                let ghost fresh = CallLinesModel { lines: Seq::empty(), i_may_interact: None };
                assert(cl@ =~= record_line(fresh, line, may_interact));
                let ghost entry = (c@, cl@);
                let ghost calls0 = s.api_calls@;
                s.api_calls.push((c, cl));
                let ghost calls1 = s0.api_calls.push(entry);
                assert(calls_view(s.api_calls@) =~= calls1);
                assert(s@ == with_calls(s0, calls1));
                assert(s@.wf()) by {
                    assert forall|a: int, b: int|
                        0 <= a < b < calls1.len() implies (#[trigger] calls1[a]).0 != (
                        #[trigger] calls1[b]).0 by {
                        if b < s0.api_calls.len() {
                            assert(s0.api_calls[a].0 != s0.api_calls[b].0);
                        } else {
                            assert(s0.api_calls[a].0 != c@);
                        }
                    }
                }
                self.scripts.insert(id, s);
                assert(self@.scripts =~= m0.scripts.insert(id, with_calls(s0, calls1)));
                Ok(())
            },
        }
    }
}

impl RecordAggregate {
    /// Registers script `id`, as `register` says.
    fn register_script(&mut self, line: u32, id: i32, name: JSValue, source: String) -> (r: Result<(), AggregateErr>)
        requires
            old(self)@.wf(),
        ensures
            final(self)@.wf(),
            applied(r, old(self)@, final(self)@, register(old(self)@, line, id, name@, source@)),
    {
        let ghost m0 = self@;
        let name = match ScriptName::from_value(name) {
            None => return Err(AggregateErr::UnexpectedScriptName),
            Some(n) => n,
        };
        let is_injected = match &name {
            ScriptName::Empty => true,
            ScriptName::Url(_) => false,
            ScriptName::Eval { parent_script_id } => match self.scripts.get(parent_script_id) {
                None => return Err(AggregateErr::UnknownParentScript),
                Some(parent) => parent.injection_type != ScriptInjectionType::Not,
            },
        };
        if self.scripts.contains_key(&id) {
            return Err(AggregateErr::DuplicateScriptId);
        }
        let source_chars = chars_of(source.as_str());
        let injection_type = if is_injected && looks_like_interaction(source_chars.as_slice()) {
            ScriptInjectionType::Interaction
        } else if is_injected {
            ScriptInjectionType::Injected
        } else {
            ScriptInjectionType::Not
        };
        let script = ScriptAggregate {
            line,
            name,
            source,
            injection_type,
            api_calls: Vec::new(),
            n_filtered_call: 0,
        };
        assert(calls_view(script.api_calls@) =~= Seq::empty());
        self.scripts.insert(id, script);
        assert(self@.scripts =~= m0.scripts.insert(id, script@));
        Ok(())
    }

    /// Applies a get or a set, as `get_set` says.
    fn add_get_set(
        &mut self,
        line: u32,
        api_type: ApiType,
        object: JSValue,
        property: JSValue,
    ) -> (r: Result<(), AggregateErr>)
        requires
            old(self)@.wf(),
        ensures
            final(self)@.wf(),
            applied(r, old(self)@, final(self)@, get_set(old(self)@, api_type, object@, property@, line)),
    {
        match object {
            JSValue::Object { constructor, .. } => match property {
                JSValue::String(attr) => self.push_api_call(
                    ApiCall { api_type, this: constructor, attr: Some(attr) },
                    line,
                ),
                JSValue::Object { .. } | JSValue::Int(_) | JSValue::Float(_) | JSValue::Unsure => {
                    self.count_filtered()
                },
                _ => Err(AggregateErr::UnexpectedGetSetProperty),
            },
            JSValue::ObjectLiteral { .. } => self.count_filtered(),
            _ => Err(AggregateErr::UnexpectedGetSetObject),
        }
    }

    /// Applies the record found at `line`. On an error the aggregate stays
    /// as it was.
    pub fn add(&mut self, line: u32, record: LogRecord) -> (r: Result<(), AggregateErr>)
        requires
            old(self)@.wf(),
        ensures
            final(self)@.wf(),
            applied(r, old(self)@, final(self)@, add_spec(old(self)@, line, record@)),
    {
        match record {
            LogRecord::IsolateContext { .. } | LogRecord::WindowOrigin { .. } => Ok(()),
            LogRecord::ScriptProvenance { id, name, source } => self.register_script(
                line,
                id,
                name,
                source,
            ),
            LogRecord::ExecutionContext { script_id } => {
                if script_id == ID_UNSURE {
                    return Ok(());
                }
                let interaction = match self.scripts.get(&script_id) {
                    None => return Err(AggregateErr::UnknownExecutionContext),
                    Some(script) => script.injection_type == ScriptInjectionType::Interaction,
                };
                self.current_script_id = script_id;
                if interaction {
                    self.interaction_injected = true;
                }
                Ok(())
            },
            LogRecord::FunctionCall { offset, method, is_user_fn, receiver, .. } => {
                if is_user_fn || offset == -1 {
                    return self.count_filtered();
                }
                match this_of(receiver, &method) {
                    Some(this) => self.push_api_call(
                        ApiCall { api_type: ApiType::Function, this, attr: Some(method) },
                        line,
                    ),
                    None => self.count_filtered(),
                }
            },
            LogRecord::ConstructionCall { method, is_user_fn, .. } => {
                if is_user_fn {
                    return self.count_filtered();
                }
                self.push_api_call(
                    ApiCall { api_type: ApiType::Construction, this: method, attr: None },
                    line,
                )
            },
            LogRecord::GetProperty { object, property, .. } => self.add_get_set(
                line,
                ApiType::GetProperty,
                object,
                property,
            ),
            LogRecord::SetProperty { object, property, .. } => self.add_get_set(
                line,
                ApiType::SetProperty,
                object,
                property,
            ),
        }
    }
}

} // verus!
