//! Applying a whole stream of records in order, and what holds of it.
use vstd::prelude::*;

use crate::aggregating::{
    add_spec, count_filtered, lemma_index_of_call, push_call, receiver_name, AggregateErr,
    AggregateModel, ApiCallModel, ApiType, RecordAggregate,
};
use crate::js_values::JSValueModel;
use crate::log_records::{LogRecord, LogRecordModel, ID_UNSURE};

verus! {

pub open spec fn records_view(records: Seq<(u32, LogRecord)>) -> Seq<(u32, LogRecordModel)> {
    records.map_values(|p: (u32, LogRecord)| (p.0, p.1@))
}

/// The aggregate after applying `records` in order; a rejected record
/// leaves it as it was.
pub open spec fn fold_records(m: AggregateModel, records: Seq<(u32, LogRecordModel)>) -> AggregateModel
    decreases records.len(),
{
    if records.len() == 0 {
        m
    } else {
        let prev = fold_records(m, records.drop_last());
        match add_spec(prev, records.last().0, records.last().1) {
            Ok(next) => next,
            Err(_) => prev,
        }
    }
}

/// The rejected records of `records`, each as its line and error, in order.
pub open spec fn fold_errors(m: AggregateModel, records: Seq<(u32, LogRecordModel)>) -> Seq<(u32, AggregateErr)>
    decreases records.len(),
{
    if records.len() == 0 {
        Seq::empty()
    } else {
        let prev = fold_records(m, records.drop_last());
        let errs = fold_errors(m, records.drop_last());
        match add_spec(prev, records.last().0, records.last().1) {
            Ok(_) => errs,
            Err(e) => errs.push((records.last().0, e)),
        }
    }
}

impl RecordAggregate {
    /// Applies `records` in order, each with its line; returns the line and
    /// the error of each record that was rejected, which has no effect.
    pub fn add_all(&mut self, records: Vec<(u32, LogRecord)>) -> (r: Vec<(u32, AggregateErr)>)
        requires
            old(self)@.wf(),
        ensures
            final(self)@.wf(),
            final(self)@ == fold_records(old(self)@, records_view(records@)),
            r@ == fold_errors(old(self)@, records_view(records@)),
    {
        let ghost m0 = self@;
        let ghost all = records_view(records@);
        let mut pending = records;
        let mut reversed: Vec<(u32, LogRecord)> = Vec::new();
        while pending.len() > 0
            invariant
                all == records_view(pending@ + reversed@.reverse()),
            decreases pending@.len(),
        {
            let ghost before = pending@;
            let last = pending.pop().unwrap();
            let ghost rev0 = reversed@;
            reversed.push(last);
            assert(reversed@.reverse() =~= seq![last] + rev0.reverse());
            assert(pending@ + reversed@.reverse() =~= before + rev0.reverse());
        }
        assert(pending@ + reversed@.reverse() =~= reversed@.reverse());
        let mut errs: Vec<(u32, AggregateErr)> = Vec::new();
        let mut done: usize = 0;
        let n = reversed.len();
        while reversed.len() > 0
            invariant
                self@.wf(),
                done + reversed@.len() == n,
                n == all.len(),
                records_view(reversed@.reverse()) == all.skip(done as int),
                self@ == fold_records(m0, all.take(done as int)),
                errs@ == fold_errors(m0, all.take(done as int)),
            decreases reversed@.len(),
        {
            let ghost rev0 = reversed@;
            let (line, record) = reversed.pop().unwrap();
            proof {
                assert(rev0.reverse() =~= seq![(line, record)] + reversed@.reverse());
                assert(records_view(rev0.reverse()) =~= seq![(line, record@)] + records_view(
                    reversed@.reverse(),
                ));
                assert(all.skip(done as int) =~= seq![all[done as int]] + all.skip(done + 1));
                assert(records_view(rev0.reverse())[0] == (line, record@));
                assert(all.skip(done as int)[0] == all[done as int]);
                assert(all[done as int] == (line, record@));
                assert(records_view(reversed@.reverse()) =~= records_view(rev0.reverse()).skip(1));
                assert(all.skip(done as int).skip(1) =~= all.skip(done + 1));
                assert(all.take(done + 1).drop_last() =~= all.take(done as int));
                assert(all.take(done + 1).last() == (line, record@));
            }
            match self.add(line, record) {
                Ok(()) => {},
                Err(e) => errs.push((line, e)),
            }
            done += 1;
        }
        assert(all.take(done as int) =~= all);
        errs
    }
}

/// Every recorded line is below `bound`, and each call's lines strictly
/// increase.
pub open spec fn lines_below(m: AggregateModel, bound: int) -> bool {
    forall|id: i32, i: int|
        #![trigger m.scripts[id].api_calls[i]]
        m.scripts.contains_key(id) && 0 <= i < m.scripts[id].api_calls.len() ==> {
            let lines = m.scripts[id].api_calls[i].1.lines;
            &&& forall|j: int| 0 <= j < lines.len() ==> #[trigger] lines[j] < bound
            &&& forall|j: int, k: int| 0 <= j < k < lines.len() ==> #[trigger] lines[j] < #[trigger] lines[k]
        }
}

/// Each call's recorded lines strictly increase.
pub open spec fn lines_increasing(m: AggregateModel) -> bool {
    forall|id: i32, i: int, j: int, k: int|
        m.scripts.contains_key(id) && 0 <= i < m.scripts[id].api_calls.len() && 0 <= j < k
            < m.scripts[id].api_calls[i].1.lines.len() ==> #[trigger] m.scripts[id].api_calls[i].1.lines[j]
            < #[trigger] m.scripts[id].api_calls[i].1.lines[k]
}

/// Every script of `m` is in `n`, with the calls it had at the same
/// places, and every interaction boundary that was set still set where it
/// was.
pub open spec fn boundaries_kept(m: AggregateModel, n: AggregateModel) -> bool {
    forall|id: i32|
        #[trigger] m.scripts.contains_key(id) ==> {
            &&& n.scripts.contains_key(id)
            &&& m.scripts[id].api_calls.len() <= n.scripts[id].api_calls.len()
            &&& forall|i: int|
                0 <= i < m.scripts[id].api_calls.len() ==> {
                    let a = #[trigger] m.scripts[id].api_calls[i];
                    let b = n.scripts[id].api_calls[i];
                    &&& a.0 == b.0
                    &&& a.1.i_may_interact is Some ==> b.1.i_may_interact == a.1.i_may_interact
                }
        }
}

/// The aggregate after one record, rejected or not.
pub open spec fn step_result(m: AggregateModel, line: u32, record: LogRecordModel) -> AggregateModel {
    match add_spec(m, line, record) {
        Ok(n) => n,
        Err(_) => m,
    }
}

proof fn lemma_count_filtered_keeps(m: AggregateModel)
    ensures
        count_filtered(m) matches Ok(n) ==> boundaries_kept(m, n) && n.interaction_injected
            == m.interaction_injected && (forall|b: int| lines_below(m, b) ==> lines_below(n, b)),
{
}

proof fn lemma_push_call_keeps(m: AggregateModel, c: ApiCallModel, line: u32)
    ensures
        push_call(m, c, line) matches Ok(n) ==> boundaries_kept(m, n) && n.interaction_injected
            == m.interaction_injected && (lines_below(m, line as int) ==> lines_below(
            n,
            line + 1,
        )),
{
    if push_call(m, c, line) is Ok {
        let n = push_call(m, c, line)->Ok_0;
        let id = m.current_script_id;
        let s = m.scripts[id];
        lemma_index_of_call(s.api_calls, c, 0);
        let calls = n.scripts[id].api_calls;
        // The current script's calls keep their places; one of them, or a
        // new one at the end, gains `line`.
        assert(calls.len() >= s.api_calls.len());
        assert(forall|i: int|
            0 <= i < s.api_calls.len() && calls[i] != s.api_calls[i] ==> {
                &&& calls[i].0 == s.api_calls[i].0
                &&& calls[i].1.lines == s.api_calls[i].1.lines.push(line)
                &&& (s.api_calls[i].1.i_may_interact is Some ==> calls[i].1.i_may_interact
                    == s.api_calls[i].1.i_may_interact)
            });
        assert(calls.len() > s.api_calls.len() ==> calls.len() == s.api_calls.len() + 1
            && calls.last().1.lines == seq![line]);
        assert(boundaries_kept(m, n)) by {
            assert forall|sid: i32| #[trigger] m.scripts.contains_key(sid) implies {
                &&& n.scripts.contains_key(sid)
                &&& m.scripts[sid].api_calls.len() <= n.scripts[sid].api_calls.len()
                &&& forall|i: int|
                    0 <= i < m.scripts[sid].api_calls.len() ==> {
                        let a = #[trigger] m.scripts[sid].api_calls[i];
                        let b = n.scripts[sid].api_calls[i];
                        &&& a.0 == b.0
                        &&& a.1.i_may_interact is Some ==> b.1.i_may_interact == a.1.i_may_interact
                    }
            } by {
                if sid == id {
                    assert forall|i: int| 0 <= i < m.scripts[sid].api_calls.len() implies {
                        let a = #[trigger] m.scripts[sid].api_calls[i];
                        let b = n.scripts[sid].api_calls[i];
                        &&& a.0 == b.0
                        &&& a.1.i_may_interact is Some ==> b.1.i_may_interact == a.1.i_may_interact
                    } by {
                        if calls[i] != s.api_calls[i] {
                        }
                    }
                }
            }
        }
        if lines_below(m, line as int) {
            assert forall|sid: i32, i: int|
                n.scripts.contains_key(sid) && 0 <= i < n.scripts[sid].api_calls.len() implies {
                let lines = #[trigger] n.scripts[sid].api_calls[i].1.lines;
                &&& forall|j: int| 0 <= j < lines.len() ==> #[trigger] lines[j] < line + 1
                &&& forall|j: int, k: int|
                    0 <= j < k < lines.len() ==> #[trigger] lines[j] < #[trigger] lines[k]
            } by {
                let lines = n.scripts[sid].api_calls[i].1.lines;
                if sid != id {
                    let old_lines = m.scripts[sid].api_calls[i].1.lines;
                    assert(lines == old_lines);
                } else if i >= s.api_calls.len() {
                    assert(lines == seq![line]);
                } else {
                    let old_lines = s.api_calls[i].1.lines;
                    assert(forall|j: int| 0 <= j < old_lines.len() ==> #[trigger] old_lines[j] < line);
                    assert(forall|j: int, k: int|
                        0 <= j < k < old_lines.len() ==> #[trigger] old_lines[j] < #[trigger] old_lines[k]);
                    if calls[i] != s.api_calls[i] {
                        assert(lines == old_lines.push(line));
                        assert forall|j: int, k: int|
                            0 <= j < k < lines.len() implies #[trigger] lines[j] < #[trigger] lines[k] by {
                            if k == old_lines.len() {
                                assert(lines[j] == old_lines[j]);
                            } else {
                                assert(lines[j] == old_lines[j] && lines[k] == old_lines[k]);
                            }
                        }
                        assert forall|j: int| 0 <= j < lines.len() implies #[trigger] lines[j] < line + 1 by {
                            if j < old_lines.len() {
                                assert(lines[j] == old_lines[j]);
                            }
                        }
                    } else {
                        assert(lines == old_lines);
                    }
                }
            }
        }
    }
}

/// One record keeps what the stream laws need: the interaction latch, the
/// boundaries, and lines below a bound that the record's line passes.
proof fn lemma_step_keeps(m: AggregateModel, line: u32, record: LogRecordModel)
    ensures
        m.interaction_injected ==> step_result(m, line, record).interaction_injected,
        boundaries_kept(m, step_result(m, line, record)),
        lines_below(m, line as int) ==> lines_below(step_result(m, line, record), line + 1),
{
    match record {
        LogRecordModel::FunctionCall { offset, method, is_user_fn, receiver, .. } => {
            lemma_count_filtered_keeps(m);
            if let Some(this) = receiver_name(receiver, method) {
                lemma_push_call_keeps(
                    m,
                    ApiCallModel {
                        api_type: ApiType::Function,
                        this,
                        attr: Some(method),
                    },
                    line,
                );
            }
        },
        LogRecordModel::ConstructionCall { method, .. } => {
            lemma_count_filtered_keeps(m);
            lemma_push_call_keeps(
                m,
                ApiCallModel {
                    api_type: ApiType::Construction,
                    this: method,
                    attr: None,
                },
                line,
            );
        },
        LogRecordModel::GetProperty { object, property, .. } => {
            lemma_count_filtered_keeps(m);
            if let JSValueModel::Object { constructor, .. } = object {
                if let JSValueModel::String(attr) = property {
                    lemma_push_call_keeps(
                        m,
                        ApiCallModel {
                            api_type: ApiType::GetProperty,
                            this: constructor,
                            attr: Some(attr),
                        },
                        line,
                    );
                }
            }
        },
        LogRecordModel::SetProperty { object, property, .. } => {
            lemma_count_filtered_keeps(m);
            if let JSValueModel::Object { constructor, .. } = object {
                if let JSValueModel::String(attr) = property {
                    lemma_push_call_keeps(
                        m,
                        ApiCallModel {
                            api_type: ApiType::SetProperty,
                            this: constructor,
                            attr: Some(attr),
                        },
                        line,
                    );
                }
            }
        },
        _ => {},
    }
}

proof fn lemma_lines_below_weaken(m: AggregateModel, b1: int, b2: int)
    requires
        lines_below(m, b1),
        b1 <= b2,
    ensures
        lines_below(m, b2),
{
    assert forall|id: i32, i: int|
        m.scripts.contains_key(id) && 0 <= i < m.scripts[id].api_calls.len() implies {
        let lines = #[trigger] m.scripts[id].api_calls[i].1.lines;
        &&& forall|j: int| 0 <= j < lines.len() ==> #[trigger] lines[j] < b2
        &&& forall|j: int, k: int| 0 <= j < k < lines.len() ==> #[trigger] lines[j] < #[trigger] lines[k]
    } by {
        let lines = m.scripts[id].api_calls[i].1.lines;
        assert(forall|j: int| 0 <= j < lines.len() ==> #[trigger] lines[j] < b1);
    }
}

proof fn lemma_fold_step(m: AggregateModel, records: Seq<(u32, LogRecordModel)>)
    requires
        records.len() > 0,
    ensures
        fold_records(m, records) == step_result(
            fold_records(m, records.drop_last()),
            records.last().0,
            records.last().1,
        ),
{
}

proof fn lemma_lines_below_stream(m: AggregateModel, records: Seq<(u32, LogRecordModel)>)
    requires
        records.len() > 0,
        lines_below(m, records[0].0 as int),
        forall|a: int, b: int| 0 <= a < b < records.len() ==> #[trigger] records[a].0 < #[trigger] records[b].0,
    ensures
        lines_below(fold_records(m, records), records.last().0 + 1),
    decreases records.len(),
{
    let init = records.drop_last();
    lemma_fold_step(m, records);
    if records.len() == 1 {
        assert(fold_records(m, init) == m);
        lemma_step_keeps(m, records[0].0, records[0].1);
    } else {
        assert(init[0] == records[0]);
        lemma_lines_below_stream(m, init);
        let prev = fold_records(m, init);
        assert(init.last().0 < records.last().0);
        lemma_lines_below_weaken(prev, init.last().0 + 1, records.last().0 as int);
        lemma_step_keeps(prev, records.last().0, records.last().1);
    }
}

/// In a stream whose lines come in increasing order, starting above every
/// line recorded before, each API call's lines strictly increase.
pub proof fn lemma_in_order_lines_increase(m: AggregateModel, records: Seq<(u32, LogRecordModel)>)
    requires
        lines_increasing(m),
        records.len() > 0 ==> lines_below(m, records[0].0 as int),
        forall|a: int, b: int| 0 <= a < b < records.len() ==> #[trigger] records[a].0 < #[trigger] records[b].0,
    ensures
        lines_increasing(fold_records(m, records)),
{
    if records.len() > 0 {
        lemma_lines_below_stream(m, records);
        let f = fold_records(m, records);
        assert forall|id: i32, i: int, j: int, k: int|
            f.scripts.contains_key(id) && 0 <= i < f.scripts[id].api_calls.len() && 0 <= j < k
                < f.scripts[id].api_calls[i].1.lines.len() implies #[trigger] f.scripts[id].api_calls[i].1.lines[j]
            < #[trigger] f.scripts[id].api_calls[i].1.lines[k] by {
            let lines = f.scripts[id].api_calls[i].1.lines;
            assert(forall|j: int, k: int| 0 <= j < k < lines.len() ==> #[trigger] lines[j] < #[trigger] lines[k]);
        }
    }
}

proof fn lemma_boundaries_kept_trans(a: AggregateModel, b: AggregateModel, c: AggregateModel)
    requires
        boundaries_kept(a, b),
        boundaries_kept(b, c),
    ensures
        boundaries_kept(a, c),
{
    assert forall|id: i32| #[trigger] a.scripts.contains_key(id) implies {
        &&& c.scripts.contains_key(id)
        &&& a.scripts[id].api_calls.len() <= c.scripts[id].api_calls.len()
        &&& forall|i: int|
            0 <= i < a.scripts[id].api_calls.len() ==> {
                let x = #[trigger] a.scripts[id].api_calls[i];
                let y = c.scripts[id].api_calls[i];
                &&& x.0 == y.0
                &&& x.1.i_may_interact is Some ==> y.1.i_may_interact == x.1.i_may_interact
            }
    } by {
        assert(b.scripts.contains_key(id));
        assert forall|i: int| 0 <= i < a.scripts[id].api_calls.len() implies {
            let x = #[trigger] a.scripts[id].api_calls[i];
            let y = c.scripts[id].api_calls[i];
            &&& x.0 == y.0
            &&& x.1.i_may_interact is Some ==> y.1.i_may_interact == x.1.i_may_interact
        } by {
            let _ = b.scripts[id].api_calls[i];
        }
    }
}

/// Once interaction may have started it stays so for the rest of the
/// stream, and an interaction boundary, once set, stays where it is: from
/// any point of the stream to its end.
pub proof fn lemma_latch_and_boundaries_stay(
    m: AggregateModel,
    records: Seq<(u32, LogRecordModel)>,
    k: int,
)
    requires
        0 <= k <= records.len(),
    ensures
        fold_records(m, records.take(k)).interaction_injected ==> fold_records(
            m,
            records,
        ).interaction_injected,
        boundaries_kept(fold_records(m, records.take(k)), fold_records(m, records)),
    decreases records.len(),
{
    if k == records.len() {
        assert(records.take(k) == records);
    } else {
        let init = records.drop_last();
        assert(init.take(k) == records.take(k));
        lemma_latch_and_boundaries_stay(m, init, k);
        lemma_fold_step(m, records);
        let prev = fold_records(m, init);
        lemma_step_keeps(prev, records.last().0, records.last().1);
        lemma_boundaries_kept_trans(fold_records(m, records.take(k)), prev, fold_records(m, records));
    }
}

/// A second registration of a script ID is rejected, whatever it holds:
/// of the two records exactly one error comes, and the first registration
/// stays. Where the second name is a string, the error is the duplicate ID.
pub proof fn lemma_duplicate_registration_rejected(
    m: AggregateModel,
    line1: u32,
    line2: u32,
    id: i32,
    name1: JSValueModel,
    source1: Seq<char>,
    name2: JSValueModel,
    source2: Seq<char>,
)
    requires
        add_spec(m, line1, LogRecordModel::ScriptProvenance { id, name: name1, source: source1 }) is Ok,
    ensures
        ({
            let first = LogRecordModel::ScriptProvenance { id, name: name1, source: source1 };
            let second = LogRecordModel::ScriptProvenance { id, name: name2, source: source2 };
            let m1 = add_spec(m, line1, first)->Ok_0;
            &&& add_spec(m1, line2, second) is Err
            &&& name2 is String ==> add_spec(m1, line2, second) == Err::<AggregateModel, AggregateErr>(
                AggregateErr::DuplicateScriptId,
            )
            &&& fold_records(m, seq![(line1, first), (line2, second)]) == m1
            &&& fold_errors(m, seq![(line1, first), (line2, second)]).len() == 1
            &&& m1.scripts.contains_key(id) && m1.scripts[id].source == source1
        }),
{
    let first = LogRecordModel::ScriptProvenance { id, name: name1, source: source1 };
    let second = LogRecordModel::ScriptProvenance { id, name: name2, source: source2 };
    let rs = seq![(line1, first), (line2, second)];
    let one = seq![(line1, first)];
    assert(rs.drop_last() =~= one);
    assert(one.drop_last() =~= Seq::<(u32, LogRecordModel)>::empty());
    assert(fold_records(m, one.drop_last()) == m);
    assert(fold_errors(m, one.drop_last()).len() == 0);
    assert(fold_records(m, one) == add_spec(m, line1, first)->Ok_0);
    assert(fold_errors(m, one).len() == 0);
}

/// An execution context that names a script never registered (and is not
/// the unsure ID) is rejected and changes nothing, the current script
/// included.
pub proof fn lemma_unknown_context_rejected(m: AggregateModel, line: u32, script_id: i32)
    requires
        script_id != ID_UNSURE,
        !m.scripts.contains_key(script_id),
    ensures
        add_spec(m, line, LogRecordModel::ExecutionContext { script_id }) == Err::<
            AggregateModel,
            AggregateErr,
        >(AggregateErr::UnknownExecutionContext),
        fold_records(m, seq![(line, LogRecordModel::ExecutionContext { script_id })]) == m,
{
    let rs = seq![(line, LogRecordModel::ExecutionContext { script_id })];
    assert(rs.drop_last() =~= Seq::<(u32, LogRecordModel)>::empty());
    assert(fold_records(m, rs.drop_last()) == m);
}

} // verus!
