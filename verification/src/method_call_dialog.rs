//! State changes of the method-call dialog.

use vstd::prelude::*;

use crate::master_events::{MethodArgInfo, MethodArgValue};
use crate::master_model::MethodCallState;
use crate::panels;
use crate::text;

verus! {


/// What the method-call dialog asks of the application after a frame.
pub struct DialogActions {
    pub close: bool,
    pub call: Option<Vec<MethodArgValue>>,
}

/// The default text of each argument of `args`, in order.
pub open spec fn default_texts(args: Seq<MethodArgInfo>) -> Seq<Seq<char>> {
    args.map_values(|a: MethodArgInfo| panels::default_arg_text(a.data_type@))
}

/// The characters of each string of `s`.
pub open spec fn texts(s: Seq<String>) -> Seq<Seq<char>> {
    s.map_values(|x: String| x@)
}

fn defaults_for(args: &Vec<MethodArgInfo>) -> (r: Vec<String>)
    ensures
        texts(r@) == default_texts(args@),
{
    let mut out: Vec<String> = Vec::new();
    let mut i: usize = 0;
    while i < args.len()
        invariant
            i <= args.len(),
            texts(out@) == default_texts(args@.take(i as int)),
        decreases args.len() - i,
    {
        let d = panels::default_input_for(&args[i]);
        out.push(d);
        assert(args@.take(i + 1) == args@.take(i as int).push(args@[i as int]));
        assert(default_texts(args@.take(i + 1)) == default_texts(args@.take(i as int)).push(
            panels::default_arg_text(args@[i as int].data_type@),
        ));
        i = i + 1;
    }
    assert(args@.take(args.len() as int) == args@);
    out
}

/// Resets the input texts to the defaults of the declared inputs when the
/// dialog has inputs and the number of texts does not match them.
pub fn sync_input_values(state: &mut MethodCallState)
    ensures
        old(state).inputs_meta@.len() > 0 && old(state).input_values@.len() != old(state).inputs_meta@.len() ==> texts(final(state).input_values@) == default_texts(
            old(state).inputs_meta@,
        ),
        !(old(state).inputs_meta@.len() > 0 && old(state).input_values@.len() != old(state).inputs_meta@.len()) ==> final(state).input_values == old(state).input_values,
        final(state).inputs_meta == old(state).inputs_meta,
        final(state).outputs_meta == old(state).outputs_meta,
        final(state).pending_args_req == old(state).pending_args_req,
        final(state).pending_call_req == old(state).pending_call_req,
{
    if state.inputs_meta.len() > 0 && state.input_values.len() != state.inputs_meta.len() {
        state.input_values = defaults_for(&state.inputs_meta);
    }
}

/// The arguments to send: each declared input's data type with the text
/// entered for it, for as many inputs as have both.
pub fn call_args(state: &MethodCallState) -> (r: Vec<MethodArgValue>)
    ensures
        r@.len() == if state.inputs_meta@.len() < state.input_values@.len() {
            state.inputs_meta@.len()
        } else {
            state.input_values@.len()
        },
        forall|i: int|
            0 <= i < r@.len() ==> (#[trigger] r@[i]).data_type@ == state.inputs_meta@[i].data_type@
                && r@[i].value@ == state.input_values@[i]@,
{
    let n = if state.inputs_meta.len() < state.input_values.len() {
        state.inputs_meta.len()
    } else {
        state.input_values.len()
    };
    let mut out: Vec<MethodArgValue> = Vec::new();
    let mut i: usize = 0;
    while i < n
        invariant
            i <= n,
            n <= state.inputs_meta.len(),
            n <= state.input_values.len(),
            out@.len() == i,
            forall|k: int|
                0 <= k < i ==> (#[trigger] out@[k]).data_type@ == state.inputs_meta@[k].data_type@
                    && out@[k].value@ == state.input_values@[k]@,
        decreases n - i,
    {
        out.push(
            MethodArgValue {
                data_type: state.inputs_meta[i].data_type.clone(),
                value: state.input_values[i].clone(),
            },
        );
        i = i + 1;
    }
    out
}

/// `new` is the dialog `old` after the argument lists of request `req_id` arrived.
pub open spec fn method_args_applied(old: MethodCallState, new: MethodCallState, req_id: u64, inputs: Seq<MethodArgInfo>, outputs: Seq<MethodArgInfo>) -> bool {
    &&& old.pending_args_req == Some(req_id) ==> {
        &&& new.pending_args_req is None
        &&& texts(new.input_values@) == default_texts(inputs)
        &&& new.inputs_meta@ == inputs
        &&& new.outputs_meta@ == outputs
        &&& new == (MethodCallState {
            pending_args_req: None,
            input_values: new.input_values,
            inputs_meta: new.inputs_meta,
            outputs_meta: new.outputs_meta,
            ..old
        })
    }
    &&& old.pending_args_req != Some(req_id) ==> new == old
    &&& new.pending_call_req == old.pending_call_req
    &&& new.conn_id == old.conn_id
    &&& new.method_id == old.method_id
    &&& new.object_id == old.object_id
}

/// Takes in the argument lists read for request `req_id`, when that is the
/// request the dialog waits for: the inputs get their default texts.
pub fn apply_method_args(
    state: &mut MethodCallState,
    req_id: u64,
    inputs: Vec<MethodArgInfo>,
    outputs: Vec<MethodArgInfo>,
)
    ensures
        method_args_applied(*old(state), *final(state), req_id, inputs@, outputs@),
{
    if state.pending_args_req == Some(req_id) {
        state.pending_args_req = None;
        state.input_values = defaults_for(&inputs);
        state.inputs_meta = inputs;
        state.outputs_meta = outputs;
    }
}

/// Records that call request `req_id` was sent and clears the last result.
pub fn begin_call(state: &mut MethodCallState, req_id: u64)
    ensures
        final(state).pending_call_req == Some(req_id),
        final(state).last_result_status is None,
        final(state).last_result_outputs@.len() == 0,
        *final(state) == (MethodCallState {
            pending_call_req: Some(req_id),
            last_result_status: None,
            last_result_outputs: final(state).last_result_outputs,
            ..*old(state)
        }),
{
    state.pending_call_req = Some(req_id);
    state.last_result_status = None;
    state.last_result_outputs.clear();
}

/// `new` is the dialog `old` after the result of call request `req_id` arrived.
pub open spec fn method_result_applied(old: MethodCallState, new: MethodCallState, req_id: u64, status: String, outputs: Seq<MethodArgValue>) -> bool {
    &&& old.pending_call_req == Some(req_id) ==> {
        &&& new.pending_call_req is None
        &&& new.last_result_status == Some(status)
        &&& new.last_result_outputs@ == outputs
        &&& new == (MethodCallState {
            pending_call_req: None,
            last_result_status: Some(status),
            last_result_outputs: new.last_result_outputs,
            ..old
        })
    }
    &&& old.pending_call_req != Some(req_id) ==> new == old
    &&& new.pending_args_req == old.pending_args_req
    &&& new.inputs_meta == old.inputs_meta
    &&& new.input_values == old.input_values
}

/// Takes in the result of call request `req_id`, when that is the request
/// the dialog waits for.
pub fn apply_method_result(
    state: &mut MethodCallState,
    req_id: u64,
    status: String,
    outputs: Vec<MethodArgValue>,
)
    ensures
        method_result_applied(*old(state), *final(state), req_id, status, outputs@),
{
    if state.pending_call_req == Some(req_id) {
        state.pending_call_req = None;
        state.last_result_status = Some(status);
        state.last_result_outputs = outputs;
    }
}

/// Label of output `i`: the declared output's name, or `[i]` when the
/// method declared fewer outputs.
pub fn output_name(state: &MethodCallState, i: usize) -> (r: String)
    ensures
        i < state.outputs_meta@.len() ==> r@ == state.outputs_meta@[i as int].name@,
        i >= state.outputs_meta@.len() ==> r@ == seq!['['] + text::decimal(i as nat) + seq![']'],
{
    if i < state.outputs_meta.len() {
        state.outputs_meta[i].name.clone()
    } else {
        let mut v: Vec<char> = Vec::new();
        v.push('[');
        let d = text::decimal_exec(i as u64);
        let mut k: usize = 0;
        while k < d.len()
            invariant
                k <= d.len(),
                v@ == seq!['['] + d@.take(k as int),
            decreases d.len() - k,
        {
            v.push(d[k]);
            assert(d@.take(k + 1) == d@.take(k as int).push(d@[k as int]));
            k = k + 1;
        }
        assert(d@.take(d.len() as int) == d@);
        v.push(']');
        text::string_from_chars(&v)
    }
}

} // verus!
