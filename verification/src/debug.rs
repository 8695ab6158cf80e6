//! Call traces as the debug namespace hands them out: a tree of calls
//! turned into a nested trace or into a flat list of traces.

use vstd::prelude::*;
use crate::job_row::{copy_text, text_of};

verus! {

/// An account's address.
#[derive(Clone, Copy, Debug, PartialEq, Eq, Hash)]
pub struct Address(pub [u8; 20]);

/// A 32-byte hash.
#[derive(Clone, Copy, Debug, PartialEq, Eq, Hash)]
pub struct H256(pub [u8; 32]);

/// A 256-bit number in four limbs, the lowest first.
#[derive(Clone, Copy, Debug, PartialEq, Eq, Hash)]
pub struct U256(pub [u64; 4]);

/// How a far call reaches its callee.
#[derive(Clone, Copy, Debug, PartialEq, Eq, Structural, Hash)]
pub enum FarCallOpcode {
    Normal,
    Delegate,
    Mimic,
}

/// The kind of a call in the virtual machine.
#[derive(Clone, Copy, Debug, PartialEq, Eq, Structural, Hash)]
pub enum CallType {
    Call(FarCallOpcode),
    Create,
    /// A call within one contract. Traces that are handed out hold none.
    NearCall,
}

/// A call as the virtual machine recorded it, with the calls it made.
#[derive(Debug)]
pub struct Call {
    pub call_type: CallType,
    pub from: Address,
    pub to: Address,
    pub parent_gas: u64,
    pub gas: u64,
    pub gas_used: u64,
    pub value: U256,
    pub input: Vec<u8>,
    pub output: Vec<u8>,
    pub error: Option<String>,
    pub revert_reason: Option<String>,
    pub calls: Vec<Call>,
}

/// The kind of a call in a trace.
#[derive(Clone, Copy, Debug, PartialEq, Eq, Structural, Hash)]
pub enum DebugCallType {
    Call,
    Create,
}

/// A call in a nested trace.
#[derive(Debug)]
pub struct DebugCall {
    pub call_type: DebugCallType,
    pub from: Address,
    pub to: Address,
    pub gas: u64,
    pub gas_used: u64,
    pub value: U256,
    pub output: Vec<u8>,
    pub input: Vec<u8>,
    pub error: Option<String>,
    pub revert_reason: Option<String>,
    pub calls: Vec<DebugCall>,
}

/// A call in a nested trace as contracts see it.
pub struct DebugCallView {
    pub call_type: DebugCallType,
    pub from: Address,
    pub to: Address,
    pub gas: u64,
    pub gas_used: u64,
    pub value: U256,
    pub output: Seq<u8>,
    pub input: Seq<u8>,
    pub error: Option<Seq<char>>,
    pub revert_reason: Option<Seq<char>>,
    pub calls: Seq<DebugCallView>,
}

impl View for DebugCall {
    type V = DebugCallView;

    open spec fn view(&self) -> DebugCallView
        decreases self,
    {
        DebugCallView {
            call_type: self.call_type,
            from: self.from,
            to: self.to,
            gas: self.gas,
            gas_used: self.gas_used,
            value: self.value,
            output: self.output@,
            input: self.input@,
            error: text_of(self.error),
            revert_reason: text_of(self.revert_reason),
            calls: Seq::new(
                self.calls@.len(),
                |i: int|
                    if 0 <= i < self.calls@.len() {
                        self.calls@[i].view()
                    } else {
                        arbitrary()
                    },
            ),
        }
    }
}

/// What a flat trace says was done.
#[derive(Debug)]
pub struct Action {
    pub call_type: DebugCallType,
    pub from: Address,
    pub to: Address,
    pub gas: u64,
    pub value: U256,
    pub input: Vec<u8>,
}

/// What a flat trace says came back.
#[derive(Debug)]
pub struct CallResult {
    pub output: Vec<u8>,
    pub gas_used: u64,
}

/// A call in a flat trace.
#[derive(Debug)]
pub struct DebugCallFlat {
    pub action: Action,
    pub result: Option<CallResult>,
    pub subtraces: usize,
    pub traceaddress: Vec<usize>,
    pub transaction_position: usize,
    pub transaction_hash: H256,
    pub call_type: DebugCallType,
}

/// A call in a flat trace as contracts see it.
pub struct FlatCallView {
    pub action_type: DebugCallType,
    pub from: Address,
    pub to: Address,
    pub gas: u64,
    pub value: U256,
    pub input: Seq<u8>,
    /// Output and gas used, where the call raised no error.
    pub result: Option<(Seq<u8>, u64)>,
    pub subtraces: usize,
    pub traceaddress: Seq<usize>,
    pub transaction_position: usize,
    pub transaction_hash: H256,
    pub call_type: DebugCallType,
}

impl View for DebugCallFlat {
    type V = FlatCallView;

    open spec fn view(&self) -> FlatCallView {
        FlatCallView {
            action_type: self.action.call_type,
            from: self.action.from,
            to: self.action.to,
            gas: self.action.gas,
            value: self.action.value,
            input: self.action.input@,
            result: match self.result {
                Some(result) => Some((result.output@, result.gas_used)),
                None => None,
            },
            subtraces: self.subtraces,
            traceaddress: self.traceaddress@,
            transaction_position: self.transaction_position,
            transaction_hash: self.transaction_hash,
            call_type: self.call_type,
        }
    }
}

/// The traces that a list of flat calls stands for.
pub open spec fn flat_views(calls: Seq<DebugCallFlat>) -> Seq<FlatCallView> {
    Seq::new(calls.len(), |i: int| calls[i]@)
}

/// The tracers that can be asked for.
#[derive(Clone, Copy, Debug, PartialEq, Eq, Structural, Hash)]
pub enum SupportedTracers {
    CallTracer,
    FlatCallTracer,
}

/// Options of the call tracer.
#[derive(Clone, Copy, Debug, PartialEq, Eq, Structural, Hash)]
pub struct CallTracerConfig {
    pub only_top_call: bool,
}

/// Which tracer is asked for, and with which options.
#[derive(Clone, Copy, Debug, PartialEq, Eq, Structural, Hash)]
pub struct TracerConfig {
    pub tracer: SupportedTracers,
    pub tracer_config: CallTracerConfig,
}

/// The trace of one transaction.
#[derive(Debug)]
pub enum CallTracerResult {
    CallTrace(DebugCall),
    FlattCallTrace(Vec<DebugCallFlat>),
}

/// Only the top call is wanted.
pub open spec fn wants_top_only(options: Option<TracerConfig>) -> bool {
    match options {
        Some(config) => config.tracer_config.only_top_call,
        None => false,
    }
}

/// A flat trace is wanted.
pub open spec fn wants_flat(options: Option<TracerConfig>) -> bool {
    match options {
        Some(config) => config.tracer == SupportedTracers::FlatCallTracer,
        None => false,
    }
}

/// The kind that a call has in a trace.
pub open spec fn trace_type(call_type: CallType) -> DebugCallType {
    match call_type {
        CallType::Create => DebugCallType::Create,
        _ => DebugCallType::Call,
    }
}

/// Neither the call nor, unless only the top call counts, any call below
/// it is a near call.
pub open spec fn has_no_near_call(call: Call, only_top_call: bool) -> bool
    decreases call,
{
    &&& call.call_type != CallType::NearCall
    &&& only_top_call || forall|i: int|
        0 <= i < call.calls@.len() ==> has_no_near_call(#[trigger] call.calls@[i], false)
}

/// The nested trace of a call: the call with its fields carried over
/// and, unless only the top call is wanted, the traces of the calls it
/// made, in their order.
pub open spec fn nested_trace(call: Call, only_top_call: bool) -> DebugCallView
    decreases call,
{
    DebugCallView {
        call_type: trace_type(call.call_type),
        from: call.from,
        to: call.to,
        gas: call.gas,
        gas_used: call.gas_used,
        value: call.value,
        output: call.output@,
        input: call.input@,
        error: text_of(call.error),
        revert_reason: text_of(call.revert_reason),
        calls: if only_top_call {
            Seq::empty()
        } else {
            Seq::new(
                call.calls@.len(),
                |i: int|
                    if 0 <= i < call.calls@.len() {
                        nested_trace(call.calls@[i], false)
                    } else {
                        arbitrary()
                    },
            )
        },
    }
}

/// The flat trace of one call, without the calls it made: where it
/// stands in the tree, how many calls it made, and its result unless it
/// raised an error.
pub open spec fn flat_entry(call: Call, trace_address: Seq<usize>, position: usize, hash: H256) -> FlatCallView {
    FlatCallView {
        action_type: trace_type(call.call_type),
        from: call.from,
        to: call.to,
        gas: call.gas,
        value: call.value,
        input: call.input@,
        result: if call.error is None {
            Some((call.output@, call.gas_used))
        } else {
            None
        },
        subtraces: call.calls@.len() as usize,
        traceaddress: trace_address,
        transaction_position: position,
        transaction_hash: hash,
        call_type: DebugCallType::Call,
    }
}

/// The flat trace of a call: unless only the top call is wanted, the
/// flat traces of the calls it made, each under the address of its
/// parent with its own place appended, and then the call itself.
pub open spec fn flat_trace(
    call: Call,
    trace_address: Seq<usize>,
    only_top_call: bool,
    position: usize,
    hash: H256,
) -> Seq<FlatCallView>
    decreases call, 0int,
{
    (if only_top_call {
        Seq::empty()
    } else {
        flat_traces_of(call.calls@, call.calls@.len() as int, trace_address, position, hash)
    }).push(flat_entry(call, trace_address, position, hash))
}

/// The flat traces of the first `n` of a call's calls, one after the
/// other.
pub open spec fn flat_traces_of(
    calls: Seq<Call>,
    n: int,
    trace_address: Seq<usize>,
    position: usize,
    hash: H256,
) -> Seq<FlatCallView>
    decreases calls, n,
{
    if n <= 0 || n > calls.len() {
        Seq::empty()
    } else {
        flat_traces_of(calls, n - 1, trace_address, position, hash) + flat_trace(
            calls[n - 1],
            trace_address.push((n - 1) as usize),
            false,
            position,
            hash,
        )
    }
}

/// A copy of a list of bytes.
pub fn copy_bytes(bytes: &Vec<u8>) -> (copy: Vec<u8>)
    ensures
        copy@ == bytes@,
{
    let mut copy: Vec<u8> = Vec::new();
    let mut i: usize = 0;
    while i < bytes.len()
        invariant
            0 <= i <= bytes.len(),
            copy@ == bytes@.take(i as int),
        decreases bytes.len() - i,
    {
        copy.push(bytes[i]);
        proof {
            assert(copy@ =~= bytes@.take(i as int + 1));
        }
        i += 1;
    }
    proof {
        assert(bytes@.take(i as int) =~= bytes@);
    }
    copy
}

/// A copy of a list of places.
pub fn copy_places(places: &Vec<usize>) -> (copy: Vec<usize>)
    ensures
        copy@ == places@,
{
    let mut copy: Vec<usize> = Vec::new();
    let mut i: usize = 0;
    while i < places.len()
        invariant
            0 <= i <= places.len(),
            copy@ == places@.take(i as int),
        decreases places.len() - i,
    {
        copy.push(places[i]);
        proof {
            assert(copy@ =~= places@.take(i as int + 1));
        }
        i += 1;
    }
    proof {
        assert(places@.take(i as int) =~= places@);
    }
    copy
}

/// The kind that a call has in a trace.
fn debug_type(call_type: CallType) -> (kind: DebugCallType)
    requires
        call_type != CallType::NearCall,
    ensures
        kind == trace_type(call_type),
{
    match call_type {
        CallType::Create => DebugCallType::Create,
        _ => DebugCallType::Call,
    }
}

/// Builds the nested trace of a call.
pub fn nested_trace_of(call: &Call, only_top_call: bool) -> (trace: DebugCall)
    requires
        has_no_near_call(*call, only_top_call),
    ensures
        trace@ == nested_trace(*call, only_top_call),
    decreases call,
{
    let mut calls: Vec<DebugCall> = Vec::new();
    if !only_top_call {
        let mut i: usize = 0;
        while i < call.calls.len()
            invariant
                0 <= i <= call.calls.len(),
                has_no_near_call(*call, only_top_call),
                !only_top_call,
                calls.len() == i,
                forall|j: int|
                    0 <= j < i ==> (#[trigger] calls@[j])@ == nested_trace(call.calls@[j], false),
            decreases call.calls.len() - i,
        {
            assert(has_no_near_call(call.calls@[i as int], false));
            let inner = nested_trace_of(&call.calls[i], false);
            calls.push(inner);
            i += 1;
        }
    }
    let trace = DebugCall {
        call_type: debug_type(call.call_type),
        from: call.from,
        to: call.to,
        gas: call.gas,
        gas_used: call.gas_used,
        value: call.value,
        output: copy_bytes(&call.output),
        input: copy_bytes(&call.input),
        error: copy_text(&call.error),
        revert_reason: copy_text(&call.revert_reason),
        calls,
    };
    proof {
        assert(trace@.calls =~= nested_trace(*call, only_top_call).calls);
    }
    trace
}

/// A nested trace in the list of a block's traces.
#[derive(Debug)]
pub struct ResultDebugCall {
    pub result: DebugCall,
}

/// An entry in the list of a block's traces.
#[derive(Debug)]
pub enum CallTracerResultWithNestedResult {
    CallTrace(ResultDebugCall),
    FlattCallTrace(Vec<DebugCallFlat>),
}

/// An entry in the list of a block's traces as contracts see it.
pub enum BlockTraceView {
    Nested(DebugCallView),
    Flat(Seq<FlatCallView>),
}

impl View for CallTracerResultWithNestedResult {
    type V = BlockTraceView;

    open spec fn view(&self) -> BlockTraceView {
        match self {
            CallTracerResultWithNestedResult::CallTrace(nested) => BlockTraceView::Nested(
                nested.result@,
            ),
            CallTracerResultWithNestedResult::FlattCallTrace(calls) => BlockTraceView::Flat(
                flat_views(calls@),
            ),
        }
    }
}

/// The entries that a list of block traces stands for.
pub open spec fn block_views(traces: Seq<CallTracerResultWithNestedResult>) -> Seq<BlockTraceView> {
    Seq::new(traces.len(), |i: int| traces[i]@)
}

/// The flat traces of the first `n` transactions of a block, one after
/// the other.
pub open spec fn block_flat_traces(
    call_traces: Seq<(Call, H256, usize)>,
    n: int,
    options: Option<TracerConfig>,
) -> Seq<FlatCallView>
    decreases n,
{
    if n <= 0 || n > call_traces.len() {
        Seq::empty()
    } else {
        block_flat_traces(call_traces, n - 1, options) + flat_trace(
            call_traces[n - 1].0,
            seq![call_traces[n - 1].2],
            wants_top_only(options),
            call_traces[n - 1].2,
            call_traces[n - 1].1,
        )
    }
}

/// The traces of a block: one nested trace for each transaction, or
/// one flat list for the whole block, which is left out for a block
/// without transactions.
pub open spec fn block_traces(call_traces: Seq<(Call, H256, usize)>, options: Option<TracerConfig>) -> Seq<
    BlockTraceView,
> {
    if wants_flat(options) {
        if call_traces.len() == 0 {
            Seq::empty()
        } else {
            seq![
                BlockTraceView::Flat(
                    block_flat_traces(call_traces, call_traces.len() as int, options),
                ),
            ]
        }
    } else {
        Seq::new(
            call_traces.len(),
            |i: int| BlockTraceView::Nested(nested_trace(call_traces[i].0, wants_top_only(options))),
        )
    }
}

/// How the execution of a call ended.
#[derive(Debug)]
pub enum ExecutionResult {
    /// The call returned.
    Success { output: Vec<u8> },
    /// The call reverted, for the reason given.
    Revert { reason: String },
    /// The virtual machine halted, for the reason given.
    Halt { reason: String },
}

/// An error of the web3 interface.
#[derive(Debug)]
pub enum Web3Error {
    /// The transaction was not accepted: the reason and data that go with it.
    SubmitTransactionError(String, Vec<u8>),
}

/// The bytes of the address that top calls are traced from: all zero.
pub open spec fn zero_address() -> Seq<u8> {
    Seq::new(20, |i: int| 0u8)
}

/// The bytes of the bootloader's address, which top calls are traced
/// to: `0x8001`.
pub open spec fn bootloader_address() -> Seq<u8> {
    Seq::new(
        20,
        |i: int|
            if i == 18 {
                0x80u8
            } else if i == 19 {
                0x01u8
            } else {
                0u8
            },
    )
}

/// The top call of a traced execution: a far call from the zero address
/// to the bootloader that raised no error.
pub open spec fn is_high_level_call(
    call: Call,
    gas: u64,
    gas_used: u64,
    value: U256,
    input: Seq<u8>,
    output: Seq<u8>,
    revert_reason: Option<Seq<char>>,
    calls: Vec<Call>,
) -> bool {
    &&& call.call_type == CallType::Call(FarCallOpcode::Normal)
    &&& call.from.0@ == zero_address()
    &&& call.to.0@ == bootloader_address()
    &&& call.parent_gas == gas
    &&& call.gas == gas
    &&& call.gas_used == gas_used
    &&& call.value == value
    &&& call.input@ == input
    &&& call.output@ == output
    &&& call.error is None
    &&& text_of(call.revert_reason) == revert_reason
    &&& call.calls == calls
}

impl Call {
    /// The top call of a traced execution.
    pub fn new_high_level(
        gas: u64,
        gas_used: u64,
        value: U256,
        input: Vec<u8>,
        output: Vec<u8>,
        revert_reason: Option<String>,
        calls: Vec<Call>,
    ) -> (call: Call)
        ensures
            is_high_level_call(
                call,
                gas,
                gas_used,
                value,
                input@,
                output@,
                text_of(revert_reason),
                calls,
            ),
    {
        let from = Address([0u8, 0, 0, 0, 0, 0, 0, 0, 0, 0, 0, 0, 0, 0, 0, 0, 0, 0, 0, 0]);
        let to = Address([0u8, 0, 0, 0, 0, 0, 0, 0, 0, 0, 0, 0, 0, 0, 0, 0, 0, 0, 0x80, 0x01]);
        proof {
            assert(from.0@ =~= zero_address());
            assert(to.0@ =~= bootloader_address());
        }
        Call {
            call_type: CallType::Call(FarCallOpcode::Normal),
            from,
            to,
            parent_gas: gas,
            gas,
            gas_used,
            value,
            input,
            output,
            error: None,
            revert_reason,
            calls,
        }
    }
}

/// The result is the trace of the top call as the options ask for it,
/// with the top call at the place 0.
pub open spec fn is_trace_of_top(
    trace: Result<CallTracerResult, Web3Error>,
    top: Call,
    hash: H256,
    options: Option<TracerConfig>,
) -> bool {
    match trace {
        Ok(CallTracerResult::FlattCallTrace(calls)) => wants_flat(options) && flat_views(calls@)
            == flat_trace(top, seq![0usize], wants_top_only(options), 0, hash),
        Ok(CallTracerResult::CallTrace(nested)) => !wants_flat(options) && nested@ == nested_trace(
            top,
            wants_top_only(options),
        ),
        Err(_) => false,
    }
}

/// The debug namespace: what it makes of the call traces that were
/// read for it.
#[derive(Clone, Copy, Debug)]
pub struct DebugNamespace {}

impl DebugNamespace {
    /// Appends the flat trace of a call to `calls`. `trace_address` is the
    /// call's place in the tree and is left as it was.
    pub fn map_flatten_call(
        call: &Call,
        calls: &mut Vec<DebugCallFlat>,
        trace_address: &mut Vec<usize>,
        only_top_call: bool,
        transaction_position: usize,
        transaction_hash: H256,
    )
        requires
            has_no_near_call(*call, only_top_call),
        ensures
            final(trace_address)@ == old(trace_address)@,
            flat_views(final(calls)@) == flat_views(old(calls)@) + flat_trace(
                *call,
                old(trace_address)@,
                only_top_call,
                transaction_position,
                transaction_hash,
            ),
        decreases call,
    {
        let ghost before = flat_views(calls@);
        let ghost address = trace_address@;
        let subtraces = call.calls.len();
        if !only_top_call {
            let mut number: usize = 0;
            assert(flat_views(calls@) =~= before + flat_traces_of(
                call.calls@,
                0,
                address,
                transaction_position,
                transaction_hash,
            ));
            while number < call.calls.len()
                invariant
                    0 <= number <= call.calls.len(),
                    has_no_near_call(*call, only_top_call),
                    !only_top_call,
                    trace_address@ == address,
                    flat_views(calls@) == before + flat_traces_of(
                        call.calls@,
                        number as int,
                        address,
                        transaction_position,
                        transaction_hash,
                    ),
                decreases call.calls.len() - number,
            {
                assert(has_no_near_call(call.calls@[number as int], false));
                let ghost so_far = flat_views(calls@);
                trace_address.push(number);
                Self::map_flatten_call(
                    &call.calls[number],
                    calls,
                    trace_address,
                    false,
                    transaction_position,
                    transaction_hash,
                );
                trace_address.pop();
                proof {
                    assert(trace_address@ =~= address);
                    assert(flat_views(calls@) =~= before + flat_traces_of(
                        call.calls@,
                        number as int + 1,
                        address,
                        transaction_position,
                        transaction_hash,
                    ));
                }
                number += 1;
            }
        }
        let result = if call.error.is_none() {
            Some(CallResult { output: copy_bytes(&call.output), gas_used: call.gas_used })
        } else {
            None
        };
        let ghost listed = flat_views(calls@);
        let entry = DebugCallFlat {
            action: Action {
                call_type: debug_type(call.call_type),
                from: call.from,
                to: call.to,
                gas: call.gas,
                value: call.value,
                input: copy_bytes(&call.input),
            },
            result,
            subtraces,
            traceaddress: copy_places(trace_address),
            transaction_position,
            transaction_hash,
            call_type: DebugCallType::Call,
        };
        assert(entry@ == flat_entry(*call, address, transaction_position, transaction_hash));
        calls.push(entry);
        proof {
            assert(flat_views(calls@) =~= listed.push(
                flat_entry(*call, address, transaction_position, transaction_hash),
            ));
        }
    }

    /// The nested trace of a call.
    pub fn map_default_call(call: Call, only_top_call: bool) -> (trace: DebugCall)
        requires
            has_no_near_call(call, only_top_call),
        ensures
            trace@ == nested_trace(call, only_top_call),
    {
        nested_trace_of(&call, only_top_call)
    }

    /// The trace of a transaction's top call as the options ask for it:
    /// flat, with the transaction's place in its block as the address of
    /// the top call, or nested.
    pub fn map_call(
        call: Call,
        index: usize,
        transaction_hash: H256,
        tracer_option: Option<TracerConfig>,
    ) -> (trace: CallTracerResult)
        requires
            has_no_near_call(call, wants_top_only(tracer_option)),
        ensures
            match trace {
                CallTracerResult::FlattCallTrace(calls) => wants_flat(tracer_option) && flat_views(calls@)
                    == flat_trace(
                    call,
                    seq![index],
                    wants_top_only(tracer_option),
                    index,
                    transaction_hash,
                ),
                CallTracerResult::CallTrace(nested) => !wants_flat(tracer_option) && nested@
                    == nested_trace(call, wants_top_only(tracer_option)),
            },
    {
        let (only_top_call, flatten) = match tracer_option {
            Some(options) => (
                options.tracer_config.only_top_call,
                match options.tracer {
                    SupportedTracers::FlatCallTracer => true,
                    SupportedTracers::CallTracer => false,
                },
            ),
            None => (false, false),
        };
        if flatten {
            let mut calls: Vec<DebugCallFlat> = Vec::new();
            let mut traces: Vec<usize> = Vec::new();
            traces.push(index);
            assert(traces@ =~= seq![index]);
            Self::map_flatten_call(
                &call,
                &mut calls,
                &mut traces,
                only_top_call,
                index,
                transaction_hash,
            );
            proof {
                assert(flat_views(calls@) =~= flat_trace(
                    call,
                    seq![index],
                    only_top_call,
                    index,
                    transaction_hash,
                ));
            }
            CallTracerResult::FlattCallTrace(calls)
        } else {
            CallTracerResult::CallTrace(Self::map_default_call(call, only_top_call))
        }
    }

    /// The traces of a block's transactions, given each transaction's
    /// top call with the transaction's hash and place in the block.
    /// Nested traces come one for each transaction; flat traces come as
    /// one list for the whole block, or as nothing for an empty block.
    pub fn debug_trace_block_impl(
        call_traces: &Vec<(Call, H256, usize)>,
        options: Option<TracerConfig>,
    ) -> (traces: Vec<CallTracerResultWithNestedResult>)
        requires
            forall|i: int|
                0 <= i < call_traces.len() ==> has_no_near_call(
                    (#[trigger] call_traces@[i]).0,
                    wants_top_only(options),
                ),
        ensures
            block_views(traces@) == block_traces(call_traces@, options),
    {
        let (only_top_call, flatten) = match options {
            Some(config) => (
                config.tracer_config.only_top_call,
                match config.tracer {
                    SupportedTracers::FlatCallTracer => true,
                    SupportedTracers::CallTracer => false,
                },
            ),
            None => (false, false),
        };
        let mut calls: Vec<CallTracerResultWithNestedResult> = Vec::new();
        let mut flat_calls: Vec<DebugCallFlat> = Vec::new();
        let mut i: usize = 0;
        assert(flat_views(flat_calls@) =~= block_flat_traces(call_traces@, 0, options));
        while i < call_traces.len()
            invariant
                0 <= i <= call_traces.len(),
                only_top_call == wants_top_only(options),
                flatten == wants_flat(options),
                forall|j: int|
                    0 <= j < call_traces.len() ==> has_no_near_call(
                        (#[trigger] call_traces@[j]).0,
                        wants_top_only(options),
                    ),
                flatten ==> calls.len() == 0 && flat_views(flat_calls@) == block_flat_traces(
                    call_traces@,
                    i as int,
                    options,
                ),
                flatten ==> (i > 0 <==> flat_calls.len() > 0),
                !flatten ==> flat_calls.len() == 0 && calls.len() == i && forall|j: int|
                    0 <= j < i ==> (#[trigger] calls@[j])@ == BlockTraceView::Nested(
                        nested_trace(call_traces@[j].0, only_top_call),
                    ),
            decreases call_traces.len() - i,
        {
            let entry = &call_traces[i];
            assert(has_no_near_call(call_traces@[i as int].0, only_top_call));
            if flatten {
                let mut address: Vec<usize> = Vec::new();
                address.push(entry.2);
                assert(address@ =~= seq![entry.2]);
                let ghost listed = flat_views(flat_calls@);
                Self::map_flatten_call(
                    &entry.0,
                    &mut flat_calls,
                    &mut address,
                    only_top_call,
                    entry.2,
                    entry.1,
                );
                proof {
                    let added = flat_trace(entry.0, seq![entry.2], only_top_call, entry.2, entry.1);
                    assert(added.len() > 0);
                    assert(flat_views(flat_calls@).len() == listed.len() + added.len());
                }
            } else {
                let nested = nested_trace_of(&entry.0, only_top_call);
                calls.push(
                    CallTracerResultWithNestedResult::CallTrace(ResultDebugCall { result: nested }),
                );
            }
            i += 1;
        }
        let ghost flat = flat_views(flat_calls@);
        if calls.len() == 0 && flat_calls.len() > 0 {
            calls.push(CallTracerResultWithNestedResult::FlattCallTrace(flat_calls));
            assert(calls@[0]@ == BlockTraceView::Flat(flat));
        }
        proof {
            let want = block_traces(call_traces@, options);
            assert(block_views(calls@).len() == want.len());
            assert forall|j: int| 0 <= j < want.len() implies block_views(calls@)[j] == want[j] by {
                assert(block_views(calls@)[j] == calls@[j]@);
            }
            assert(block_views(calls@) =~= want);
        }
        calls
    }

    /// The trace of a call that was executed for tracing. A call that
    /// returned is traced with its output, one that reverted with the
    /// reason and no output; where the virtual machine halted there is no
    /// trace but an error with the reason.
    pub fn debug_trace_call_impl(
        result: ExecutionResult,
        gas_limit: u64,
        gas_used: u64,
        value: U256,
        calldata: Vec<u8>,
        call_traces: Vec<Call>,
        hash: H256,
        options: Option<TracerConfig>,
    ) -> (trace: Result<CallTracerResult, Web3Error>)
        requires
            !wants_top_only(options) ==> forall|i: int|
                0 <= i < call_traces@.len() ==> has_no_near_call(#[trigger] call_traces@[i], false),
        ensures
            match result {
                ExecutionResult::Halt { reason } => trace matches Err(
                    Web3Error::SubmitTransactionError(text, data),
                ) && text == reason && data@ == Seq::<u8>::empty(),
                ExecutionResult::Success { output } => exists|top: Call|
                    #[trigger] is_high_level_call(
                        top,
                        gas_limit,
                        gas_used,
                        value,
                        calldata@,
                        output@,
                        None,
                        call_traces,
                    ) && is_trace_of_top(trace, top, hash, options),
                ExecutionResult::Revert { reason } => exists|top: Call|
                    #[trigger] is_high_level_call(
                        top,
                        gas_limit,
                        gas_used,
                        value,
                        calldata@,
                        Seq::empty(),
                        Some(reason@),
                        call_traces,
                    ) && is_trace_of_top(trace, top, hash, options),
            },
    {
        let (output, revert_reason) = match result {
            ExecutionResult::Success { output } => (output, None),
            ExecutionResult::Revert { reason } => (Vec::new(), Some(reason)),
            ExecutionResult::Halt { reason } => {
                return Err(Web3Error::SubmitTransactionError(reason, Vec::new()));
            },
        };
        let call = Call::new_high_level(
            gas_limit,
            gas_used,
            value,
            calldata,
            output,
            revert_reason,
            call_traces,
        );
        let ghost top = call;
        let trace = Ok(Self::map_call(call, 0, hash, options));
        proof {
            assert(is_high_level_call(
                top,
                gas_limit,
                gas_used,
                value,
                calldata@,
                output@,
                text_of(revert_reason),
                call_traces,
            ));
            assert(is_trace_of_top(trace, top, hash, options));
        }
        trace
    }

    /// The trace of a transaction, if its top call was found.
    pub fn debug_trace_transaction_impl(
        call_trace: Option<(Call, H256, usize)>,
        options: Option<TracerConfig>,
    ) -> (trace: Option<CallTracerResult>)
        requires
            call_trace matches Some(found) ==> has_no_near_call(found.0, wants_top_only(options)),
        ensures
            match call_trace {
                None => trace is None,
                Some(found) => match trace {
                    Some(CallTracerResult::FlattCallTrace(calls)) => wants_flat(options)
                        && flat_views(calls@) == flat_trace(
                        found.0,
                        seq![found.2],
                        wants_top_only(options),
                        found.2,
                        found.1,
                    ),
                    Some(CallTracerResult::CallTrace(nested)) => !wants_flat(options) && nested@
                        == nested_trace(found.0, wants_top_only(options)),
                    None => false,
                },
            },
    {
        match call_trace {
            None => None,
            Some((call, hash, index)) => Some(Self::map_call(call, index, hash, options)),
        }
    }
}

} // verus!
