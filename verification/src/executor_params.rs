//! Abstract execution environment parameter set.
//!
//! A parameter set is an ordered list of entries. Which entries it holds, and
//! with which values, decides how a validation function is prepared and run.

use crate::hashing::{blake2_256, blake2_256_digest};
use crate::scale::{compact_u32, encode_compact_u32, encode_u32, encode_u64};
use std::collections::BTreeMap;
use std::time::Duration;
use vstd::bytes::{spec_u32_to_le_bytes, spec_u64_to_le_bytes};
use vstd::prelude::*;

verus! {

/// Default maximum number of wasm values allowed for the stack during execution.
pub const DEFAULT_LOGICAL_STACK_MAX: u32 = 65536;

/// Default maximum number of bytes devoted for the stack during execution.
pub const DEFAULT_NATIVE_STACK_MAX: u32 = 256 * 1024 * 1024;

/// The limit of [`ExecutorParam::MaxMemoryPages`].
pub const MEMORY_PAGES_MAX: u32 = 65536;

/// The lower bound of [`ExecutorParam::StackLogicalMax`].
pub const LOGICAL_MAX_LO: u32 = 1024;

/// The upper bound of [`ExecutorParam::StackLogicalMax`].
pub const LOGICAL_MAX_HI: u32 = 2 * 65536;

/// The lower bound of [`ExecutorParam::PrecheckingMaxMemory`].
pub const PRECHECK_MEM_MAX_LO: u64 = 256 * 1024 * 1024;

/// The upper bound of [`ExecutorParam::PrecheckingMaxMemory`].
pub const PRECHECK_MEM_MAX_HI: u64 = 16 * 1024 * 1024 * 1024;

/// Default preparation timeout for prechecking requests, in milliseconds.
pub const DEFAULT_PRECHECK_PREPARATION_TIMEOUT_MS: u64 = 60_000;

/// Default preparation timeout for execution requests, in milliseconds.
pub const DEFAULT_LENIENT_PREPARATION_TIMEOUT_MS: u64 = 360_000;

/// Default execution timeout for backing, in milliseconds.
pub const DEFAULT_BACKING_EXECUTION_TIMEOUT_MS: u64 = 2_000;

/// Default execution timeout for approval or disputes, in milliseconds.
pub const DEFAULT_APPROVAL_EXECUTION_TIMEOUT_MS: u64 = 12_000;

/// What a preparation is made for.
#[derive(Clone, Copy, Debug, PartialEq, Eq, Structural)]
pub enum PvfPrepKind {
    /// For prechecking requests.
    Precheck,
    /// For execution and heads-up requests.
    Prepare,
}

/// What an execution is made for.
#[derive(Clone, Copy, Debug, PartialEq, Eq, Structural)]
pub enum PvfExecKind {
    /// For backing requests.
    Backing,
    /// For approval and dispute requests.
    Approval,
}

/// The different executor parameters for changing the execution environment semantics.
#[derive(Clone, Copy, Debug, PartialEq, Eq, Structural)]
pub enum ExecutorParam {
    /// Maximum number of memory pages (64KiB bytes per page) the executor can allocate.
    /// A valid value lies within (0, 65536].
    MaxMemoryPages(u32),
    /// Wasm logical stack size limit (max. number of Wasm values on stack).
    /// A valid value lies within [`LOGICAL_MAX_LO`] and [`LOGICAL_MAX_HI`].
    StackLogicalMax(u32),
    /// Executor machine stack size limit, in bytes.
    /// If `StackLogicalMax` is also present, a valid value should not fall below
    /// 128 * `StackLogicalMax`.
    StackNativeMax(u32),
    /// Max. amount of memory the preparation worker is allowed to use during
    /// pre-checking, in bytes.
    /// Valid max. memory ranges from [`PRECHECK_MEM_MAX_LO`] to [`PRECHECK_MEM_MAX_HI`].
    PrecheckingMaxMemory(u64),
    /// Preparation timeouts, in millisecond.
    /// The prechecking timeout has to stay below the lenient one.
    /// When absent, the default values will be used.
    PvfPrepTimeout(PvfPrepKind, u64),
    /// Execution timeouts, in millisecond.
    /// The backing timeout has to stay below the approval one.
    /// When absent, the default values will be used.
    PvfExecTimeout(PvfExecKind, u64),
    /// Enables WASM bulk memory proposal
    WasmExtBulkMemory,
}

/// Possible inconsistencies of executor params.
#[derive(Debug, Clone, Copy, PartialEq, Eq)]
pub enum ExecutorParamError {
    /// A param is duplicated.
    DuplicatedParam(&'static str),
    /// A param value exceeds its limitation.
    OutsideLimit(&'static str),
    /// Two param values are incompatible or senseless when put together.
    IncompatibleValues(&'static str, &'static str),
}

/// What a parameter is about. A consistent set holds at most one entry for
/// each.
#[derive(Clone, Copy, Debug, PartialEq, Eq, Structural)]
pub enum ParamIdent {
    /// The limit on memory pages.
    MaxMemoryPages,
    /// The limit on values on the logical stack.
    StackLogicalMax,
    /// The limit on bytes of the native stack.
    StackNativeMax,
    /// The limit on memory during pre-checking.
    PrecheckingMaxMemory,
    /// The preparation timeout for prechecking requests.
    PrepPrecheck,
    /// The preparation timeout for execution requests.
    PrepPrepare,
    /// The execution timeout for backing.
    ExecBacking,
    /// The execution timeout for approval.
    ExecApproval,
    /// The switch for the bulk memory proposal.
    WasmExtBulkMemory,
}

impl ParamIdent {
    /// The name under which an inconsistency of this parameter is reported.
    pub open spec fn name_spec(self) -> Seq<char> {
        match self {
            ParamIdent::MaxMemoryPages => "MaxMemoryPages"@,
            ParamIdent::StackLogicalMax => "StackLogicalMax"@,
            ParamIdent::StackNativeMax => "StackNativeMax"@,
            ParamIdent::PrecheckingMaxMemory => "PrecheckingMaxMemory"@,
            ParamIdent::PrepPrecheck => "PvfPrepKind::Precheck"@,
            ParamIdent::PrepPrepare => "PvfPrepKind::Prepare"@,
            ParamIdent::ExecBacking => "PvfExecKind::Backing"@,
            ParamIdent::ExecApproval => "PvfExecKind::Approval"@,
            ParamIdent::WasmExtBulkMemory => "WasmExtBulkMemory"@,
        }
    }

    /// The name under which an inconsistency of this parameter is reported.
    pub fn name(self) -> (name: &'static str)
        ensures
            name@ == self.name_spec(),
    {
        match self {
            ParamIdent::MaxMemoryPages => "MaxMemoryPages",
            ParamIdent::StackLogicalMax => "StackLogicalMax",
            ParamIdent::StackNativeMax => "StackNativeMax",
            ParamIdent::PrecheckingMaxMemory => "PrecheckingMaxMemory",
            ParamIdent::PrepPrecheck => "PvfPrepKind::Precheck",
            ParamIdent::PrepPrepare => "PvfPrepKind::Prepare",
            ParamIdent::ExecBacking => "PvfExecKind::Backing",
            ParamIdent::ExecApproval => "PvfExecKind::Approval",
            ParamIdent::WasmExtBulkMemory => "WasmExtBulkMemory",
        }
    }

    /// The key under which a value of this parameter is remembered.
    pub open spec fn slot(self) -> u8 {
        match self {
            ParamIdent::MaxMemoryPages => 0,
            ParamIdent::StackLogicalMax => 1,
            ParamIdent::StackNativeMax => 2,
            ParamIdent::PrecheckingMaxMemory => 3,
            ParamIdent::PrepPrecheck => 4,
            ParamIdent::PrepPrepare => 5,
            ParamIdent::ExecBacking => 6,
            ParamIdent::ExecApproval => 7,
            ParamIdent::WasmExtBulkMemory => 8,
        }
    }

    fn slot_of(self) -> (slot: u8)
        ensures
            slot == self.slot(),
    {
        match self {
            ParamIdent::MaxMemoryPages => 0,
            ParamIdent::StackLogicalMax => 1,
            ParamIdent::StackNativeMax => 2,
            ParamIdent::PrecheckingMaxMemory => 3,
            ParamIdent::PrepPrecheck => 4,
            ParamIdent::PrepPrepare => 5,
            ParamIdent::ExecBacking => 6,
            ParamIdent::ExecApproval => 7,
            ParamIdent::WasmExtBulkMemory => 8,
        }
    }
}

impl PvfPrepKind {
    /// The parameter that sets the timeout of this kind of preparation.
    pub open spec fn ident(self) -> ParamIdent {
        match self {
            PvfPrepKind::Precheck => ParamIdent::PrepPrecheck,
            PvfPrepKind::Prepare => ParamIdent::PrepPrepare,
        }
    }

    /// The byte that stands for this kind in an encoded entry.
    pub open spec fn index(self) -> u8 {
        match self {
            PvfPrepKind::Precheck => 0,
            PvfPrepKind::Prepare => 1,
        }
    }
}

impl PvfExecKind {
    /// The parameter that sets the timeout of this kind of execution.
    pub open spec fn ident(self) -> ParamIdent {
        match self {
            PvfExecKind::Backing => ParamIdent::ExecBacking,
            PvfExecKind::Approval => ParamIdent::ExecApproval,
        }
    }

    /// The byte that stands for this kind in an encoded entry.
    pub open spec fn index(self) -> u8 {
        match self {
            PvfExecKind::Backing => 0,
            PvfExecKind::Approval => 1,
        }
    }
}

impl ExecutorParam {
    /// What this entry is about.
    pub open spec fn ident(self) -> ParamIdent {
        match self {
            ExecutorParam::MaxMemoryPages(_) => ParamIdent::MaxMemoryPages,
            ExecutorParam::StackLogicalMax(_) => ParamIdent::StackLogicalMax,
            ExecutorParam::StackNativeMax(_) => ParamIdent::StackNativeMax,
            ExecutorParam::PrecheckingMaxMemory(_) => ParamIdent::PrecheckingMaxMemory,
            ExecutorParam::PvfPrepTimeout(kind, _) => kind.ident(),
            ExecutorParam::PvfExecTimeout(kind, _) => kind.ident(),
            ExecutorParam::WasmExtBulkMemory => ParamIdent::WasmExtBulkMemory,
        }
    }

    /// The value this entry sets. An entry that only switches something on
    /// counts as 1.
    pub open spec fn value(self) -> u64 {
        match self {
            ExecutorParam::MaxMemoryPages(val) => val as u64,
            ExecutorParam::StackLogicalMax(val) => val as u64,
            ExecutorParam::StackNativeMax(val) => val as u64,
            ExecutorParam::PrecheckingMaxMemory(val) => val,
            ExecutorParam::PvfPrepTimeout(_, val) => val,
            ExecutorParam::PvfExecTimeout(_, val) => val,
            ExecutorParam::WasmExtBulkMemory => 1,
        }
    }

    /// The entry's value lies outside the limits of its parameter.
    pub open spec fn outside_limit(self) -> bool {
        match self {
            ExecutorParam::MaxMemoryPages(val) => val == 0 || val > MEMORY_PAGES_MAX,
            ExecutorParam::StackLogicalMax(val) => val < LOGICAL_MAX_LO || val > LOGICAL_MAX_HI,
            ExecutorParam::PrecheckingMaxMemory(val) => val < PRECHECK_MEM_MAX_LO || val
                > PRECHECK_MEM_MAX_HI,
            _ => false,
        }
    }

    fn ident_of(&self) -> (ident: ParamIdent)
        ensures
            ident == self.ident(),
    {
        match self {
            ExecutorParam::MaxMemoryPages(_) => ParamIdent::MaxMemoryPages,
            ExecutorParam::StackLogicalMax(_) => ParamIdent::StackLogicalMax,
            ExecutorParam::StackNativeMax(_) => ParamIdent::StackNativeMax,
            ExecutorParam::PrecheckingMaxMemory(_) => ParamIdent::PrecheckingMaxMemory,
            ExecutorParam::PvfPrepTimeout(kind, _) => match kind {
                PvfPrepKind::Precheck => ParamIdent::PrepPrecheck,
                PvfPrepKind::Prepare => ParamIdent::PrepPrepare,
            },
            ExecutorParam::PvfExecTimeout(kind, _) => match kind {
                PvfExecKind::Backing => ParamIdent::ExecBacking,
                PvfExecKind::Approval => ParamIdent::ExecApproval,
            },
            ExecutorParam::WasmExtBulkMemory => ParamIdent::WasmExtBulkMemory,
        }
    }

    fn value_of(&self) -> (value: u64)
        ensures
            value == self.value(),
    {
        match self {
            ExecutorParam::MaxMemoryPages(val) => *val as u64,
            ExecutorParam::StackLogicalMax(val) => *val as u64,
            ExecutorParam::StackNativeMax(val) => *val as u64,
            ExecutorParam::PrecheckingMaxMemory(val) => *val,
            ExecutorParam::PvfPrepTimeout(_, val) => *val,
            ExecutorParam::PvfExecTimeout(_, val) => *val,
            ExecutorParam::WasmExtBulkMemory => 1,
        }
    }

    fn is_outside_limit(&self) -> (outside: bool)
        ensures
            outside == self.outside_limit(),
    {
        match self {
            ExecutorParam::MaxMemoryPages(val) => *val == 0 || *val > MEMORY_PAGES_MAX,
            ExecutorParam::StackLogicalMax(val) => *val < LOGICAL_MAX_LO || *val > LOGICAL_MAX_HI,
            ExecutorParam::PrecheckingMaxMemory(val) => *val < PRECHECK_MEM_MAX_LO || *val
                > PRECHECK_MEM_MAX_HI,
            _ => false,
        }
    }
}

impl ExecutorParam {
    /// The bytes that stand for this entry: the number of its variant, then
    /// its fields in order, every integer with its lowest byte first.
    pub open spec fn encoded(self) -> Seq<u8> {
        match self {
            ExecutorParam::MaxMemoryPages(val) => seq![1u8] + spec_u32_to_le_bytes(val),
            ExecutorParam::StackLogicalMax(val) => seq![2u8] + spec_u32_to_le_bytes(val),
            ExecutorParam::StackNativeMax(val) => seq![3u8] + spec_u32_to_le_bytes(val),
            ExecutorParam::PrecheckingMaxMemory(val) => seq![4u8] + spec_u64_to_le_bytes(val),
            ExecutorParam::PvfPrepTimeout(kind, val) => seq![5u8, kind.index()]
                + spec_u64_to_le_bytes(val),
            ExecutorParam::PvfExecTimeout(kind, val) => seq![6u8, kind.index()]
                + spec_u64_to_le_bytes(val),
            ExecutorParam::WasmExtBulkMemory => seq![7u8],
        }
    }

    /// Whether the entry changes what preparation produces.
    pub open spec fn affects_preparation(self) -> bool {
        match self {
            ExecutorParam::StackLogicalMax(_) => true,
            ExecutorParam::PvfPrepTimeout(_, _) => true,
            ExecutorParam::WasmExtBulkMemory => true,
            _ => false,
        }
    }

    /// Encodes the entry.
    pub fn encode(&self) -> (bytes: Vec<u8>)
        ensures
            bytes@ == self.encoded(),
    {
        let mut bytes: Vec<u8> = Vec::new();
        match self {
            ExecutorParam::MaxMemoryPages(val) => {
                bytes.push(1);
                let mut tail = encode_u32(*val);
                bytes.append(&mut tail);
            },
            ExecutorParam::StackLogicalMax(val) => {
                bytes.push(2);
                let mut tail = encode_u32(*val);
                bytes.append(&mut tail);
            },
            ExecutorParam::StackNativeMax(val) => {
                bytes.push(3);
                let mut tail = encode_u32(*val);
                bytes.append(&mut tail);
            },
            ExecutorParam::PrecheckingMaxMemory(val) => {
                bytes.push(4);
                let mut tail = encode_u64(*val);
                bytes.append(&mut tail);
            },
            ExecutorParam::PvfPrepTimeout(kind, val) => {
                bytes.push(5);
                bytes.push(
                    match kind {
                        PvfPrepKind::Precheck => 0,
                        PvfPrepKind::Prepare => 1,
                    },
                );
                let mut tail = encode_u64(*val);
                bytes.append(&mut tail);
            },
            ExecutorParam::PvfExecTimeout(kind, val) => {
                bytes.push(6);
                bytes.push(
                    match kind {
                        PvfExecKind::Backing => 0,
                        PvfExecKind::Approval => 1,
                    },
                );
                let mut tail = encode_u64(*val);
                bytes.append(&mut tail);
            },
            ExecutorParam::WasmExtBulkMemory => {
                bytes.push(7);
            },
        }
        assert(bytes@ =~= self.encoded());
        bytes
    }

    fn does_affect_preparation(&self) -> (affects: bool)
        ensures
            affects == self.affects_preparation(),
    {
        match self {
            ExecutorParam::StackLogicalMax(_) => true,
            ExecutorParam::PvfPrepTimeout(_, _) => true,
            ExecutorParam::WasmExtBulkMemory => true,
            _ => false,
        }
    }
}

/// The encodings of all entries, one after another.
pub open spec fn encoded_entries(params: Seq<ExecutorParam>) -> Seq<u8>
    decreases params.len(),
{
    if params.len() == 0 {
        Seq::empty()
    } else {
        encoded_entries(params.drop_last()) + params.last().encoded()
    }
}

/// The encodings, one after another, of the entries that change what
/// preparation produces. The other entries leave no trace.
pub open spec fn encoded_prep_entries(params: Seq<ExecutorParam>) -> Seq<u8>
    decreases params.len(),
{
    if params.len() == 0 {
        Seq::empty()
    } else if params.last().affects_preparation() {
        encoded_prep_entries(params.drop_last()) + params.last().encoded()
    } else {
        encoded_prep_entries(params.drop_last())
    }
}

/// The bytes that stand for a whole set: the number of entries in compact
/// form, then the entries.
pub open spec fn encoded_set(params: Seq<ExecutorParam>) -> Seq<u8> {
    compact_u32(params.len() as u32) + encoded_entries(params)
}

/// What the preparation hash digests: the tag `prep`, then the entries that
/// change what preparation produces.
pub open spec fn prep_preimage(params: Seq<ExecutorParam>) -> Seq<u8> {
    seq![0x70u8, 0x72u8, 0x65u8, 0x70u8] + encoded_prep_entries(params)
}

/// The value that the first entry for `ident` sets, if the list holds one.
pub open spec fn first_value(params: Seq<ExecutorParam>, ident: ParamIdent) -> Option<u64>
    decreases params.len(),
{
    if params.len() == 0 {
        None
    } else if params.first().ident() == ident {
        Some(params.first().value())
    } else {
        first_value(params.drop_first(), ident)
    }
}

/// The value in force for `ident`: the one the list sets, or else `default`.
pub open spec fn setting(params: Seq<ExecutorParam>, ident: ParamIdent, default: u64) -> u64 {
    match first_value(params, ident) {
        Some(value) => value,
        None => default,
    }
}

/// An earlier entry is about the same parameter as entry `i`.
pub open spec fn duplicated_at(params: Seq<ExecutorParam>, i: int) -> bool {
    exists|j: int| 0 <= j < i && #[trigger] params[j].ident() == params[i].ident()
}

/// Entry `i` repeats a parameter or sets it outside its limits.
pub open spec fn faulty_at(params: Seq<ExecutorParam>, i: int) -> bool {
    duplicated_at(params, i) || params[i].outside_limit()
}

/// Entry `i` is faulty and no entry before it is.
pub open spec fn is_first_fault(params: Seq<ExecutorParam>, i: int) -> bool {
    &&& 0 <= i < params.len()
    &&& faulty_at(params, i)
    &&& forall|j: int| 0 <= j < i ==> !faulty_at(params, j)
}

/// No entry repeats a parameter or sets it outside its limits.
pub open spec fn fault_free(params: Seq<ExecutorParam>) -> bool {
    forall|i: int| 0 <= i < params.len() ==> !faulty_at(params, i)
}

/// The native stack has room for 128 bytes per logical stack value.
pub open spec fn stack_compatible(params: Seq<ExecutorParam>) -> bool {
    setting(params, ParamIdent::StackNativeMax, DEFAULT_NATIVE_STACK_MAX as u64) >= 128 * setting(
        params,
        ParamIdent::StackLogicalMax,
        DEFAULT_LOGICAL_STACK_MAX as u64,
    )
}

/// The prechecking timeout is below the lenient preparation timeout.
pub open spec fn prep_compatible(params: Seq<ExecutorParam>) -> bool {
    setting(params, ParamIdent::PrepPrecheck, DEFAULT_PRECHECK_PREPARATION_TIMEOUT_MS) < setting(
        params,
        ParamIdent::PrepPrepare,
        DEFAULT_LENIENT_PREPARATION_TIMEOUT_MS,
    )
}

/// The backing timeout is below the approval timeout.
pub open spec fn exec_compatible(params: Seq<ExecutorParam>) -> bool {
    setting(params, ParamIdent::ExecBacking, DEFAULT_BACKING_EXECUTION_TIMEOUT_MS) < setting(
        params,
        ParamIdent::ExecApproval,
        DEFAULT_APPROVAL_EXECUTION_TIMEOUT_MS,
    )
}

/// The verdict that `check_consistency` owes on `params`.
pub open spec fn consistency_verdict(
    params: Seq<ExecutorParam>,
    verdict: Result<(), ExecutorParamError>,
) -> bool {
    match verdict {
        Ok(()) => {
            &&& fault_free(params)
            &&& stack_compatible(params)
            &&& prep_compatible(params)
            &&& exec_compatible(params)
        },
        Err(ExecutorParamError::DuplicatedParam(name)) => exists|i: int|
            {
                &&& #[trigger] is_first_fault(params, i)
                &&& duplicated_at(params, i)
                &&& name@ == params[i].ident().name_spec()
            },
        Err(ExecutorParamError::OutsideLimit(name)) => exists|i: int|
            {
                &&& #[trigger] is_first_fault(params, i)
                &&& !duplicated_at(params, i)
                &&& name@ == params[i].ident().name_spec()
            },
        Err(ExecutorParamError::IncompatibleValues(first, second)) => {
            &&& fault_free(params)
            &&& if !stack_compatible(params) {
                &&& first@ == ParamIdent::StackLogicalMax.name_spec()
                &&& second@ == ParamIdent::StackNativeMax.name_spec()
            } else if !prep_compatible(params) {
                &&& first@ == ParamIdent::PrepPrecheck.name_spec()
                &&& second@ == ParamIdent::PrepPrepare.name_spec()
            } else {
                &&& !exec_compatible(params)
                &&& first@ == ParamIdent::ExecBacking.name_spec()
                &&& second@ == ParamIdent::ExecApproval.name_spec()
            }
        },
    }
}

/// A list holds an entry for `ident` exactly if `first_value` finds one.
proof fn lemma_first_value_found(params: Seq<ExecutorParam>, ident: ParamIdent)
    ensures
        first_value(params, ident) is Some <==> exists|j: int|
            0 <= j < params.len() && #[trigger] params[j].ident() == ident,
    decreases params.len(),
{
    if params.len() > 0 {
        let rest = params.drop_first();
        lemma_first_value_found(rest, ident);
        if params.first().ident() == ident {
            assert(params[0].ident() == ident);
        } else if first_value(rest, ident) is Some {
            let j = choose|j: int| 0 <= j < rest.len() && #[trigger] rest[j].ident() == ident;
            assert(params[j + 1].ident() == ident);
        } else {
            assert forall|j: int| 0 <= j < params.len() implies #[trigger] params[j].ident()
                != ident by {
                if j > 0 {
                    assert(rest[j - 1].ident() != ident);
                }
            }
        }
    }
}

/// What one more entry at the end does to `first_value`.
proof fn lemma_first_value_push(params: Seq<ExecutorParam>, last: ExecutorParam, ident: ParamIdent)
    ensures
        first_value(params.push(last), ident) == if first_value(params, ident) is Some {
            first_value(params, ident)
        } else if last.ident() == ident {
            Some(last.value())
        } else {
            None
        },
    decreases params.len(),
{
    let longer = params.push(last);
    if params.len() == 0 {
        assert(longer.drop_first() =~= params);
    } else {
        assert(longer.first() == params.first());
        assert(longer.drop_first() =~= params.drop_first().push(last));
        if params.first().ident() != ident {
            lemma_first_value_push(params.drop_first(), last, ident);
        }
    }
}

/// The values remembered so far are those that `first_value` finds in `params`.
spec fn remembers(seen: Map<u8, u64>, params: Seq<ExecutorParam>) -> bool {
    forall|ident: ParamIdent|
        match #[trigger] first_value(params, ident) {
            Some(value) => seen.contains_key(ident.slot()) && seen[ident.slot()] == value,
            None => !seen.contains_key(ident.slot()),
        }
}

fn seen_holds(seen: &BTreeMap<u8, u64>, slot: u8) -> (held: bool)
    ensures
        held == seen@.contains_key(slot),
{
    broadcast use vstd::laws_cmp::group_laws_cmp;
    broadcast use vstd::std_specs::btree::group_btree_axioms;

    seen.contains_key(&slot)
}

fn seen_insert(seen: &mut BTreeMap<u8, u64>, slot: u8, value: u64)
    ensures
        final(seen)@ == old(seen)@.insert(slot, value),
{
    broadcast use vstd::laws_cmp::group_laws_cmp;
    broadcast use vstd::std_specs::btree::group_btree_axioms;

    seen.insert(slot, value);
}

fn seen_or(seen: &BTreeMap<u8, u64>, slot: u8, default: u64) -> (value: u64)
    ensures
        value == if seen@.contains_key(slot) {
            seen@[slot]
        } else {
            default
        },
{
    broadcast use vstd::laws_cmp::group_laws_cmp;
    broadcast use vstd::std_specs::btree::group_btree_axioms;

    match seen.get(&slot) {
        Some(value) => *value,
        None => default,
    }
}

/// The span of time that lasts `millis` milliseconds.
pub uninterp spec fn duration_from_millis(millis: u64) -> Duration;

/// `Duration::from_millis` makes the span of time that lasts the given number
/// of milliseconds, whatever the number.
pub assume_specification[ Duration::from_millis ](millis: u64) -> (span: Duration)
    ensures
        span == duration_from_millis(millis),
;

/// The timeout that `value`, a number of milliseconds, stands for.
pub open spec fn timeout_of(value: Option<u64>) -> Option<Duration> {
    match value {
        Some(millis) => Some(duration_from_millis(millis)),
        None => None,
    }
}

/// Hash of a set of execution environment parameters.
#[derive(Clone, Copy, Debug, Hash, PartialEq, Eq, PartialOrd, Ord)]
pub struct ExecutorParamsHash([u8; 32]);

impl View for ExecutorParamsHash {
    type V = Seq<u8>;

    closed spec fn view(&self) -> Seq<u8> {
        self.0@
    }
}

impl ExecutorParamsHash {
    /// Create a new executor parameter hash from a 32-byte digest
    pub fn from_hash(hash: [u8; 32]) -> (wrapped: Self)
        ensures
            wrapped@ == hash@,
    {
        Self(hash)
    }

    /// The digest.
    pub fn as_bytes(&self) -> (bytes: &[u8; 32])
        ensures
            bytes@ == self@,
    {
        &self.0
    }
}

/// Hash of the preparation-related executor parameters.
#[derive(Clone, Copy, Debug, Hash, PartialEq, Eq, PartialOrd, Ord)]
pub struct ExecutorParamsPrepHash([u8; 32]);

impl View for ExecutorParamsPrepHash {
    type V = Seq<u8>;

    closed spec fn view(&self) -> Seq<u8> {
        self.0@
    }
}

impl ExecutorParamsPrepHash {
    /// The digest.
    pub fn as_bytes(&self) -> (bytes: &[u8; 32])
        ensures
            bytes@ == self@,
    {
        &self.0
    }
}

/// Deterministically ordered execution environment semantics.
///
/// Represents an arbitrary semantics of an arbitrary execution environment, so
/// it is kept as abstract as possible: a list of entries, in the order given.
#[derive(Clone, Debug, PartialEq, Eq)]
pub struct ExecutorParams(Vec<ExecutorParam>);

impl View for ExecutorParams {
    type V = Seq<ExecutorParam>;

    closed spec fn view(&self) -> Seq<ExecutorParam> {
        self.0@
    }
}

impl ExecutorParams {
    /// Creates a new, empty executor parameter set
    pub fn new() -> (params: Self)
        ensures
            params@ == Seq::<ExecutorParam>::empty(),
    {
        ExecutorParams(Vec::new())
    }

    /// Encodes the set. A set of more than `u32::MAX` entries has no encoding.
    pub fn encode(&self) -> (bytes: Vec<u8>)
        requires
            self@.len() <= u32::MAX,
        ensures
            bytes@ == encoded_set(self@),
    {
        let count = self.0.len() as u32;
        let mut bytes = encode_compact_u32(count);
        let ghost head = bytes@;
        let mut i: usize = 0;
        proof {
            assert(self@.take(0) =~= Seq::<ExecutorParam>::empty());
            assert(bytes@ =~= head + encoded_entries(self@.take(0)));
        }
        while i < self.0.len()
            invariant
                i <= self.0@.len(),
                bytes@ == head + encoded_entries(self@.take(i as int)),
            decreases self.0@.len() - i,
        {
            let mut entry = self.0[i].encode();
            bytes.append(&mut entry);
            proof {
                let upto = self@.take(i + 1);
                assert(upto.drop_last() =~= self@.take(i as int));
                assert(upto.last() == self@[i as int]);
                assert(bytes@ =~= head + encoded_entries(upto));
            }
            i += 1;
        }
        proof {
            assert(self@.take(i as int) =~= self@);
        }
        bytes
    }

    /// Returns hash of the set of execution environment parameters
    pub fn hash(&self) -> (hash: ExecutorParamsHash)
        requires
            self@.len() <= u32::MAX,
        ensures
            hash@ == blake2_256_digest(encoded_set(self@)),
    {
        let bytes = self.encode();
        ExecutorParamsHash(blake2_256(bytes.as_slice()))
    }

    /// Returns hash of preparation-related executor parameters
    pub fn prep_hash(&self) -> (hash: ExecutorParamsPrepHash)
        ensures
            hash@ == blake2_256_digest(prep_preimage(self@)),
    {
        let mut enc: Vec<u8> = Vec::new();
        enc.push(0x70);
        enc.push(0x72);
        enc.push(0x65);
        enc.push(0x70);
        let ghost tag = enc@;
        let mut i: usize = 0;
        proof {
            assert(self@.take(0) =~= Seq::<ExecutorParam>::empty());
            assert(enc@ =~= tag + encoded_prep_entries(self@.take(0)));
        }
        while i < self.0.len()
            invariant
                i <= self.0@.len(),
                tag == seq![0x70u8, 0x72u8, 0x65u8, 0x70u8],
                enc@ == tag + encoded_prep_entries(self@.take(i as int)),
            decreases self.0@.len() - i,
        {
            proof {
                let upto = self@.take(i + 1);
                assert(upto.drop_last() =~= self@.take(i as int));
                assert(upto.last() == self@[i as int]);
            }
            if self.0[i].does_affect_preparation() {
                let mut entry = self.0[i].encode();
                enc.append(&mut entry);
                assert(enc@ =~= tag + encoded_prep_entries(self@.take(i + 1)));
            }
            i += 1;
        }
        proof {
            assert(self@.take(i as int) =~= self@);
        }
        ExecutorParamsPrepHash(blake2_256(enc.as_slice()))
    }

    fn find(&self, ident: ParamIdent) -> (value: Option<u64>)
        ensures
            value == first_value(self@, ident),
    {
        let mut i: usize = 0;
        proof {
            assert(self@.skip(0) =~= self@);
        }
        while i < self.0.len()
            invariant
                i <= self.0@.len(),
                first_value(self@, ident) == first_value(self@.skip(i as int), ident),
            decreases self.0@.len() - i,
        {
            proof {
                assert(self@.skip(i as int).first() == self@[i as int]);
                assert(self@.skip(i as int).drop_first() =~= self@.skip(i + 1));
            }
            if self.0[i].ident_of() == ident {
                return Some(self.0[i].value_of());
            }
            i += 1;
        }
        None
    }

    /// Returns a PVF preparation timeout, if any
    pub fn pvf_prep_timeout(&self, kind: PvfPrepKind) -> (timeout: Option<Duration>)
        ensures
            timeout == timeout_of(first_value(self@, kind.ident())),
    {
        let ident = match kind {
            PvfPrepKind::Precheck => ParamIdent::PrepPrecheck,
            PvfPrepKind::Prepare => ParamIdent::PrepPrepare,
        };
        match self.find(ident) {
            Some(timeout) => Some(Duration::from_millis(timeout)),
            None => None,
        }
    }

    /// Returns a PVF execution timeout, if any
    pub fn pvf_exec_timeout(&self, kind: PvfExecKind) -> (timeout: Option<Duration>)
        ensures
            timeout == timeout_of(first_value(self@, kind.ident())),
    {
        let ident = match kind {
            PvfExecKind::Backing => ParamIdent::ExecBacking,
            PvfExecKind::Approval => ParamIdent::ExecApproval,
        };
        match self.find(ident) {
            Some(timeout) => Some(Duration::from_millis(timeout)),
            None => None,
        }
    }

    /// Returns pre-checking memory limit, if any
    pub fn prechecking_max_memory(&self) -> (limit: Option<u64>)
        ensures
            limit == first_value(self@, ParamIdent::PrecheckingMaxMemory),
    {
        self.find(ParamIdent::PrecheckingMaxMemory)
    }

    /// Check params coherence.
    pub fn check_consistency(&self) -> (verdict: Result<(), ExecutorParamError>)
        ensures
            consistency_verdict(self@, verdict),
    {
        let mut seen = BTreeMap::<u8, u64>::new();
        let mut i: usize = 0;
        proof {
            assert(self@.take(0) =~= Seq::<ExecutorParam>::empty());
        }
        while i < self.0.len()
            invariant
                i <= self.0@.len(),
                forall|j: int| 0 <= j < i ==> !faulty_at(self@, j),
                remembers(seen@, self@.take(i as int)),
            decreases self.0@.len() - i,
        {
            let param = &self.0[i];
            let ident = param.ident_of();
            proof {
                let before = self@.take(i as int);
                lemma_first_value_found(before, ident);
                assert(first_value(before, ident) is Some <==> duplicated_at(self@, i as int)) by {
                    if duplicated_at(self@, i as int) {
                        let j = choose|j: int|
                            0 <= j < i && #[trigger] self@[j].ident() == self@[i as int].ident();
                        assert(before[j].ident() == ident);
                    }
                    if first_value(before, ident) is Some {
                        let j = choose|j: int|
                            0 <= j < before.len() && #[trigger] before[j].ident() == ident;
                        assert(self@[j].ident() == self@[i as int].ident());
                    }
                }
                assert(self@.take(i + 1) =~= before.push(*param));
                assert forall|other: ParamIdent|
                    #[trigger] first_value(before.push(*param), other) == if first_value(
                        before,
                        other,
                    ) is Some {
                        first_value(before, other)
                    } else if param.ident() == other {
                        Some(param.value())
                    } else {
                        None
                    } by {
                    lemma_first_value_push(before, *param, other);
                }
            }
            if seen_holds(&seen, ident.slot_of()) {
                assert(is_first_fault(self@, i as int));
                return Err(ExecutorParamError::DuplicatedParam(ident.name()));
            }
            if param.is_outside_limit() {
                assert(is_first_fault(self@, i as int));
                return Err(ExecutorParamError::OutsideLimit(ident.name()));
            }
            seen_insert(&mut seen, ident.slot_of(), param.value_of());
            i += 1;
        }
        proof {
            assert(self@.take(i as int) =~= self@);
        }
        let logical = seen_or(
            &seen,
            ParamIdent::StackLogicalMax.slot_of(),
            DEFAULT_LOGICAL_STACK_MAX as u64,
        );
        let native = seen_or(
            &seen,
            ParamIdent::StackNativeMax.slot_of(),
            DEFAULT_NATIVE_STACK_MAX as u64,
        );
        proof {
            lemma_logical_limit_fits(self@);
        }
        if native < 128 * logical {
            return Err(
                ExecutorParamError::IncompatibleValues(
                    ParamIdent::StackLogicalMax.name(),
                    ParamIdent::StackNativeMax.name(),
                ),
            );
        }
        let precheck = seen_or(
            &seen,
            ParamIdent::PrepPrecheck.slot_of(),
            DEFAULT_PRECHECK_PREPARATION_TIMEOUT_MS,
        );
        let lenient = seen_or(
            &seen,
            ParamIdent::PrepPrepare.slot_of(),
            DEFAULT_LENIENT_PREPARATION_TIMEOUT_MS,
        );
        if precheck >= lenient {
            return Err(
                ExecutorParamError::IncompatibleValues(
                    ParamIdent::PrepPrecheck.name(),
                    ParamIdent::PrepPrepare.name(),
                ),
            );
        }
        let backing = seen_or(
            &seen,
            ParamIdent::ExecBacking.slot_of(),
            DEFAULT_BACKING_EXECUTION_TIMEOUT_MS,
        );
        let approval = seen_or(
            &seen,
            ParamIdent::ExecApproval.slot_of(),
            DEFAULT_APPROVAL_EXECUTION_TIMEOUT_MS,
        );
        if backing >= approval {
            return Err(
                ExecutorParamError::IncompatibleValues(
                    ParamIdent::ExecBacking.name(),
                    ParamIdent::ExecApproval.name(),
                ),
            );
        }
        Ok(())
    }
}

impl core::ops::Deref for ExecutorParams {
    type Target = Vec<ExecutorParam>;

    fn deref(&self) -> (entries: &Vec<ExecutorParam>)
        ensures
            entries@ == self@,
    {
        &self.0
    }
}

impl Default for ExecutorParams {
    fn default() -> (params: Self)
        ensures
            params@ == Seq::<ExecutorParam>::empty(),
    {
        ExecutorParams::new()
    }
}

impl<'a> From<&'a [ExecutorParam]> for ExecutorParams {
    fn from(arr: &'a [ExecutorParam]) -> (params: Self)
        ensures
            params@ == arr@,
    {
        ExecutorParams(vstd::slice::slice_to_vec(arr))
    }
}

impl<'a> vstd::std_specs::convert::FromSpecImpl<&'a [ExecutorParam]> for ExecutorParams {
    open spec fn obeys_from_spec() -> bool {
        false
    }

    open spec fn from_spec(arr: &'a [ExecutorParam]) -> Self {
        arbitrary()
    }
}

/// The logical stack limit in force fits in 32 bits.
proof fn lemma_logical_limit_fits(params: Seq<ExecutorParam>)
    ensures
        setting(params, ParamIdent::StackLogicalMax, DEFAULT_LOGICAL_STACK_MAX as u64) <= u32::MAX,
    decreases params.len(),
{
    if params.len() > 0 && params.first().ident() != ParamIdent::StackLogicalMax {
        lemma_logical_limit_fits(params.drop_first());
    }
}

} // verus!
