//! The boundary that every tool call of every strategy crosses.

use crate::canonical::{canonical_json, canonical_text};
use crate::error::HarnessError;
use crate::json::{Json, JsonTree};
use crate::text::{copy_option, same_text, text_option};
use crate::tool::{ToolResult, ToolResultModel};
use vstd::prelude::*;

verus! {

/// Identity of an invocation: the tool, its canonical arguments and, for a call of a
/// program, the occurrence.
///
/// `S` is the text: `String` in running code, a sequence of characters in contracts.
#[derive(Clone, Debug, PartialEq, Eq, Hash)]
pub struct InvocationKey<S = String> {
    /// Identifier of the tool.
    pub tool_id: S,
    /// Canonical text of the arguments.
    pub canonical_arguments: S,
    /// Occurrence of a program's call.
    pub programmatic_occurrence: Option<S>,
}

impl View for InvocationKey<String> {
    type V = InvocationKey<Seq<char>>;

    open spec fn view(&self) -> InvocationKey<Seq<char>> {
        InvocationKey {
            tool_id: self.tool_id@,
            canonical_arguments: self.canonical_arguments@,
            programmatic_occurrence: text_option(self.programmatic_occurrence),
        }
    }
}

/// The identity of a call of `tool_id` with `arguments`.
pub open spec fn invocation_key(tool_id: Seq<char>, arguments: JsonTree) -> InvocationKey<Seq<char>> {
    InvocationKey {
        tool_id,
        canonical_arguments: canonical_text(arguments),
        programmatic_occurrence: None,
    }
}

/// The view of an optional key.
pub open spec fn key_option(key: Option<InvocationKey>) -> Option<InvocationKey<Seq<char>>> {
    match key {
        Some(key) => Some(key@),
        None => None,
    }
}

/// The views of a list of keys.
pub open spec fn keys_view(keys: Seq<InvocationKey>) -> Seq<InvocationKey<Seq<char>>> {
    keys.map_values(|key: InvocationKey| key@)
}

impl InvocationKey {
    /// The identity of a call of `tool_id` with `arguments`.
    pub fn new(tool_id: &str, arguments: &Json) -> (result: InvocationKey)
        ensures
            result@ == invocation_key(tool_id@, arguments@),
    {
        InvocationKey {
            tool_id: tool_id.to_owned(),
            canonical_arguments: canonical_json(arguments),
            programmatic_occurrence: None,
        }
    }

    /// The identity of one occurrence of a program's call.
    pub fn programmatic(tool_id: &str, arguments: &Json, occurrence: &str) -> (result:
        InvocationKey)
        ensures
            result@ == (InvocationKey {
                programmatic_occurrence: Some(occurrence@),
                ..invocation_key(tool_id@, arguments@)
            }),
    {
        InvocationKey {
            tool_id: tool_id.to_owned(),
            canonical_arguments: canonical_json(arguments),
            programmatic_occurrence: Some(occurrence.to_owned()),
        }
    }

    /// A copy of the key.
    pub fn duplicate(&self) -> (result: InvocationKey)
        ensures
            result@ == self@,
    {
        InvocationKey {
            tool_id: self.tool_id.clone(),
            canonical_arguments: self.canonical_arguments.clone(),
            programmatic_occurrence: copy_option(&self.programmatic_occurrence),
        }
    }

    /// Whether two keys identify the same invocation.
    pub fn same(&self, other: &InvocationKey) -> (result: bool)
        ensures
            result == (self@ == other@),
    {
        let same_occurrence = match (&self.programmatic_occurrence, &other.programmatic_occurrence) {
            (Some(left), Some(right)) => same_text(left.as_str(), right.as_str()),
            (None, None) => true,
            _ => false,
        };
        same_text(self.tool_id.as_str(), other.tool_id.as_str()) && same_text(
            self.canonical_arguments.as_str(),
            other.canonical_arguments.as_str(),
        ) && same_occurrence
    }
}

/// Whether an optional key is `wanted`.
pub(crate) fn is_key(key: &Option<InvocationKey>, wanted: &InvocationKey) -> (result: bool)
    ensures
        result == (key_option(*key) == Some(wanted@)),
{
    match key {
        Some(key) => key.same(wanted),
        None => false,
    }
}

pub(crate) fn copy_key(key: &Option<InvocationKey>) -> (result: Option<InvocationKey>)
    ensures
        key_option(result) == key_option(*key),
{
    match key {
        Some(key) => Some(key.duplicate()),
        None => None,
    }
}

/// What is known of one state-changing invocation.
pub enum EffectRecord {
    /// It was handed to its tool.
    Dispatched,
    /// Whether it took effect is unknown.
    Uncertain,
    /// It took effect, with this result.
    Completed(ToolResult),
}

/// The model of an effect record.
pub enum EffectModel {
    /// It was handed to its tool.
    Dispatched,
    /// Whether it took effect is unknown.
    Uncertain,
    /// It took effect, with this result.
    Completed(ToolResultModel),
}

impl View for EffectRecord {
    type V = EffectModel;

    open spec fn view(&self) -> EffectModel {
        match self {
            EffectRecord::Dispatched => EffectModel::Dispatched,
            EffectRecord::Uncertain => EffectModel::Uncertain,
            EffectRecord::Completed(result) => EffectModel::Completed(result@),
        }
    }
}

/// The views of recorded effects.
pub open spec fn effects_view(effects: Seq<(InvocationKey, EffectRecord)>) -> Seq<
    (InvocationKey<Seq<char>>, EffectModel),
> {
    effects.map_values(|entry: (InvocationKey, EffectRecord)| (entry.0@, entry.1@))
}

/// The position of the record of `key`, from `start` on.
pub open spec fn effect_position(
    effects: Seq<(InvocationKey<Seq<char>>, EffectModel)>,
    key: InvocationKey<Seq<char>>,
    start: nat,
) -> Option<nat>
    decreases effects.len() - start,
{
    if start >= effects.len() {
        None
    } else if effects[start as int].0 == key {
        Some(start)
    } else {
        effect_position(effects, key, start + 1)
    }
}

/// The record of `key`.
pub open spec fn effect_of(
    effects: Seq<(InvocationKey<Seq<char>>, EffectModel)>,
    key: InvocationKey<Seq<char>>,
) -> Option<EffectModel> {
    match effect_position(effects, key, 0) {
        Some(position) => Some(effects[position as int].1),
        None => None,
    }
}

/// The records with that of `key` replaced, or added where there is none.
pub open spec fn with_effect(
    effects: Seq<(InvocationKey<Seq<char>>, EffectModel)>,
    key: InvocationKey<Seq<char>>,
    effect: EffectModel,
) -> Seq<(InvocationKey<Seq<char>>, EffectModel)> {
    match effect_position(effects, key, 0) {
        Some(position) => effects.update(position as int, (key, effect)),
        None => effects.push((key, effect)),
    }
}

/// How often `key` occurs.
pub open spec fn occurrences(
    keys: Seq<InvocationKey<Seq<char>>>,
    key: InvocationKey<Seq<char>>,
) -> nat
    decreases keys.len(),
{
    if keys.len() == 0 {
        0
    } else {
        occurrences(keys.drop_last(), key) + (if keys.last() == key {
            1nat
        } else {
            0nat
        })
    }
}

/// Per-run counters and effect records shared by every tool-calling strategy.
pub struct BrokerState {
    /// Tool proposals admitted under the total-call limit.
    pub tool_calls: u32,
    /// Admitted proposals handed to their tool.
    pub tool_issued: u32,
    /// Admitted proposals answered from an exact completed-effect record.
    pub tool_reused: u32,
    /// Admitted proposals refused by validation, policy, approval or limits.
    pub tool_rejected: u32,
    /// Admitted proposals that an error ended before they were issued.
    pub tool_pre_dispatch_aborted: u32,
    /// Issued calls that returned a successful validated result.
    pub tool_completed: u32,
    /// Issued calls that failed.
    pub tool_failed: u32,
    /// Issued calls cancelled or timed out before a result was available.
    pub tool_cancelled: u32,
    /// Identities of the calls counted against the limit of identical calls.
    pub accounted: Vec<InvocationKey>,
    /// What is known of state-changing invocations.
    pub effects: Vec<(InvocationKey, EffectRecord)>,
    /// Whether completed effects answer identical later calls.
    pub reuse_committed_effects: bool,
}

/// The model of a broker state.
pub struct BrokerModel {
    /// Tool proposals admitted under the total-call limit.
    pub tool_calls: u32,
    /// Admitted proposals handed to their tool.
    pub tool_issued: u32,
    /// Admitted proposals answered from an exact completed-effect record.
    pub tool_reused: u32,
    /// Admitted proposals refused by validation, policy, approval or limits.
    pub tool_rejected: u32,
    /// Admitted proposals that an error ended before they were issued.
    pub tool_pre_dispatch_aborted: u32,
    /// Issued calls that returned a successful validated result.
    pub tool_completed: u32,
    /// Issued calls that failed.
    pub tool_failed: u32,
    /// Issued calls cancelled or timed out before a result was available.
    pub tool_cancelled: u32,
    /// Identities of the calls counted against the limit of identical calls.
    pub accounted: Seq<InvocationKey<Seq<char>>>,
    /// What is known of state-changing invocations.
    pub effects: Seq<(InvocationKey<Seq<char>>, EffectModel)>,
    /// Whether completed effects answer identical later calls.
    pub reuse_committed_effects: bool,
}

impl View for BrokerState {
    type V = BrokerModel;

    open spec fn view(&self) -> BrokerModel {
        BrokerModel {
            tool_calls: self.tool_calls,
            tool_issued: self.tool_issued,
            tool_reused: self.tool_reused,
            tool_rejected: self.tool_rejected,
            tool_pre_dispatch_aborted: self.tool_pre_dispatch_aborted,
            tool_completed: self.tool_completed,
            tool_failed: self.tool_failed,
            tool_cancelled: self.tool_cancelled,
            accounted: keys_view(self.accounted@),
            effects: effects_view(self.effects@),
            reuse_committed_effects: self.reuse_committed_effects,
        }
    }
}

/// A state in which nothing has happened yet.
pub open spec fn fresh_broker() -> BrokerModel {
    BrokerModel {
        tool_calls: 0,
        tool_issued: 0,
        tool_reused: 0,
        tool_rejected: 0,
        tool_pre_dispatch_aborted: 0,
        tool_completed: 0,
        tool_failed: 0,
        tool_cancelled: 0,
        accounted: Seq::empty(),
        effects: Seq::empty(),
        reuse_committed_effects: false,
    }
}

/// Whether an error is a cancellation or an expired deadline.
pub open spec fn is_interruption(error: HarnessError<Seq<char>>) -> bool {
    error is Cancelled || error is TimedOut
}

/// Whether as many calls were issued and are resolved as before.
pub open spec fn same_calls(before: BrokerModel, after: BrokerModel) -> bool {
    after.tool_issued == before.tool_issued && after.resolved() == before.resolved()
}

/// Whether one more of the issued calls is resolved.
pub open spec fn call_resolved(before: BrokerModel, after: BrokerModel) -> bool {
    after.tool_issued == before.tool_issued && after.resolved() == before.resolved() + 1
}

impl BrokerModel {
    /// Admitted proposals whose fate is decided.
    pub open spec fn classified(self) -> int {
        self.tool_issued + self.tool_reused + self.tool_rejected + self.tool_pre_dispatch_aborted
    }

    /// Issued calls whose fate is decided.
    pub open spec fn resolved(self) -> int {
        self.tool_completed + self.tool_failed + self.tool_cancelled
    }

    /// No proposal is decided that was not admitted, and no call that was not issued.
    pub open spec fn consistent(self) -> bool {
        &&& self.classified() <= self.tool_calls
        &&& self.resolved() <= self.tool_issued
    }

    /// The fate of every issued call is decided.
    pub open spec fn settled(self) -> bool {
        self.resolved() == self.tool_issued
    }

    /// One more admitted proposal.
    pub open spec fn admitted(self) -> BrokerModel {
        BrokerModel { tool_calls: (self.tool_calls + 1) as u32, ..self }
    }

    /// One more refused proposal.
    pub open spec fn refused(self) -> BrokerModel {
        BrokerModel { tool_rejected: (self.tool_rejected + 1) as u32, ..self }
    }

    /// One more reused proposal.
    pub open spec fn reused(self) -> BrokerModel {
        BrokerModel { tool_reused: (self.tool_reused + 1) as u32, ..self }
    }

    /// One more proposal that an error ended before it was issued.
    pub open spec fn ended_before_dispatch(self, error: HarnessError<Seq<char>>) -> BrokerModel {
        if is_interruption(error) {
            BrokerModel {
                tool_pre_dispatch_aborted: (self.tool_pre_dispatch_aborted + 1) as u32,
                ..self
            }
        } else {
            self.refused()
        }
    }

    /// One more issued call that an error ended.
    pub open spec fn ended_in_execution(self, error: HarnessError<Seq<char>>) -> BrokerModel {
        if is_interruption(error) {
            BrokerModel { tool_cancelled: (self.tool_cancelled + 1) as u32, ..self }
        } else {
            BrokerModel { tool_failed: (self.tool_failed + 1) as u32, ..self }
        }
    }

    /// One more counted identity.
    pub open spec fn with_accounted(self, key: InvocationKey<Seq<char>>) -> BrokerModel {
        BrokerModel { accounted: self.accounted.push(key), ..self }
    }

    /// The state with one effect record written.
    pub open spec fn with_effect(
        self,
        key: Option<InvocationKey<Seq<char>>>,
        effect: EffectModel,
    ) -> BrokerModel {
        match key {
            Some(key) => BrokerModel { effects: with_effect(self.effects, key, effect), ..self },
            None => self,
        }
    }

    /// Whether every recorded effect is known to have taken place.
    pub open spec fn safe_to_recover(self) -> bool {
        forall|i: int| 0 <= i < self.effects.len() ==> (#[trigger] self.effects[i]).1 is Completed
    }

    /// The state with every undecided proposal counted as aborted.
    pub open spec fn finalized(self) -> BrokerModel {
        BrokerModel {
            tool_pre_dispatch_aborted: (self.tool_pre_dispatch_aborted + (self.tool_calls
                - self.classified())) as u32,
            ..self
        }
    }
}

impl BrokerState {
    /// A state in which nothing has happened yet.
    pub fn new() -> (result: BrokerState)
        ensures
            result@ == fresh_broker(),
            result@.consistent(),
    {
        let result = BrokerState {
            tool_calls: 0,
            tool_issued: 0,
            tool_reused: 0,
            tool_rejected: 0,
            tool_pre_dispatch_aborted: 0,
            tool_completed: 0,
            tool_failed: 0,
            tool_cancelled: 0,
            accounted: Vec::new(),
            effects: Vec::new(),
            reuse_committed_effects: false,
        };
        assert(result@.accounted =~= Seq::empty());
        assert(result@.effects =~= Seq::empty());
        result
    }

    /// Lets completed effects answer identical later calls.
    pub fn enable_effect_reuse(&mut self)
        ensures
            final(self)@ == (BrokerModel { reuse_committed_effects: true, ..old(self)@ }),
    {
        self.reuse_committed_effects = true;
    }

    /// Whether every recorded effect is known to have taken place.
    pub fn recovery_is_safe(&self) -> (result: bool)
        ensures
            result == self@.safe_to_recover(),
    {
        let mut i: usize = 0;
        while i < self.effects.len()
            invariant
                i <= self.effects@.len(),
                forall|j: int| 0 <= j < i ==> (#[trigger] self@.effects[j]).1 is Completed,
            decreases self.effects@.len() - i,
        {
            assert(self@.effects[i as int].1 == self.effects@[i as int].1@);
            if !matches!(self.effects[i].1, EffectRecord::Completed(_)) {
                return false;
            }
            i += 1;
        }
        true
    }

    /// Counts a proposal that an error ended before it was issued.
    pub fn record_pre_dispatch_error(&mut self, error: &HarnessError)
        requires
            old(self)@.consistent(),
            old(self)@.classified() < old(self).tool_calls,
        ensures
            final(self)@ == old(self)@.ended_before_dispatch(error@),
            final(self)@.consistent(),
    {
        if matches!(error, HarnessError::Cancelled | HarnessError::TimedOut(_)) {
            self.tool_pre_dispatch_aborted += 1;
        } else {
            self.tool_rejected += 1;
        }
    }

    /// Counts an issued call that an error ended.
    pub fn record_execution_error(&mut self, error: &HarnessError)
        requires
            old(self)@.consistent(),
            old(self)@.resolved() < old(self).tool_issued,
        ensures
            final(self)@ == old(self)@.ended_in_execution(error@),
            final(self)@.consistent(),
    {
        if matches!(error, HarnessError::Cancelled | HarnessError::TimedOut(_)) {
            self.tool_cancelled += 1;
        } else {
            self.tool_failed += 1;
        }
    }

    /// Admitted proposals whose fate is decided.
    pub fn classified_tool_calls(&self) -> (result: u32)
        requires
            self@.consistent(),
        ensures
            result == self@.classified(),
    {
        self.tool_issued + self.tool_reused + self.tool_rejected + self.tool_pre_dispatch_aborted
    }

    /// Counts every undecided proposal as aborted: then each proposal has one fate.
    pub fn finalize_usage(&mut self)
        requires
            old(self)@.consistent(),
        ensures
            final(self)@ == old(self)@.finalized(),
            final(self)@.consistent(),
            final(self)@.classified() == final(self).tool_calls,
    {
        let undecided: u32 = self.tool_calls - self.classified_tool_calls();
        self.tool_pre_dispatch_aborted += undecided;
    }

    pub(crate) fn occurrences_of(&self, key: &InvocationKey) -> (result: usize)
        ensures
            result == occurrences(self@.accounted, key@),
    {
        let mut count: usize = 0;
        let mut i: usize = 0;
        let ghost keys = self@.accounted;
        assert(keys.take(0) =~= Seq::empty());
        while i < self.accounted.len()
            invariant
                i <= self.accounted@.len(),
                keys == keys_view(self.accounted@),
                count == occurrences(keys.take(i as int), key@),
                count <= i,
            decreases self.accounted@.len() - i,
        {
            let ghost longer = keys.take(i as int + 1);
            assert(longer.drop_last() =~= keys.take(i as int));
            assert(longer.last() == self.accounted@[i as int]@);
            if self.accounted[i].same(key) {
                count += 1;
            }
            i += 1;
        }
        assert(keys.take(keys.len() as int) =~= keys);
        count
    }

    pub(crate) fn push_accounted(&mut self, key: InvocationKey)
        ensures
            final(self)@ == old(self)@.with_accounted(key@),
    {
        let ghost before = self@.accounted;
        self.accounted.push(key);
        assert(keys_view(self.accounted@) =~= before.push(key@));
    }

    pub(crate) fn position_of(&self, key: &InvocationKey) -> (result: Option<usize>)
        ensures
            match result {
                Some(position) => effect_position(self@.effects, key@, 0) == Some(position as nat)
                    && position < self.effects@.len(),
                None => effect_position(self@.effects, key@, 0) is None,
            },
    {
        let mut i: usize = 0;
        while i < self.effects.len()
            invariant
                i <= self.effects@.len(),
                effect_position(self@.effects, key@, 0) == effect_position(
                    self@.effects,
                    key@,
                    i as nat,
                ),
            decreases self.effects@.len() - i,
        {
            assert(self@.effects[i as int].0 == self.effects@[i as int].0@);
            if self.effects[i].0.same(key) {
                return Some(i);
            }
            i += 1;
        }
        None
    }

    pub(crate) fn write_effect(&mut self, key: &Option<InvocationKey>, effect: EffectRecord)
        ensures
            final(self)@ == old(self)@.with_effect(key_option(*key), effect@),
    {
        if let Some(key) = key {
            let ghost before = self@.effects;
            match self.position_of(key) {
                Some(position) => {
                    self.effects.set(position, (key.duplicate(), effect));
                    assert(effects_view(self.effects@) =~= before.update(
                        position as int,
                        (key@, effect@),
                    ));
                },
                None => {
                    self.effects.push((key.duplicate(), effect));
                    assert(effects_view(self.effects@) =~= before.push((key@, effect@)));
                },
            }
        }
    }
}

} // verus!
