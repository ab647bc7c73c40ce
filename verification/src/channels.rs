//! Messages to the structural store, and the retry schedule of their dispatch.
use vstd::prelude::*;

use crate::structural::{node_error_text, Node, StringMap, StructuralFactoryImpl};
use crate::text::{decimal, push_decimal, push_text, string_from};

verus! {

/// Settings of a message channel.
#[derive(Debug)]
pub struct ChannelConfig {
    pub capacity: usize,
    /// Milliseconds to wait before each retry, in order.
    pub retry_ms: Vec<u64>,
    pub serialization: String,
}

/// A request to the structural store.
#[derive(Debug, Clone)]
pub enum Message {
    Create(Node),
    Query(String),
    Update(String, StringMap),
    Delete(String),
}

/// `node` with every property of `props` set, the rest of it unchanged.
pub open spec fn with_properties(node: crate::structural::NodeView, after: crate::structural::NodeView, props: StringMap) -> bool {
    &&& after.id == node.id
    &&& after.parent_id == node.parent_id
    &&& after.metadata == node.metadata
    &&& after.version == node.version
    &&& forall|k: Seq<char>| #[trigger] crate::structural::pair_lookup(after.properties, k) == match props.lookup(k) {
        Some(v) => Some(v),
        None => crate::structural::pair_lookup(node.properties, k),
    }
}

/// Sets every property of `props` on `node`.
pub fn apply_properties(node: Node, props: &StringMap) -> (r: Node)
    ensures
        with_properties(node@, r@, *props),
{
    let mut n = node;
    let ghost before = n@;
    n.properties.merge_from(props);
    assert forall|k: Seq<char>| #[trigger] crate::structural::pair_lookup(n@.properties, k) == match props.lookup(k) {
        Some(v) => Some(v),
        None => crate::structural::pair_lookup(before.properties, k),
    } by {
        assert(n.properties.lookup(k) == crate::structural::pair_lookup(n@.properties, k));
    }
    n
}

/// Carries out one message on the store; a refusal comes back as the text of
/// the store's error.
pub fn process_message(factory: &mut StructuralFactoryImpl, msg: Message) -> (r: Result<(), String>)
    ensures
        match msg {
            Message::Create(node) => match r {
                Ok(()) => crate::structural::node_error(node@) is None && old(factory).lookup(node@.id) is None
                    && final(factory).lookup(node@.id) == Some(node@)
                    && forall|k: Seq<char>| k != node@.id ==> #[trigger] final(factory).lookup(k) == old(factory).lookup(k),
                Err(m) => final(factory)@ == old(factory)@
                    && (crate::structural::node_error(node@) is Some || old(factory).lookup(node@.id) is Some)
                    && m@ == node_error_text(
                    match crate::structural::node_error(node@) {
                        Some(e) => e,
                        None => crate::structural::id_error(node@.id, " already exists"@),
                    },
                ),
            },
            Message::Query(_) => r is Ok && final(factory)@ == old(factory)@,
            Message::Update(id, props) => match old(factory).lookup(id@) {
                None => r is Err && r->Err_0@ == node_error_text(crate::structural::id_error(id@, " not found"@))
                    && final(factory)@ == old(factory)@,
                Some(current) => exists|after: crate::structural::NodeView|
                    #[trigger] with_properties(current, after, props) && match r {
                        Ok(()) => {
                            &&& crate::structural::node_error(after) is None
                            &&& final(factory).lookup(id@) == Some(after)
                            &&& forall|k: Seq<char>| k != id@ ==> #[trigger] final(factory).lookup(k) == old(factory).lookup(k)
                        },
                        Err(m) => {
                            &&& final(factory)@ == old(factory)@
                            &&& crate::structural::node_error(after) is Some
                            &&& m@ == node_error_text(crate::structural::node_error(after)->0)
                        },
                    },
            },
            Message::Delete(id) => match old(factory).lookup(id@) {
                None => r is Err && r->Err_0@ == node_error_text(crate::structural::id_error(id@, " not found"@))
                    && final(factory)@ == old(factory)@,
                Some(_) => r is Ok && final(factory).lookup(id@) is None
                    && forall|k: Seq<char>| k != id@ ==> #[trigger] final(factory).lookup(k) == old(factory).lookup(k),
            },
        },
{
    match msg {
        Message::Create(node) => match factory.create(node) {
            Ok(_) => Ok(()),
            Err(e) => Err(e.message()),
        },
        Message::Query(id) => match factory.query(id.as_str()) {
            Ok(_) => Ok(()),
            Err(e) => Err(e.message()),
        },
        Message::Update(id, props) => {
            let update_fn = move |n: Node| -> (r: Node)
                ensures
                    with_properties(n@, r@, props),
                { apply_properties(n, &props) };
            match factory.update(id.as_str(), update_fn) {
                Ok(_) => Ok(()),
                Err(e) => Err(e.message()),
            }
        },
        Message::Delete(id) => match factory.delete(id.as_str()) {
            Ok(()) => Ok(()),
            Err(e) => Err(e.message()),
        },
    }
}

// ---------------------------------------------------------------------------
// Retries.

/// What to do after an attempt.
#[derive(Debug, Clone, PartialEq, Eq)]
pub enum RetryDecision {
    /// The attempt succeeded.
    Done,
    /// Wait this many milliseconds, then try again.
    RetryAfter(u64),
    /// Stop and report this error.
    GiveUp(String),
}

/// The decision after the attempt that follows `attempts` retries.
pub open spec fn retry_step(attempts: nat, intervals: Seq<u64>, outcome: Result<(), Seq<char>>) -> Option<Result<u64, Seq<char>>> {
    match outcome {
        Ok(()) => None,
        Err(e) => if attempts < intervals.len() {
            Some(Ok(intervals[attempts as int]))
        } else {
            Some(Err("Failed after "@ + decimal(attempts) + " retries: "@ + e))
        },
    }
}

/// Decides what follows an attempt: done on success; on failure, wait the next
/// interval while intervals remain, else give up with the last error.
pub fn retry_decision(attempts: usize, retry_intervals: &Vec<u64>, outcome: Result<(), String>) -> (d: RetryDecision)
    ensures
        match retry_step(attempts as nat, retry_intervals@, match outcome { Ok(()) => Ok(()), Err(e) => Err(e@) }) {
            None => d is Done,
            Some(Ok(ms)) => d == RetryDecision::RetryAfter(ms),
            Some(Err(m)) => d is GiveUp && d->GiveUp_0@ == m,
        },
{
    match outcome {
        Ok(()) => RetryDecision::Done,
        Err(e) => {
            if attempts < retry_intervals.len() {
                RetryDecision::RetryAfter(retry_intervals[attempts])
            } else {
                let mut m = string_from("Failed after ");
                push_decimal(&mut m, attempts as u64);
                push_text(&mut m, " retries: ");
                push_text(&mut m, e.as_str());
                RetryDecision::GiveUp(m)
            }
        },
    }
}

/// A failing message is retried once per interval of the schedule, waiting
/// the intervals in order, and given up on at the attempt after the last one;
/// a success ends the retries at any attempt.
pub proof fn lemma_retry_schedule(intervals: Seq<u64>, attempts: nat, error: Seq<char>)
    ensures
        retry_step(attempts, intervals, Ok(())) is None,
        attempts < intervals.len() ==> retry_step(attempts, intervals, Err(error)) == Some(
            Ok::<u64, Seq<char>>(intervals[attempts as int]),
        ),
        attempts >= intervals.len() ==> retry_step(attempts, intervals, Err(error)) is Some
            && retry_step(attempts, intervals, Err(error))->0 is Err,
{
}

} // verus!
