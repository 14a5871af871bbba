//! Recorded operations: whether a mutating request that may have been made
//! before is to be made again.
use vstd::prelude::*;
use crate::error::{Error, ErrorView};
use crate::json::{Json, JsonView};
use crate::plugin::manifest;
use crate::plugin::protocol;
use crate::plugin::protocol::ProtocolError;
use crate::text;

verus! {

/// What became of a recorded request.
#[derive(Debug, Clone, Copy, PartialEq, Eq, Structural)]
pub enum OperationState {
    Unknown,
    Running,
    Succeeded,
    Failed,
}

/// The record of a mutating request. It is looked up before the request is
/// made again, so that work that was done is not done twice.
#[derive(Debug, PartialEq)]
pub struct OperationStatus {
    pub idempotency_key: String,
    pub state: OperationState,
    pub result: Option<Json>,
    pub error: Option<ProtocolError>,
}

/// What to do about a request, given its record.
#[derive(Debug, PartialEq)]
pub enum Decision {
    /// It was done: use the result.
    Use(Json),
    /// It is being done.
    Running,
    /// It failed for good.
    Refuse(Error),
    /// Make it.
    Perform,
}

/// What to do about a request, as plain values.
pub enum DecisionView {
    Use(JsonView),
    Running,
    Refuse(ErrorView),
    Perform,
}

impl View for Decision {
    type V = DecisionView;

    open spec fn view(&self) -> DecisionView {
        match *self {
            Decision::Use(v) => DecisionView::Use(v@),
            Decision::Running => DecisionView::Running,
            Decision::Refuse(e) => DecisionView::Refuse(e@),
            Decision::Perform => DecisionView::Perform,
        }
    }
}

/// A failure may be tried again.
pub open spec fn is_retryable(error: Option<ProtocolError>) -> bool {
    match error {
        Some(e) => e.retryable,
        None => false,
    }
}

/// What to do about a request of a plugin; `before` tells that it failed
/// before, where the record does not say how.
pub open spec fn decision(plugin: Seq<char>, before: Seq<char>, status: OperationStatus) -> DecisionView {
    match status.state {
        OperationState::Succeeded => DecisionView::Use(protocol::result_value(status.result)),
        OperationState::Running => DecisionView::Running,
        OperationState::Unknown => DecisionView::Perform,
        OperationState::Failed => if is_retryable(status.error) {
            DecisionView::Perform
        } else {
            DecisionView::Refuse(
                manifest::plugin_error(
                    plugin,
                    match status.error {
                        Some(e) => e.code@ + ": "@ + e.message@,
                        None => before,
                    },
                ),
            )
        },
    }
}

/// Decide whether a request is to be made, given its record.
pub fn decide(plugin: &str, before: &str, status: OperationStatus) -> (r: Decision)
    ensures
        r@ == decision(plugin@, before@, status),
{
    match status.state {
        OperationState::Succeeded => match status.result {
            Some(v) => Decision::Use(v),
            None => Decision::Use(Json::Null),
        },
        OperationState::Running => Decision::Running,
        OperationState::Unknown => Decision::Perform,
        OperationState::Failed => match status.error {
            Some(e) => if e.retryable {
                Decision::Perform
            } else {
                Decision::Refuse(
                    manifest::failed(
                        plugin,
                        text::cat3(e.code.as_str(), ": ", e.message.as_str()),
                    ),
                )
            },
            None => Decision::Refuse(manifest::failed(plugin, before.to_owned())),
        },
    }
}

/// Work that was done, or is being done, is never done again; and a failure
/// is tried again only where the plugin says it may be.
pub proof fn law_done_work_is_not_repeated(
    plugin: Seq<char>,
    before: Seq<char>,
    status: OperationStatus,
)
    ensures
        decision(plugin, before, status) is Perform <==> (status.state == OperationState::Unknown || (
        status.state == OperationState::Failed && is_retryable(status.error))),
{
}

/// What was done is used as it came out; what is being done is left alone; and
/// what failed for good is refused with what the plugin said.
pub proof fn law_recorded_work_is_used(
    plugin: Seq<char>,
    before: Seq<char>,
    status: OperationStatus,
)
    ensures
        status.state == OperationState::Succeeded && status.result is Some ==> decision(
            plugin,
            before,
            status,
        ) == DecisionView::Use(status.result->Some_0@),
        status.state == OperationState::Succeeded && status.result is None ==> decision(
            plugin,
            before,
            status,
        ) == DecisionView::Use(JsonView::Null),
        status.state == OperationState::Running <==> decision(plugin, before, status) is Running,
        status.state == OperationState::Failed && status.error is Some
            && !status.error->Some_0.retryable ==> decision(plugin, before, status)
            == DecisionView::Refuse(
            ErrorView::Plugin {
                plugin,
                message: status.error->Some_0.code@ + ": "@ + status.error->Some_0.message@,
            },
        ),
        status.state == OperationState::Failed && status.error is Some
            && status.error->Some_0.retryable ==> decision(plugin, before, status) is Perform,
        status.state == OperationState::Failed && status.error is None ==> decision(
            plugin,
            before,
            status,
        ) == DecisionView::Refuse(ErrorView::Plugin { plugin, message: before }),
{
}

} // verus!
