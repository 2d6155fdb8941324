use vstd::prelude::*;
use crate::error::{describe, lemma_context_description, separator, udpsocket_error};

verus! {

/// The socket operations that can fail at the OS level.
#[derive(Clone, Copy, Debug, PartialEq, Eq, Structural)]
pub enum Operation {
    Bind,
    SetNonblocking,
    Connect,
    Send,
    Recv,
}

/// The context label that names an operation in an error chain.
pub open spec fn operation_label(op: Operation) -> Seq<char> {
    match op {
        Operation::Bind => "bind"@,
        Operation::SetNonblocking => "set_nonblocking"@,
        Operation::Connect => "connect"@,
        Operation::Send => "send"@,
        Operation::Recv => "recv"@,
    }
}

/// The step at which the text of an address was refused.
#[derive(Clone, Copy, Debug, PartialEq, Eq, Structural)]
pub enum AddressStage {
    /// The bytes were not valid UTF-8.
    Text,
    /// The text was not an `<ip>:<port>` socket address.
    Syntax,
}

pub open spec fn address_stage_label(stage: AddressStage) -> Seq<char> {
    match stage {
        AddressStage::Text => "to_str"@,
        AddressStage::Syntax => "parse"@,
    }
}

/// The label that every address failure carries outermost.
pub open spec fn address_label() -> Seq<char> {
    "parse_addr"@
}

/// The chain of an address failure: the address label, then the stage,
/// then the reason the text was refused.
pub open spec fn address_chain(stage: AddressStage, reason: Seq<char>) -> Seq<Seq<char>> {
    seq![address_label(), address_stage_label(stage), reason]
}

/// The chain of an OS-level failure of an operation.
pub open spec fn operation_chain(op: Operation, reason: Seq<char>) -> Seq<Seq<char>> {
    seq![operation_label(op), reason]
}

/// Whether an OS-level failure means only that the operation could not
/// complete without blocking.
#[derive(Clone, Copy, Debug, PartialEq, Eq, Structural)]
pub enum FailureKind {
    WouldBlock,
    Other,
}

/// A failure as the OS reported it: its kind and its description.
#[derive(Debug)]
pub struct OsFailure {
    pub kind: FailureKind,
    pub reason: String,
}

/// The label of an operation.
pub fn label(op: Operation) -> (r: &'static str)
    ensures
        r@ == operation_label(op),
{
    match op {
        Operation::Bind => "bind",
        Operation::SetNonblocking => "set_nonblocking",
        Operation::Connect => "connect",
        Operation::Send => "send",
        Operation::Recv => "recv",
    }
}

/// The error for an address text that could not be read as a socket
/// address.
pub fn parse_addr_error(stage: AddressStage, reason: String) -> (r: udpsocket_error)
    ensures
        r@ == address_chain(stage, reason@),
{
    let stage_label: &str = match stage {
        AddressStage::Text => "to_str",
        AddressStage::Syntax => "parse",
    };
    let e = udpsocket_error::from_cause(reason).context(stage_label).context("parse_addr");
    assert(e@ =~= address_chain(stage, reason@));
    e
}

/// An address failure prints the address label first, then the stage at
/// which the text was refused, then the reason: outer context before the
/// inner cause.
pub proof fn lemma_address_failure_description(stage: AddressStage, reason: Seq<char>)
    ensures
        describe(address_chain(stage, reason)) == address_label() + separator()
            + address_stage_label(stage) + separator() + reason,
{
    let inner = seq![address_stage_label(stage), reason];
    assert(seq![reason].drop_last() =~= Seq::<Seq<char>>::empty());
    lemma_context_description(address_stage_label(stage), seq![reason]);
    assert(seq![address_stage_label(stage)] + seq![reason] =~= inner);
    lemma_context_description(address_label(), inner);
    assert(seq![address_label()] + inner =~= address_chain(stage, reason));
    assert(address_label() + separator() + (address_stage_label(stage) + separator() + reason)
        =~= address_label() + separator() + address_stage_label(stage) + separator() + reason);
}

/// The error for an operation that the OS refused.
pub fn operation_error(op: Operation, failure: OsFailure) -> (r: udpsocket_error)
    ensures
        r@ == operation_chain(op, failure.reason@),
{
    let e = udpsocket_error::from_cause(failure.reason).context(label(op));
    assert(e@ =~= operation_chain(op, failure.reason@));
    e
}

/// The nullable error of an operation that returns nothing on success
/// (bind, set non-blocking, connect): none when the OS call succeeded,
/// else the failure under the operation's label.
pub fn completion(op: Operation, outcome: Result<(), OsFailure>) -> (r: Option<udpsocket_error>)
    ensures
        r is None <==> outcome is Ok,
        outcome is Err ==> r is Some && r->Some_0@ == operation_chain(op, outcome->Err_0.reason@),
{
    match outcome {
        Ok(()) => None,
        Err(failure) => Some(operation_error(op, failure)),
    }
}

/// The result of a send: the count the OS reported, exactly, or the
/// failure under the send label. A would-block failure is a failure here.
pub fn send_outcome(outcome: Result<usize, OsFailure>) -> (r: Result<usize, udpsocket_error>)
    ensures
        r is Ok <==> outcome is Ok,
        outcome is Ok ==> r->Ok_0 == outcome->Ok_0,
        outcome is Err ==> r->Err_0@ == operation_chain(Operation::Send, outcome->Err_0.reason@),
{
    match outcome {
        Ok(n) => Ok(n),
        Err(failure) => Err(operation_error(Operation::Send, failure)),
    }
}

/// The result of a receive: the count the OS reported; a count of zero
/// where the socket would have blocked; else the failure under the
/// receive label.
pub fn recv_outcome(outcome: Result<usize, OsFailure>) -> (r: Result<usize, udpsocket_error>)
    ensures
        r is Ok <==> (outcome is Ok || (outcome is Err && outcome->Err_0.kind
            == FailureKind::WouldBlock)),
        outcome is Ok ==> r->Ok_0 == outcome->Ok_0,
        outcome is Err && outcome->Err_0.kind == FailureKind::WouldBlock ==> r->Ok_0 == 0,
        outcome is Err && outcome->Err_0.kind == FailureKind::Other ==> r->Err_0@
            == operation_chain(Operation::Recv, outcome->Err_0.reason@),
{
    match outcome {
        Ok(n) => Ok(n),
        Err(failure) => match failure.kind {
            FailureKind::WouldBlock => Ok(0),
            FailureKind::Other => Err(operation_error(Operation::Recv, failure)),
        },
    }
}

} // verus!
