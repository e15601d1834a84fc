//! An error as text, for handing over an RPC connection.

use vstd::prelude::*;

verus! {

/// `anyhow::Error`: an error with the chain of its causes.
#[verifier::external_type_specification]
#[verifier::external_body]
pub struct ExAnyhowError(anyhow::Error);

/// The messages of the chain of `e`, as `anyhow::Error::chain` walks it:
/// that of the error itself first, then that of each cause down to the
/// root cause.
pub uninterp spec fn chain_messages(e: anyhow::Error) -> Seq<Seq<char>>;

/// Walks `anyhow::Error::chain` and takes the message of each error on it.
/// Trusted: that the chain starts with the error itself, so that it is
/// never empty, and that the messages depend on the error alone.
#[verifier::external_body]
fn chain(e: &anyhow::Error) -> (messages: Vec<String>)
    ensures
        messages.deep_view() == chain_messages(*e),
        messages@.len() >= 1,
{
    e.chain().map(|cause| cause.to_string()).collect()
}

/// An error and the errors that caused it, as text.
#[derive(Debug, PartialEq, Eq)]
pub struct RpcError {
    /// The message of the error.
    pub error: String,
    /// The messages of its causes, the nearest first.
    pub trace: Vec<String>,
}

/// What an `RpcError` holds.
pub struct RpcErrorView {
    pub error: Seq<char>,
    pub trace: Seq<Seq<char>>,
}

impl View for RpcError {
    type V = RpcErrorView;

    open spec fn view(&self) -> RpcErrorView {
        RpcErrorView { error: self.error@, trace: self.trace.deep_view() }
    }
}

impl RpcErrorView {
    /// The error whose message is the first of `messages` and whose causes
    /// have the messages that follow. Without any message the error is
    /// empty.
    pub open spec fn of_chain(messages: Seq<Seq<char>>) -> RpcErrorView {
        if messages.len() == 0 {
            RpcErrorView { error: Seq::empty(), trace: Seq::empty() }
        } else {
            RpcErrorView { error: messages[0], trace: messages.skip(1) }
        }
    }
}

impl RpcError {
    /// The error whose message is the first of `messages` and whose causes
    /// have the messages that follow.
    pub fn from_chain(messages: Vec<String>) -> (r: RpcError)
        ensures
            r@ == RpcErrorView::of_chain(messages.deep_view()),
    {
        let mut trace = messages;
        if trace.len() == 0 {
            let r = RpcError { error: String::new(), trace };
            assert(r.trace.deep_view() =~= Seq::<Seq<char>>::empty());
            r
        } else {
            let error = trace.remove(0);
            let r = RpcError { error, trace };
            assert(r.trace.deep_view() =~= messages.deep_view().skip(1));
            r
        }
    }

    /// The text of `e` and of its causes.
    pub fn from(e: &anyhow::Error) -> (r: RpcError)
        ensures
            r@ == RpcErrorView::of_chain(chain_messages(*e)),
            chain_messages(*e).len() >= 1,
    {
        let messages = chain(e);
        assert(messages.deep_view().len() == messages@.len());
        RpcError::from_chain(messages)
    }

    /// The message of the error.
    pub fn to_string(&self) -> (r: String)
        ensures
            r@ == self@.error,
    {
        self.error.clone()
    }
}

} // verus!
