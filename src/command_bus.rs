use vstd::prelude::*;

use tokio::sync::broadcast::{Receiver, Sender};

use crate::clock::unix_millis;
use crate::error::CoreError;
use crate::ident::fresh_id;

verus! {

#[verifier::external_type_specification]
#[verifier::external_body]
pub struct ExJsonValue(serde_json::Value);

/// serde_json's derived `Clone` for `Value`, which commands need to be
/// handed to every subscriber; nothing is claimed of the copy.
pub assume_specification[ <serde_json::Value as Clone>::clone ](v: &serde_json::Value) -> serde_json::Value;

#[verifier::external_type_specification]
#[verifier::external_body]
#[verifier::reject_recursive_types(T)]
pub struct ExBroadcastSender<T>(Sender<T>);

#[verifier::external_type_specification]
#[verifier::external_body]
#[verifier::reject_recursive_types(T)]
pub struct ExBroadcastReceiver<T>(Receiver<T>);

/// An instruction from the master. No `target_node` means every node;
/// `timestamp` is in Unix milliseconds. The payload is carried as is.
#[derive(Debug, Clone)]
pub struct NodeCommand {
    pub command_id: String,
    pub command_type: String,
    pub target_node: Option<String>,
    pub payload: serde_json::Value,
    pub timestamp: u64,
}

impl NodeCommand {
    pub open spec fn spec_addressed_to(&self, node_id: Seq<char>) -> bool {
        match self.target_node {
            Some(t) => t@ == node_id,
            None => true,
        }
    }

    /// Whether a node with `node_id` should act on this command: it names
    /// that node, or no node at all.
    pub fn is_addressed_to(&self, node_id: &String) -> (r: bool)
        ensures
            r == self.spec_addressed_to(node_id@),
    {
        match &self.target_node {
            Some(t) => t.eq(node_id),
            None => true,
        }
    }
}

/// The commands handed to `send` on a channel so far, oldest first. A
/// receiver gets those handed over after it subscribed, and no earlier ones.
pub uninterp spec fn offered_of(tx: Sender<NodeCommand>) -> Seq<NodeCommand>;

/// How many commands had been handed to the channel when a receiver
/// subscribed: it receives the commands from that position of
/// `offered_of` on.
pub uninterp spec fn subscribed_at(rx: Receiver<NodeCommand>) -> nat;

/// Commands fanned out to the node transports subscribed at the time of
/// sending. Nothing is kept for later subscribers, and a subscriber that
/// falls more than the capacity behind loses the oldest commands.
pub struct CommandBus {
    tx: Sender<NodeCommand>,
}

/// Most commands a lagging subscriber can have pending.
pub const COMMAND_CAPACITY: usize = 100;

/// Relies on tokio's `broadcast::channel`, which panics for a capacity of 0
/// or above `usize::MAX / 2`: a new channel, nothing sent on it yet; the
/// first receiver is dropped.
#[verifier::external_body]
fn open_channel(capacity: usize) -> (r: Sender<NodeCommand>)
    requires
        0 < capacity <= usize::MAX / 2,
    ensures
        offered_of(r).len() == 0,
{
    tokio::sync::broadcast::channel(capacity).0
}

/// Relies on tokio's `Sender::subscribe`: a receiver of the values sent after
/// this call, and of none sent before.
#[verifier::external_body]
fn open_subscription(tx: &Sender<NodeCommand>) -> (r: Receiver<NodeCommand>)
    ensures
        subscribed_at(r) == offered_of(*tx).len(),
{
    tx.subscribe()
}

/// Relies on tokio's `Sender::send`, which writes the value for every
/// current receiver and fails only when there is none: the command is
/// handed to the channel; the result tells whether some receiver exists.
#[verifier::external_body]
fn send_to_subscribers(tx: &mut Sender<NodeCommand>, command: NodeCommand) -> (r: bool)
    ensures
        offered_of(*final(tx)) == offered_of(*old(tx)).push(command),
{
    tx.send(command).is_ok()
}

impl CommandBus {
    /// The commands published on this bus so far, oldest first.
    pub closed spec fn offered(&self) -> Seq<NodeCommand> {
        offered_of(self.tx)
    }

    pub fn new() -> (r: Self)
        ensures
            r.offered().len() == 0,
    {
        CommandBus { tx: open_channel(COMMAND_CAPACITY) }
    }

    /// A transport's subscription: it receives the commands published from
    /// now on, and none published before.
    pub fn subscribe(&self) -> (r: Receiver<NodeCommand>)
        ensures
            subscribed_at(r) == self.offered().len(),
    {
        open_subscription(&self.tx)
    }

    /// Publishes `command` to the current subscribers. Having none is not a
    /// failure: subscribers come and go.
    pub fn publish(&mut self, command: NodeCommand) -> (r: Result<(), CoreError>)
        ensures
            r is Ok,
            final(self).offered() == old(self).offered().push(command),
    {
        let _delivered = send_to_subscribers(&mut self.tx, command);
        Ok(())
    }

    /// Publishes `command` aimed at `node_id`, whatever target it had.
    pub fn send_to_node(&mut self, node_id: String, command: NodeCommand) -> (r: Result<(), CoreError>)
        ensures
            r is Ok,
            final(self).offered() == old(self).offered().push(
                NodeCommand { target_node: Some(node_id), ..command },
            ),
    {
        let mut command = command;
        command.target_node = Some(node_id);
        self.publish(command)
    }

    /// Packages a command from the given fields, publishes it, and returns
    /// its id.
    pub fn trigger_action_at(
        &mut self,
        command_id: String,
        target_node: Option<String>,
        command_type: String,
        payload: serde_json::Value,
        timestamp: u64,
    ) -> (r: Result<String, CoreError>)
        ensures
            r == Ok::<String, CoreError>(command_id),
            final(self).offered() == old(self).offered().push(
                NodeCommand { command_id, command_type, target_node, payload, timestamp },
            ),
    {
        let id = command_id.clone();
        let command = NodeCommand { command_id, command_type, target_node, payload, timestamp };
        let _ = self.publish(command);
        Ok(id)
    }

    /// Publishes a new command with a random id, stamped with the current
    /// time in Unix milliseconds; returns the id.
    pub fn trigger_action(
        &mut self,
        target_node: Option<String>,
        command_type: String,
        payload: serde_json::Value,
    ) -> (r: Result<String, CoreError>)
        ensures
            r matches Ok(id) && id@.len() == 36 && exists|timestamp: u64|
                final(self).offered() == #[trigger] old(self).offered().push(
                    NodeCommand { command_id: id, command_type, target_node, payload, timestamp },
                ),
    {
        let command_id = fresh_id();
        let timestamp = unix_millis();
        self.trigger_action_at(command_id, target_node, command_type, payload, timestamp)
    }
}

/// A transport that subscribed before a publication receives the published
/// command, and one that subscribes after it does not: the command sits at a
/// position at or past the first subscriber's start and before the second's.
pub proof fn lemma_publication_reaches_earlier_subscribers(
    before: CommandBus,
    after: CommandBus,
    command: NodeCommand,
    early: Receiver<NodeCommand>,
    late: Receiver<NodeCommand>,
)
    requires
        after.offered() == before.offered().push(command),
        subscribed_at(early) <= before.offered().len(),
        subscribed_at(late) == after.offered().len(),
    ensures
        subscribed_at(early) <= before.offered().len() < after.offered().len(),
        after.offered()[before.offered().len() as int] == command,
        before.offered().len() < subscribed_at(late),
{
}

} // verus!
