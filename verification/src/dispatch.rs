//! The publish dispatcher: who a message goes to, and the fan-out onto the
//! outbound channels of those clients.

use crate::client::Outbound;
use crate::message::{addressed, OutboundMessage};
use crate::registry::{directory_of, lemma_directory_entry, names_of, Directory, Registry};
use vstd::prelude::*;
use warp::ws::Message;

verus! {

/// The identifiers with a live channel.
pub open spec fn connected_ids(directory: Directory) -> Set<Seq<char>> {
    Set::new(|id: Seq<char>| directory.dom().contains(id) && directory[id] is Some)
}

/// The identifiers that a message with the target list `targets` is queued
/// for: those that are connected and that the list addresses.
pub open spec fn recipients(directory: Directory, targets: Seq<Seq<char>>) -> Set<Seq<char>> {
    Set::new(
        |id: Seq<char>|
            directory.dom().contains(id) && directory[id] is Some && addressed(targets, id),
    )
}

/// What became of a message for one recipient.
#[derive(Debug, Clone)]
pub struct Delivery {
    /// The client whose channel the message was handed to.
    pub recipient: String,
    /// Whether the channel took the message. It refuses once the receiving
    /// side of the connection is gone.
    pub enqueued: bool,
}

/// The recipients of a list of deliveries, in order.
pub open spec fn recipients_of(deliveries: Seq<Delivery>) -> Seq<Seq<char>> {
    deliveries.map_values(|delivery: Delivery| delivery.recipient@)
}

/// How many of the deliveries were taken by their channel.
pub open spec fn enqueued_in(deliveries: Seq<Delivery>) -> nat {
    deliveries.filter(|delivery: Delivery| delivery.enqueued).len()
}

/// Queues `payload` as one text frame on `channel` without waiting, and
/// says whether the channel took it.
///
/// The call is `UnboundedSender::send` of tokio on a frame made by
/// `Message::text` of warp. tokio documents that `send` never waits and
/// fails only when the receiving half was closed or dropped; whether it
/// was is not known here, so nothing is claimed of the answer. `send`
/// gives up, by ending the process, only when the count of queued messages
/// no longer fits a machine word.
#[verifier::external_body]
fn enqueue(channel: &Outbound, payload: &String) -> (accepted: bool) {
    channel.send(Ok(Message::text(payload.as_str()))).is_ok()
}

/// The number of deliveries that their channel took.
pub fn count_enqueued(deliveries: &Vec<Delivery>) -> (count: usize)
    ensures
        count == enqueued_in(deliveries@),
        count <= deliveries@.len(),
{
    let mut count: usize = 0;
    let mut i: usize = 0;
    proof {
        reveal(Seq::filter);
    }
    while i < deliveries.len()
        invariant
            i <= deliveries.len(),
            count == enqueued_in(deliveries@.take(i as int)),
            count <= i,
        decreases deliveries.len() - i,
    {
        proof {
            reveal(Seq::filter);
            assert(deliveries@.take(i + 1).drop_last() =~= deliveries@.take(i as int));
        }
        if deliveries[i].enqueued {
            count += 1;
        }
        i += 1;
    }
    assert(deliveries@.take(i as int) =~= deliveries@);
    count
}

impl Registry {
    /// Hands `message` to the outbound channel of each client it is for,
    /// once, without waiting for any of them, and reports each hand-over.
    ///
    /// A broadcast goes to every connected client, any other message to
    /// the connected clients among its targets. Targets that are unknown or
    /// not connected are passed over. The registry is left as it is.
    pub fn publish(&self, message: &OutboundMessage) -> (deliveries: Vec<Delivery>)
        ensures
            recipients_of(deliveries@).no_duplicates(),
            recipients_of(deliveries@).to_set() == recipients(self@, message.target_ids()),
            deliveries@.len() == recipients(self@, message.target_ids()).len(),
            message.spec_is_broadcast() ==> recipients_of(deliveries@).to_set() == connected_ids(
                self@,
            ) && deliveries@.len() == connected_ids(self@).len(),
    {
        let records = self.snapshot();
        let mut deliveries: Vec<Delivery> = Vec::new();
        let ghost mut origin: Seq<int> = Seq::empty();
        let mut i: usize = 0;
        while i < records.len()
            invariant
                i <= records.len(),
                names_of(records@).no_duplicates(),
                directory_of(records@) == self@,
                origin.len() == deliveries@.len(),
                forall|a: int|
                    0 <= a < origin.len() ==> 0 <= #[trigger] origin[a] < i
                        && deliveries@[a].recipient@ == records@[origin[a]].username@
                        && records@[origin[a]].sender is Some && message.spec_addresses(
                        records@[origin[a]].username@,
                    ),
                forall|a: int, b: int|
                    0 <= a < b < origin.len() ==> #[trigger] origin[a] < #[trigger] origin[b],
                forall|j: int|
                    0 <= j < i && (#[trigger] records@[j]).sender is Some
                        && message.spec_addresses(records@[j].username@) ==> recipients_of(
                        deliveries@,
                    ).contains(records@[j].username@),
            decreases records.len() - i,
        {
            let client = &records[i];
            if message.addresses(&client.username) {
                if let Some(channel) = &client.sender {
                    let enqueued = enqueue(channel, &message.payload);
                    let ghost before = deliveries@;
                    deliveries.push(Delivery { recipient: client.username.clone(), enqueued });
                    proof {
                        origin = origin.push(i as int);
                        let names = recipients_of(deliveries@);
                        assert(names[before.len() as int] == client.username@);
                        assert forall|j: int|
                            0 <= j < i + 1 && (#[trigger] records@[j]).sender is Some
                                && message.spec_addresses(
                                records@[j].username@,
                            ) implies names.contains(records@[j].username@) by {
                            if j < i {
                                let a = recipients_of(before).index_of(records@[j].username@);
                                assert(names[a] == records@[j].username@);
                            }
                        }
                    }
                }
            }
            i += 1;
        }
        proof {
            let names = recipients_of(deliveries@);
            let wanted = recipients(self@, message.target_ids());
            assert forall|a: int, b: int|
                0 <= a < names.len() && 0 <= b < names.len() && a != b implies names[a]
                != names[b] by {
                let (lo, hi) = if a < b { (a, b) } else { (b, a) };
                assert(origin[lo] < origin[hi]);
                lemma_directory_entry(records@, origin[lo]);
                lemma_directory_entry(records@, origin[hi]);
            }
            assert forall|id: Seq<char>| names.to_set().contains(id) <==> wanted.contains(id) by {
                if names.contains(id) {
                    let a = names.index_of(id);
                    lemma_directory_entry(records@, origin[a]);
                }
                if wanted.contains(id) {
                    let j = names_of(records@).index_of(id);
                    lemma_directory_entry(records@, j);
                    assert(records@[j].sender is Some);
                }
            }
            assert(names.to_set() =~= wanted);
            names.unique_seq_to_set();
            if message.spec_is_broadcast() {
                assert(wanted =~= connected_ids(self@));
            }
        }
        deliveries
    }
}

} // verus!
