//! Message metadata: what a listing of a remote folder yields, and which of
//! its entries the engine keeps.
use vstd::prelude::*;
use vstd::utf8::{decode_utf8, valid_utf8};
use crate::flags::Flag;

verus! {

/// The metadata of one remote message that the engine works with.
pub struct Message {
    /// Protocol-assigned identifier, unique within one mailbox.
    pub uid: u32,
    /// The correlation id from the message's headers.
    pub msg_id: String,
    pub flags: Vec<Flag>,
}

/// The mathematical value of a `Message`.
pub struct MessageModel {
    pub uid: u32,
    pub msg_id: Seq<char>,
    pub flags: Seq<Flag>,
}

impl View for Message {
    type V = MessageModel;

    open spec fn view(&self) -> MessageModel {
        MessageModel { uid: self.uid, msg_id: self.msg_id@, flags: self.flags@ }
    }
}

/// The models of a sequence of messages.
pub open spec fn models(s: Seq<Message>) -> Seq<MessageModel> {
    s.map_values(|m: Message| m@)
}

/// One entry of a metadata listing as the server returned it, before the
/// engine decides whether it can use it.
pub struct RawMessage {
    pub uid: Option<u32>,
    pub has_envelope: bool,
    /// The message-id of the envelope, as the bytes that the server sent.
    pub message_id: Option<Vec<u8>>,
    pub flags: Vec<Flag>,
}

/// What a listing entry becomes: nothing when it lacks a uid, an envelope
/// or a message-id, or when its message-id is not valid UTF-8.
pub open spec fn accepted(r: RawMessage) -> Option<MessageModel> {
    match (r.uid, r.message_id) {
        (Some(uid), Some(id)) => if r.has_envelope && valid_utf8(id@) {
            Some(MessageModel { uid, msg_id: decode_utf8(id@), flags: r.flags@ })
        } else {
            None
        },
        _ => None,
    }
}

/// The messages that a listing yields, in the listing's order.
pub open spec fn listed(raws: Seq<RawMessage>) -> Seq<MessageModel>
    decreases raws.len(),
{
    if raws.len() == 0 {
        Seq::empty()
    } else {
        match accepted(raws.last()) {
            Some(m) => listed(raws.drop_last()).push(m),
            None => listed(raws.drop_last()),
        }
    }
}

/// Relies on String::from_utf8: it succeeds exactly on valid UTF-8, with
/// the characters that the bytes encode.
#[verifier::external_body]
fn utf8_string(bytes: Vec<u8>) -> (r: Option<String>)
    ensures
        r is Some <==> valid_utf8(bytes@),
        r matches Some(s) ==> s@ == decode_utf8(bytes@),
{
    String::from_utf8(bytes).ok()
}

/// The elements of `v` in reverse order.
pub(crate) fn reversed<T>(v: Vec<T>) -> (r: Vec<T>)
    ensures
        r@.len() == v@.len(),
        forall|j: int| 0 <= j < v@.len() ==> #[trigger] r@[j] == v@[v@.len() - 1 - j],
{
    let ghost orig = v@;
    let mut v = v;
    let mut r: Vec<T> = Vec::new();
    while v.len() > 0
        invariant
            v@ == orig.subrange(0, v@.len() as int),
            r@.len() + v@.len() == orig.len(),
            forall|j: int| 0 <= j < r@.len() ==> #[trigger] r@[j] == orig[orig.len() - 1 - j],
        decreases v.len(),
    {
        let x = v.pop().unwrap();
        r.push(x);
    }
    r
}

/// The messages of a metadata listing that the engine can use, in the
/// listing's order. An entry without a uid, an envelope or a message-id, or
/// whose message-id is not valid UTF-8, is skipped; the others are kept.
pub fn get_remote_messages(listing: Vec<RawMessage>) -> (r: Vec<Message>)
    ensures
        models(r@) == listed(listing@),
{
    let ghost orig = listing@;
    let n = listing.len();
    let mut rev = reversed(listing);
    let mut r: Vec<Message> = Vec::new();
    let mut i: usize = 0;
    while i < n
        invariant
            n == orig.len(),
            i <= n,
            rev@.len() == n - i,
            forall|j: int| 0 <= j < rev@.len() ==> #[trigger] rev@[j] == orig[n - 1 - j],
            models(r@) == listed(orig.subrange(0, i as int)),
        decreases n - i,
    {
        let raw = rev.pop().unwrap();
        proof {
            assert(raw == orig[i as int]);
            assert(orig.subrange(0, i + 1).drop_last() =~= orig.subrange(0, i as int));
        }
        let ghost before = r@;
        let RawMessage { uid, has_envelope, message_id, flags } = raw;
        match (uid, message_id) {
            (Some(uid), Some(id)) => {
                if has_envelope {
                    match utf8_string(id) {
                        Some(msg_id) => {
                            r.push(Message { uid, msg_id, flags });
                            proof {
                                assert(models(r@) =~= models(before).push(r@.last()@));
                            }
                        },
                        None => {},
                    }
                }
            },
            _ => {},
        }
        i = i + 1;
    }
    proof {
        assert(orig.subrange(0, n as int) =~= orig);
    }
    r
}

} // verus!
