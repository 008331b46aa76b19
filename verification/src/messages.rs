//! The ordered queue of transient overlay messages.
//!
//! Messages are appended at the back; "replace last" pops the most recent
//! entry before appending; "clear" empties the queue.  There is no capacity
//! bound and no access beyond ordered iteration.

use vstd::prelude::*;

verus! {

/// The kind tag a message arrives with.
#[derive(Clone, Copy, Debug, PartialEq, Eq, Structural)]
pub enum MessageKind {
    Unknown,
    Confirm,
    ConfirmSubstitute,
    Echo,
    EchoMessage,
    EchoError,
    Error,
    LuaError,
    RpcError,
    ReturnPrompt,
    QuickFix,
    SearchCount,
    Wildmenu,
}

/// One queued message: its kind and its styled content, a sequence of
/// (highlight id, text) runs.
pub struct VimMessage {
    pub kind: MessageKind,
    pub content: Vec<(u64, String)>,
}

/// Abstract value of a message.
pub struct MsgView {
    pub kind: MessageKind,
    pub content: Seq<(u64, String)>,
}

impl View for VimMessage {
    type V = MsgView;

    open spec fn view(&self) -> MsgView {
        MsgView { kind: self.kind, content: self.content@ }
    }
}

/// The queue after a push: with `replace_last` set and the queue non-empty,
/// the most recent entry is popped first; then the new entry is appended.
pub open spec fn spec_push(q: Seq<MsgView>, m: MsgView, replace_last: bool) -> Seq<MsgView> {
    if replace_last && q.len() > 0 {
        q.drop_last().push(m)
    } else {
        q.push(m)
    }
}

/// On an empty queue, "replace last" and a plain push are the same: there is
/// nothing to pop.
pub proof fn lemma_push_replace_last_empty(q: Seq<MsgView>, m: MsgView)
    requires
        q.len() == 0,
    ensures
        spec_push(q, m, true) == spec_push(q, m, false),
{
}

/// The back-insertable, back-poppable message queue.
pub struct MessageQueue {
    entries: Vec<VimMessage>,
}

impl View for MessageQueue {
    type V = Seq<MsgView>;

    closed spec fn view(&self) -> Seq<MsgView> {
        self.entries@.map_values(|m: VimMessage| m@)
    }
}

impl MessageQueue {
    /// An empty queue.
    pub fn new() -> (r: MessageQueue)
        ensures
            r@ =~= Seq::<MsgView>::empty(),
    {
        MessageQueue { entries: Vec::new() }
    }

    /// Number of queued messages.
    pub fn len(&self) -> (r: usize)
        ensures
            r == self@.len(),
    {
        self.entries.len()
    }

    /// The message at position `i`, oldest first.
    pub fn get(&self, i: usize) -> (r: Option<&VimMessage>)
        ensures
            match r {
                Some(m) => i < self@.len() && m@ == self@[i as int],
                None => i >= self@.len(),
            },
    {
        if i < self.entries.len() {
            Some(&self.entries[i])
        } else {
            None
        }
    }

    /// Append a message, popping the most recent entry first when
    /// `replace_last` is set and the queue is non-empty.
    pub fn push(&mut self, kind: MessageKind, content: Vec<(u64, String)>, replace_last: bool)
        ensures
            final(self)@ == spec_push(
                old(self)@,
                MsgView { kind, content: content@ },
                replace_last,
            ),
    {
        if replace_last && self.entries.len() > 0 {
            self.entries.pop();
        }
        let ghost mid: Seq<MsgView> = self@;
        self.entries.push(VimMessage { kind, content });
        proof {
            assert(self@ =~= mid.push(MsgView { kind, content: content@ }));
            assert(self@ =~= spec_push(
                old(self)@,
                MsgView { kind, content: content@ },
                replace_last,
            ));
        }
    }

    /// Empty the queue.
    pub fn clear(&mut self)
        ensures
            final(self)@ =~= Seq::<MsgView>::empty(),
    {
        self.entries.clear();
    }
}

} // verus!
