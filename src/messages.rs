use vstd::prelude::*;

verus! {

/// How long a message stays on screen, in milliseconds.
pub const MESSAGE_LIFETIME_MS: i64 = 2000;

/// The colour a message is shown in.
#[derive(Debug, Clone, Copy, PartialEq, Eq, Structural)]
pub enum MessageColor {
    Green,
    Yellow,
    Blue,
}

/// A transient notice shown under the grid until `delete_at`, a time in
/// milliseconds.
#[derive(Debug, Clone)]
pub struct Message {
    pub message: String,
    pub color: MessageColor,
    pub delete_at: i64,
}

/// Whether a message is still to be shown at time `now`.
pub open spec fn alive_at(now: i64) -> spec_fn(Message) -> bool {
    |m: Message| m.delete_at >= now
}

/// The index of the newest message of `ms` that is still to be shown at
/// time `now`.
pub open spec fn last_alive(ms: Seq<Message>, now: i64) -> Option<int>
    decreases ms.len(),
{
    if ms.len() == 0 {
        None
    } else if ms.last().delete_at >= now {
        Some(ms.len() - 1)
    } else {
        last_alive(ms.drop_last(), now)
    }
}

/// The messages pushed and not yet pruned, oldest first.
#[derive(Debug)]
pub struct MessageQueue {
    pub messages: Vec<Message>,
}

impl MessageQueue {
    pub fn new() -> (r: MessageQueue)
        ensures
            r.messages@.len() == 0,
    {
        MessageQueue { messages: Vec::new() }
    }

    /// Appends a message that expires a fixed lifetime after `now`.
    pub fn push(&mut self, message: String, color: MessageColor, now: i64)
        requires
            now <= i64::MAX - MESSAGE_LIFETIME_MS,
        ensures
            final(self).messages@ == old(self).messages@.push(
                (Message { message, color, delete_at: (now + MESSAGE_LIFETIME_MS) as i64 }),
            ),
    {
        self.messages.push(Message { message, color, delete_at: now + MESSAGE_LIFETIME_MS });
    }

    /// The message to show at time `now`: the newest one that has not
    /// expired, if any.
    pub fn current(&self, now: i64) -> (r: Option<&Message>)
        ensures
            match last_alive(self.messages@, now) {
                Some(i) => r matches Some(m) && *m == self.messages@[i],
                None => r is None,
            },
    {
        let mut k: usize = self.messages.len();
        assert(self.messages@.subrange(0, k as int) =~= self.messages@);
        while k > 0
            invariant
                k <= self.messages@.len(),
                last_alive(self.messages@, now) == last_alive(
                    self.messages@.subrange(0, k as int),
                    now,
                ),
            decreases k,
        {
            let ghost prefix = self.messages@.subrange(0, k as int);
            assert(prefix.drop_last() =~= self.messages@.subrange(0, k - 1));
            if self.messages[k - 1].delete_at >= now {
                return Some(&self.messages[k - 1]);
            }
            k = k - 1;
        }
        None
    }

    /// Drops the messages that have expired at time `now`, keeping the order
    /// of the others.
    pub fn prune(&mut self, now: i64)
        ensures
            final(self).messages@ == old(self).messages@.filter(alive_at(now)),
    {
        let ghost all = self.messages@;
        let mut i: usize = 0;
        let ghost mut j: int = 0;
        while i < self.messages.len()
            invariant
                0 <= i <= j <= all.len(),
                i <= self.messages@.len(),
                self.messages@.len() - i == all.len() - j,
                self.messages@.subrange(0, i as int) == all.subrange(0, j).filter(alive_at(now)),
                self.messages@.subrange(i as int, self.messages@.len() as int) == all.subrange(
                    j,
                    all.len() as int,
                ),
            decreases self.messages.len() - i,
        {
            let ghost before = self.messages@;
            proof {
                assert(all.subrange(0, j + 1).drop_last() =~= all.subrange(0, j));
                assert(all[j] == before[i as int]) by {
                    assert(before.subrange(i as int, before.len() as int)[0] == before[i as int]);
                }
                reveal(Seq::filter);
                assert forall|n: int| i <= n < before.len() implies #[trigger] before[n] == all[n - i + j] by {
                    assert(before.subrange(i as int, before.len() as int)[n - i] == before[n]);
                    assert(all.subrange(j, all.len() as int)[n - i] == all[n - i + j]);
                }
            }
            if self.messages[i].delete_at < now {
                self.messages.remove(i);
                proof {
                    assert(self.messages@.subrange(0, i as int) =~= before.subrange(0, i as int));
                    assert(self.messages@.subrange(i as int, self.messages@.len() as int)
                        =~= all.subrange(j + 1, all.len() as int));
                }
            } else {
                i = i + 1;
                proof {
                    assert(self.messages@.subrange(0, i as int) =~= before.subrange(
                        0,
                        i - 1,
                    ).push(before[i - 1]));
                    assert(self.messages@.subrange(i as int, self.messages@.len() as int)
                        =~= all.subrange(j + 1, all.len() as int));
                }
            }
            proof {
                j = j + 1;
            }
        }
        proof {
            assert(all.subrange(j, all.len() as int).len() == 0);
            assert(all.subrange(0, j) =~= all);
            assert(self.messages@.subrange(0, i as int) =~= self.messages@);
        }
    }
}

} // verus!
