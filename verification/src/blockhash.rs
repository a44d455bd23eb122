use vstd::prelude::*;

verus! {

/// Seconds that a freshly fetched blockhash is held back before it is
/// presented, since RPC servers do not agree on new blockhashes at once.
pub const BLOCKHASH_PUBLISH_DELAY_SECS: u64 = 1;

/// Seconds between a presented blockhash and the next fetch.
pub const RECENT_BLOCKHASH_REFRESH_INTERVAL_SECS: u64 = 30;

/// Milliseconds that a reader waits before it looks again for a presented
/// blockhash.
pub const BLOCKHASH_POLL_MILLIS: u64 = 100;

/// What the fetcher does after it asked an RPC server for the latest
/// blockhash.
pub enum FetchAction {
    /// Wait `delay_secs`, present `hash`, then wait `refresh_secs` before the
    /// next fetch.
    Publish { hash: [u8; 32], delay_secs: u64, refresh_secs: u64 },
    /// Fetch again at once.
    Retry,
}

/// The action for the reply `fetched`, as `after_fetch` decides it.
pub open spec fn fetch_action(fetched: Option<[u8; 32]>) -> FetchAction {
    match fetched {
        Some(h) => FetchAction::Publish {
            hash: h,
            delay_secs: BLOCKHASH_PUBLISH_DELAY_SECS,
            refresh_secs: RECENT_BLOCKHASH_REFRESH_INTERVAL_SECS,
        },
        None => FetchAction::Retry,
    }
}

/// The blockhash presented after the action `a`, where `presented` was
/// presented before it.
pub open spec fn presented_after(presented: Option<[u8; 32]>, a: FetchAction) -> Option<[u8; 32]> {
    match a {
        FetchAction::Publish { hash, .. } => Some(hash),
        FetchAction::Retry => presented,
    }
}

/// The blockhash presented after the replies `fetches` to the fetcher's
/// requests, in order, from none at the start.
pub open spec fn presented_over(fetches: Seq<Option<[u8; 32]>>) -> Option<[u8; 32]>
    decreases fetches.len(),
{
    if fetches.len() == 0 {
        None
    } else {
        presented_after(presented_over(fetches.drop_last()), fetch_action(fetches.last()))
    }
}

/// The fetcher's next step for the reply `fetched` (none where the request
/// failed): a fetched blockhash is presented after the delay and kept until
/// the refresh interval has passed; a failed request is made again.
pub fn after_fetch(fetched: Option<[u8; 32]>) -> (a: FetchAction)
    ensures
        a == fetch_action(fetched),
        match fetched {
            Some(h) => a == (FetchAction::Publish {
                hash: h,
                delay_secs: BLOCKHASH_PUBLISH_DELAY_SECS,
                refresh_secs: RECENT_BLOCKHASH_REFRESH_INTERVAL_SECS,
            }),
            None => a is Retry,
        },
{
    match fetched {
        Some(hash) => FetchAction::Publish {
            hash,
            delay_secs: BLOCKHASH_PUBLISH_DELAY_SECS,
            refresh_secs: RECENT_BLOCKHASH_REFRESH_INTERVAL_SECS,
        },
        None => FetchAction::Retry,
    }
}

/// The blockhash that the fetcher presents to the threads that build
/// transactions: none until a fetch has succeeded.
pub struct RecentBlockhashFetcher {
    recent_blockhash: Option<[u8; 32]>,
    replies: Ghost<Seq<Option<[u8; 32]>>>,
}

/// The reply to a fetch that the action `a` was decided for.
pub open spec fn reply_of(a: FetchAction) -> Option<[u8; 32]> {
    match a {
        FetchAction::Publish { hash, .. } => Some(hash),
        FetchAction::Retry => None,
    }
}

/// Presents what the action `a` brings and records its reply.
fn record_publish(
    recent_blockhash: &mut Option<[u8; 32]>,
    replies: &mut Ghost<Seq<Option<[u8; 32]>>>,
    a: &FetchAction,
)
    ensures
        *final(recent_blockhash) == presented_after(*old(recent_blockhash), *a),
        final(replies)@ == old(replies)@.push(reply_of(*a)),
    no_unwind
{
    match a {
        FetchAction::Publish { hash, .. } => {
            *recent_blockhash = Some(*hash);
        },
        FetchAction::Retry => {},
    }
    *replies = Ghost(replies@.push(reply_of(*a)));
}

impl RecentBlockhashFetcher {
    #[verifier::type_invariant]
    closed spec fn inv(self) -> bool {
        self.recent_blockhash == presented_over(self.replies@)
    }

    /// The blockhash presented now.
    pub closed spec fn presented(&self) -> Option<[u8; 32]> {
        self.recent_blockhash
    }

    /// The replies to the fetches published so far, in order.
    pub closed spec fn replies(&self) -> Seq<Option<[u8; 32]>> {
        self.replies@
    }

    /// A fetcher that presents nothing yet.
    pub fn new() -> (f: RecentBlockhashFetcher)
        ensures
            f.presented() is None,
            f.replies() == Seq::<Option<[u8; 32]>>::empty(),
    {
        RecentBlockhashFetcher { recent_blockhash: None, replies: Ghost(Seq::empty()) }
    }

    /// Presents what the action `a` brings, once its delay has passed: the
    /// fetched blockhash, or the same as before after a failed request. What
    /// the fetcher presents is always what its replies so far give (see
    /// `presented_over` and `lemma_presented_blockhash`).
    pub fn publish(&mut self, a: &FetchAction)
        ensures
            final(self).presented() == presented_after(old(self).presented(), *a),
            final(self).replies() == old(self).replies().push(reply_of(*a)),
            final(self).presented() == presented_over(final(self).replies()),
    {
        proof {
            use_type_invariant(&*self);
            lemma_presented_step(self.replies@, reply_of(*a));
        }
        record_publish(&mut self.recent_blockhash, &mut self.replies, a);
        proof {
            use_type_invariant(&*self);
        }
    }

    /// What a reader does now: use the blockhash presented, or wait for one.
    pub fn get(&self) -> (a: ReadAction)
        ensures
            self.presented() == presented_over(self.replies()),
            match self.presented() {
                Some(h) => a == ReadAction::Use(h),
                None => a == ReadAction::WaitMillis(BLOCKHASH_POLL_MILLIS),
            },
    {
        proof {
            use_type_invariant(self);
        }
        read_presented(self.recent_blockhash)
    }
}

/// A fetcher made by `new` that has published the actions for the replies
/// `fetches`, in order, presents `presented_over(fetches)`: one more reply
/// takes it from `presented_over` of those before to that of all.
pub proof fn lemma_presented_step(fetches: Seq<Option<[u8; 32]>>, f: Option<[u8; 32]>)
    ensures
        presented_over(fetches.push(f)) == presented_after(presented_over(fetches), fetch_action(f)),
{
    assert(fetches.push(f).drop_last() =~= fetches);
}

/// The fetcher presents nothing before its first reply; once it has
/// presented a blockhash it never goes back to none; and what it presents is
/// the blockhash of the latest reply that brought one, each presented only
/// after `BLOCKHASH_PUBLISH_DELAY_SECS`.
pub proof fn lemma_presented_blockhash(fetches: Seq<Option<[u8; 32]>>, k: int)
    requires
        0 <= k <= fetches.len(),
    ensures
        presented_over(Seq::<Option<[u8; 32]>>::empty()) is None,
        presented_over(fetches.take(k)) is Some ==> presented_over(fetches) is Some,
        presented_over(fetches) matches Some(h) ==> exists|i: int|
            0 <= i < fetches.len() && fetches[i] == Some(h) && fetch_action(fetches[i]) == (FetchAction::Publish {
                hash: h,
                delay_secs: BLOCKHASH_PUBLISH_DELAY_SECS,
                refresh_secs: RECENT_BLOCKHASH_REFRESH_INTERVAL_SECS,
            }) && forall|j: int| i < j < fetches.len() ==> fetches[j] is None,
    decreases fetches.len(),
{
    if fetches.len() > 0 {
        let p = fetches.drop_last();
        if k < fetches.len() {
            assert(p.take(k) =~= fetches.take(k));
            lemma_presented_blockhash(p, k);
        } else {
            assert(fetches.take(k) =~= fetches);
            lemma_presented_blockhash(p, 0);
        }
        if fetches.last() is None {
            if let Some(h) = presented_over(fetches) {
                let i = choose|i: int|
                    0 <= i < p.len() && p[i] == Some(h) && fetch_action(p[i]) == (FetchAction::Publish {
                        hash: h,
                        delay_secs: BLOCKHASH_PUBLISH_DELAY_SECS,
                        refresh_secs: RECENT_BLOCKHASH_REFRESH_INTERVAL_SECS,
                    }) && forall|j: int| i < j < p.len() ==> p[j] is None;
                assert(fetches[i] == p[i]);
                assert forall|j: int| i < j < fetches.len() implies fetches[j] is None by {
                    if j < p.len() {
                        assert(fetches[j] == p[j]);
                    }
                }
            }
        } else {
            let i = fetches.len() - 1;
            assert(fetches[i] == fetches.last());
        }
    }
}

/// What a reader of the presented blockhash does.
pub enum ReadAction {
    /// Use this blockhash.
    Use([u8; 32]),
    /// Wait this many milliseconds and look again.
    WaitMillis(u64),
}

/// A reader's next step, given the blockhash presented so far (none before
/// the first): it uses the one presented, or waits for one.
pub fn read_presented(presented: Option<[u8; 32]>) -> (a: ReadAction)
    ensures
        match presented {
            Some(h) => a == ReadAction::Use(h),
            None => a == ReadAction::WaitMillis(BLOCKHASH_POLL_MILLIS),
        },
{
    match presented {
        Some(h) => ReadAction::Use(h),
        None => ReadAction::WaitMillis(BLOCKHASH_POLL_MILLIS),
    }
}

} // verus!
