use vstd::prelude::*;

verus! {

use vstd::arithmetic::div_mod::{lemma_basic_div, lemma_remainder_lower};
use crate::handlers::{login, session_cookie_ok, LoginOutcome};
use crate::models::{AppState, LoginPayload};

/// One client's token bucket: the tokens still available, and the moment in
/// milliseconds up to which refill has been accounted.
pub struct Bucket {
    pub client: u128,
    pub tokens: u32,
    pub stamp: u64,
}

/// Token-bucket throttle on the login path, keyed by client address: each
/// client may burst up to `burst` attempts, and regains one attempt every
/// `refill_millis` milliseconds.
pub struct RateLimiter {
    pub burst: u32,
    pub refill_millis: u64,
    pub buckets: Vec<Bucket>,
}

/// No two buckets belong to the same client.
pub open spec fn unique_clients(s: Seq<Bucket>) -> bool {
    forall|i: int, j: int|
        0 <= i < j < s.len() ==> s[i].client != s[j].client
}

/// The bucket of `client`, when the limiter has seen it.
pub open spec fn find_client(s: Seq<Bucket>, client: u128) -> Option<Bucket> {
    if exists|i: int| 0 <= i < s.len() && s[i].client == client {
        Some(s[choose|i: int| 0 <= i < s.len() && s[i].client == client])
    } else {
        None
    }
}

proof fn lemma_find_at(s: Seq<Bucket>, client: u128, i: int)
    requires
        unique_clients(s),
        0 <= i < s.len(),
        s[i].client == client,
    ensures
        find_client(s, client) == Some(s[i]),
{
    let k = choose|k: int| 0 <= k < s.len() && s[k].client == client;
    if k != i {
        if k < i {
            assert(s[k].client != s[i].client);
        } else {
            assert(s[i].client != s[k].client);
        }
        assert(false);
    }
}

proof fn lemma_find_absent(s: Seq<Bucket>, client: u128)
    requires
        forall|i: int| 0 <= i < s.len() ==> s[i].client != client,
    ensures
        find_client(s, client) is None,
{
}

/// A bucket's state after refilling up to `now`: time before the stamp adds
/// nothing; otherwise one token per whole refill interval elapsed, capped at
/// the burst allowance, the stamp advancing only over the intervals spent.
pub open spec fn refilled(
    tokens: u32,
    stamp: u64,
    now: u64,
    burst: u32,
    refill_millis: u64,
) -> (u32, u64)
    recommends
        refill_millis >= 1,
        tokens <= burst,
{
    if now <= stamp {
        (tokens, stamp)
    } else {
        let gained = ((now - stamp) as int) / (refill_millis as int);
        if tokens + gained >= burst {
            (burst, now)
        } else {
            ((tokens + gained) as u32, (stamp + gained * refill_millis) as u64)
        }
    }
}

/// One login attempt by one client: whether it is admitted to the password
/// check, and the client's bucket afterwards. A client the limiter has never
/// seen starts with a full burst allowance.
pub open spec fn client_step(
    state: Option<(u32, u64)>,
    now: u64,
    burst: u32,
    refill_millis: u64,
) -> (bool, (u32, u64))
    recommends
        burst >= 1,
        refill_millis >= 1,
{
    match state {
        None => (true, ((burst - 1) as u32, now)),
        Some((tokens, stamp)) => {
            let after = refilled(tokens, stamp, now, burst, refill_millis);
            if after.0 > 0 {
                (true, ((after.0 - 1) as u32, after.1))
            } else {
                (false, (0u32, after.1))
            }
        }
    }
}

impl RateLimiter {
    /// The limiter's invariant: a positive burst and refill interval, at
    /// most a full allowance in each bucket, one bucket per client.
    pub open spec fn wf(self) -> bool {
        &&& self.burst >= 1
        &&& self.refill_millis >= 1
        &&& forall|i: int|
            0 <= i < self.buckets@.len() ==> #[trigger] self.buckets@[i].tokens <= self.burst
        &&& unique_clients(self.buckets@)
    }

    /// The tokens and stamp the limiter holds for `client`, if any.
    pub open spec fn bucket_state(self, client: u128) -> Option<(u32, u64)> {
        match find_client(self.buckets@, client) {
            Some(b) => Some((b.tokens, b.stamp)),
            None => None,
        }
    }

    /// A fresh limiter that has seen no client.
    pub fn new(burst: u32, refill_millis: u64) -> (r: RateLimiter)
        requires
            burst >= 1,
            refill_millis >= 1,
        ensures
            r.wf(),
            r.burst == burst,
            r.refill_millis == refill_millis,
            forall|c: u128| r.bucket_state(c) is None,
    {
        let r = RateLimiter { burst, refill_millis, buckets: Vec::new() };
        proof {
            assert forall|c: u128| r.bucket_state(c) is None by {
                lemma_find_absent(r.buckets@, c);
            }
        }
        r
    }

    /// Records one login attempt by `client` at time `now` and decides it,
    /// exactly as `client_step` says; every other client's bucket is left
    /// as it was.
    pub fn check(&mut self, client: u128, now: u64) -> (allowed: bool)
        requires
            old(self).wf(),
        ensures
            final(self).wf(),
            final(self).burst == old(self).burst,
            final(self).refill_millis == old(self).refill_millis,
            allowed == client_step(
                old(self).bucket_state(client),
                now,
                old(self).burst,
                old(self).refill_millis,
            ).0,
            final(self).bucket_state(client) == Some(
                client_step(
                    old(self).bucket_state(client),
                    now,
                    old(self).burst,
                    old(self).refill_millis,
                ).1,
            ),
            forall|c: u128| c != client ==> final(self).bucket_state(c) == old(self).bucket_state(c),
    {
        let n = self.buckets.len();
        let mut i: usize = 0;
        while i < n
            invariant
                *self == *old(self),
                old(self).wf(),
                n == self.buckets@.len(),
                i <= n,
                forall|j: int| 0 <= j < i ==> self.buckets@[j].client != client,
            decreases n - i,
        {
            if self.buckets[i].client == client {
                let tokens = self.buckets[i].tokens;
                let stamp = self.buckets[i].stamp;
                proof {
                    lemma_find_at(self.buckets@, client, i as int);
                    assert(self.buckets@[i as int].tokens <= self.burst);
                }
                let after = self.refill_bucket(tokens, stamp, now);
                let allowed = after.0 > 0;
                let updated = Bucket {
                    client,
                    tokens: if allowed { after.0 - 1 } else { 0 },
                    stamp: after.1,
                };
                self.buckets[i] = updated;
                proof {
                    let pre = *old(self);
                    assert(self.buckets@ =~= pre.buckets@.update(i as int, updated));
                    assert(forall|k: int|
                        0 <= k < self.buckets@.len()
                            ==> self.buckets@[k].client == pre.buckets@[k].client);
                    assert forall|a: int, b: int| 0 <= a < b < self.buckets@.len()
                        implies self.buckets@[a].client != self.buckets@[b].client by {
                        assert(pre.buckets@[a].client != pre.buckets@[b].client);
                    }
                    assert forall|k: int| 0 <= k < self.buckets@.len()
                        implies #[trigger] self.buckets@[k].tokens <= self.burst by {
                        if k != i as int {
                            assert(pre.buckets@[k].tokens <= pre.burst);
                        }
                    }
                    lemma_find_at(self.buckets@, client, i as int);
                    assert forall|c: u128| c != client
                        implies self.bucket_state(c) == pre.bucket_state(c) by {
                        if exists|k: int|
                            0 <= k < pre.buckets@.len() && pre.buckets@[k].client == c {
                            let k = choose|k: int|
                                0 <= k < pre.buckets@.len() && pre.buckets@[k].client == c;
                            assert(self.buckets@[k].client == c);
                            lemma_find_at(pre.buckets@, c, k);
                            lemma_find_at(self.buckets@, c, k);
                            assert(k != i);
                        } else {
                            assert(forall|k: int|
                                0 <= k < self.buckets@.len() ==> self.buckets@[k].client != c);
                            lemma_find_absent(pre.buckets@, c);
                            lemma_find_absent(self.buckets@, c);
                        }
                    }
                }
                return allowed;
            }
            i = i + 1;
        }
        proof {
            lemma_find_absent(self.buckets@, client);
        }
        let fresh = Bucket { client, tokens: self.burst - 1, stamp: now };
        self.buckets.push(fresh);
        proof {
            let pre = *old(self);
            assert(self.buckets@ =~= pre.buckets@.push(fresh));
            assert forall|a: int, b: int| 0 <= a < b < self.buckets@.len()
                implies self.buckets@[a].client != self.buckets@[b].client by {
                if b == pre.buckets@.len() {
                    assert(pre.buckets@[a].client != client);
                } else {
                    assert(pre.buckets@[a].client != pre.buckets@[b].client);
                }
            }
            assert forall|k: int| 0 <= k < self.buckets@.len()
                implies #[trigger] self.buckets@[k].tokens <= self.burst by {
                if k != pre.buckets@.len() {
                    assert(pre.buckets@[k].tokens <= pre.burst);
                }
            }
            lemma_find_at(self.buckets@, client, pre.buckets@.len() as int);
            assert forall|c: u128| c != client
                implies self.bucket_state(c) == pre.bucket_state(c) by {
                if exists|k: int| 0 <= k < pre.buckets@.len() && pre.buckets@[k].client == c {
                    let k = choose|k: int|
                        0 <= k < pre.buckets@.len() && pre.buckets@[k].client == c;
                    lemma_find_at(pre.buckets@, c, k);
                    lemma_find_at(self.buckets@, c, k);
                } else {
                    assert(forall|k: int|
                        0 <= k < self.buckets@.len() ==> self.buckets@[k].client != c);
                    lemma_find_absent(pre.buckets@, c);
                    lemma_find_absent(self.buckets@, c);
                }
            }
        }
        true
    }

    /// Computes `refilled` executably.
    fn refill_bucket(&self, tokens: u32, stamp: u64, now: u64) -> (r: (u32, u64))
        requires
            self.wf(),
            tokens <= self.burst,
        ensures
            r == refilled(tokens, stamp, now, self.burst, self.refill_millis),
            r.0 <= self.burst,
            r.1 <= if now <= stamp { stamp } else { now },
    {
        if now <= stamp {
            (tokens, stamp)
        } else {
            let elapsed: u64 = now - stamp;
            let gained: u64 = elapsed / self.refill_millis;
            proof {
                lemma_remainder_lower(elapsed as int, self.refill_millis as int);
            }
            if gained >= (self.burst - tokens) as u64 {
                (self.burst, now)
            } else {
                (tokens + gained as u32, stamp + gained * self.refill_millis)
            }
        }
    }
}

/// The per-client bucket after a sequence of login attempts at the given
/// times, starting from a client the limiter has never seen.
pub open spec fn state_after_attempts(
    times: Seq<u64>,
    burst: u32,
    refill_millis: u64,
) -> Option<(u32, u64)>
    decreases times.len(),
{
    if times.len() == 0 {
        None
    } else {
        Some(
            client_step(
                state_after_attempts(times.drop_last(), burst, refill_millis),
                times.last(),
                burst,
                refill_millis,
            ).1,
        )
    }
}

/// Whether attempt number `i` (counting from zero) of the sequence is
/// admitted to the password check.
pub open spec fn attempt_admitted(
    times: Seq<u64>,
    i: int,
    burst: u32,
    refill_millis: u64,
) -> bool {
    client_step(
        state_after_attempts(times.take(i), burst, refill_millis),
        times[i],
        burst,
        refill_millis,
    ).0
}

proof fn lemma_window_state(times: Seq<u64>, k: int, burst: u32, refill_millis: u64)
    requires
        burst >= 1,
        refill_millis >= 1,
        0 <= k <= times.len(),
        forall|i: int| 0 <= i < times.len()
            ==> times[0] <= #[trigger] times[i] < times[0] + refill_millis,
    ensures
        state_after_attempts(times.take(k), burst, refill_millis) == if k == 0 {
            None::<(u32, u64)>
        } else {
            Some(((if k < burst { (burst - k) as u32 } else { 0u32 }), times[0]))
        },
    decreases k,
{
    if k > 0 {
        lemma_window_state(times, k - 1, burst, refill_millis);
        assert(times.take(k).drop_last() =~= times.take(k - 1));
        assert(times.take(k).last() == times[k - 1]);
        if k == 1 {
            // the first attempt opens the bucket with one token spent
        } else {
            let now = times[k - 1];
            let stamp = times[0];
            if now > stamp {
                lemma_basic_div((now - stamp) as int, refill_millis as int);
            }
        }
    }
}

/// Within one refill window, a run of login attempts from one client is
/// admitted exactly up to the burst allowance: every attempt beyond it is
/// throttled, whatever password each attempt carries.
pub proof fn lemma_burst_exhausted(times: Seq<u64>, burst: u32, refill_millis: u64)
    requires
        burst >= 1,
        refill_millis >= 1,
        forall|i: int| 0 <= i < times.len()
            ==> times[0] <= #[trigger] times[i] < times[0] + refill_millis,
    ensures
        forall|i: int| 0 <= i < times.len()
            ==> (#[trigger] attempt_admitted(times, i, burst, refill_millis) <==> i < burst),
{
    assert forall|i: int| 0 <= i < times.len()
        implies (#[trigger] attempt_admitted(times, i, burst, refill_millis) <==> i < burst) by {
        lemma_window_state(times, i, burst, refill_millis);
        if i > 0 {
            let now = times[i];
            let stamp = times[0];
            if now > stamp {
                lemma_basic_div((now - stamp) as int, refill_millis as int);
            }
        }
    }
}

/// The outcome of a login request as a whole: throttled before the password
/// is ever compared, or decided by the password check.
pub enum ThrottledLogin {
    RateLimited,
    Attempted(LoginOutcome),
}

/// Handles one login request: the rate limiter decides first, from the
/// client address and the clock alone; only an admitted attempt reaches the
/// password comparison.
pub fn throttled_login(
    limiter: &mut RateLimiter,
    client: u128,
    now: u64,
    state: &AppState,
    payload: &LoginPayload,
) -> (r: ThrottledLogin)
    requires
        old(limiter).wf(),
    ensures
        final(limiter).wf(),
        final(limiter).burst == old(limiter).burst,
        final(limiter).refill_millis == old(limiter).refill_millis,
        final(limiter).bucket_state(client) == Some(
            client_step(
                old(limiter).bucket_state(client),
                now,
                old(limiter).burst,
                old(limiter).refill_millis,
            ).1,
        ),
        forall|c: u128|
            c != client ==> final(limiter).bucket_state(c) == old(limiter).bucket_state(c),
        r is RateLimited <==> !client_step(
            old(limiter).bucket_state(client),
            now,
            old(limiter).burst,
            old(limiter).refill_millis,
        ).0,
        r matches ThrottledLogin::Attempted(outcome) ==> {
            &&& ((payload.password@ == state.password@) <==> outcome is Accepted)
            &&& (outcome matches LoginOutcome::Accepted { cookie } ==> session_cookie_ok(
                &cookie,
                state,
            ))
        },
{
    if limiter.check(client, now) {
        ThrottledLogin::Attempted(login(state, payload))
    } else {
        ThrottledLogin::RateLimited
    }
}

} // verus!
