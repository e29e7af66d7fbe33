//! The inhibitor registry: the cookie-keyed store of active inhibitions.
//!
//! Each successful `inhibit` RPC call stores one [`StoredInhibitor`] under a
//! freshly chosen 32-bit cookie, the only identifier the RPC caller ever
//! sees. `un_inhibit` retires a cookie and hands the stored inhibitor back
//! to the caller for destruction; an unknown cookie is a successful no-op,
//! never an error. Cookies are drawn at random and retried on collision, so
//! a cookie is unique among the entries it coexists with, though a retired
//! cookie may be reissued later.
//!
//! The registry expects exclusive access for each operation (the caller
//! guards it with a lock); under that discipline every operation here is
//! one atomic state transition on the cookie map.

use vstd::prelude::*;
use std::collections::HashMap;

verus! {

/// An opaque identifier for one live compositor-side inhibitor object.
/// The connection owner keeps the mapping from identifiers to protocol
/// objects; the registry needs only their identity.
#[derive(Clone, Copy, PartialEq, Eq, Structural, Debug)]
pub struct InhibitorHandle {
    pub id: u64,
}

/// One active inhibition request: the compositor-side inhibitor that backs
/// it, the requesting application's name, and its stated reason.
#[derive(PartialEq, Debug)]
pub struct StoredInhibitor {
    pub inhibitor: InhibitorHandle,
    pub name: String,
    pub reason: String,
}

/// The cookie-keyed store of active inhibitors: the single source of truth
/// for "is this cookie currently active".
pub struct InhibitorRegistry {
    inhibitors_by_cookie: HashMap<u32, StoredInhibitor>,
}

impl View for InhibitorRegistry {
    type V = Map<u32, StoredInhibitor>;

    closed spec fn view(&self) -> Map<u32, StoredInhibitor> {
        self.inhibitors_by_cookie@
    }
}

/// Relies on rand::random: one draw of a 32-bit value. The draw is random,
/// so nothing is assumed about which value comes back.
#[verifier::external_body]
fn random_cookie() -> u32 {
    rand::random()
}

impl InhibitorRegistry {
    /// A registry is well formed when no two entries share an inhibitor:
    /// every live inhibitor is reachable from exactly one entry, so each
    /// is destroyed at most once.
    pub open spec fn wf(self) -> bool {
        forall|c1: u32, c2: u32|
            self@.contains_key(c1) && self@.contains_key(c2) && c1 != c2
                ==> self@[c1].inhibitor != self@[c2].inhibitor
    }

    /// An empty registry: no cookie is active.
    pub fn new() -> (r: InhibitorRegistry)
        ensures
            r@ == Map::<u32, StoredInhibitor>::empty(),
            r.wf(),
    {
        InhibitorRegistry { inhibitors_by_cookie: HashMap::new() }
    }

    /// Whether `cookie` is currently active.
    pub fn contains(&self, cookie: u32) -> (r: bool)
        ensures
            r == self@.contains_key(cookie),
    {
        self.inhibitors_by_cookie.contains_key(&cookie)
    }

    /// How many inhibitions are currently active.
    pub fn len(&self) -> (n: usize)
        ensures
            n == self@.len(),
    {
        self.inhibitors_by_cookie.len()
    }

    /// The entry stored under `cookie`, if that cookie is active.
    pub fn get(&self, cookie: u32) -> (r: Option<&StoredInhibitor>)
        ensures
            match r {
                Some(stored) => self@.contains_key(cookie) && *stored == self@[cookie],
                None => !self@.contains_key(cookie),
            },
    {
        self.inhibitors_by_cookie.get(&cookie)
    }

    /// Store one inhibitor under a cookie not currently in use: draw one
    /// uniform-random candidate and, on collision, probe onward from that
    /// random start until a free cookie turns up. At most `len + 1`
    /// distinct candidates are tried, so a free one is always reached.
    /// The freshness requirement on the inhibitor is the registry
    /// invariant: the caller stores each created inhibitor once.
    #[verifier::loop_isolation(false)]
    pub fn insert_inhibitor(&mut self, inhibitor: StoredInhibitor) -> (cookie: u32)
        requires
            old(self).wf(),
            old(self)@.len() < 0x1_0000_0000,
            forall|c: u32| old(self)@.contains_key(c)
                ==> old(self)@[c].inhibitor != inhibitor.inhibitor,
        ensures
            !old(self)@.contains_key(cookie),
            final(self)@ == old(self)@.insert(cookie, inhibitor),
            final(self).wf(),
    {
        let first = random_cookie();
        let mut k: u64 = 0;
        let ghost mut probed: Set<u32> = Set::empty();
        loop
            invariant
                self@ == old(self)@,
                k <= self@.len(),
                probed.finite(),
                probed.len() == k,
                probed.subset_of(self@.dom()),
                forall|x: u32| probed.contains(x) ==> exists|i: u32|
                    (i as u64) < k && x == #[trigger] vstd::wrapping::u32_specs::wrapping_add(
                        first,
                        i,
                    ),
            decreases self@.len() - k,
        {
            let cookie = first.wrapping_add(k as u32);
            if !self.inhibitors_by_cookie.contains_key(&cookie) {
                let _ = self.inhibitors_by_cookie.insert(cookie, inhibitor);
                return cookie;
            }
            proof {
                assert(!probed.contains(cookie)) by {
                    if probed.contains(cookie) {
                        let i = choose|i: u32|
                            (i as u64) < k && cookie
                                == #[trigger] vstd::wrapping::u32_specs::wrapping_add(first, i);
                        assert(i != k as u32);
                    }
                }
                probed = probed.insert(cookie);
                vstd::set_lib::lemma_len_subset(probed, self@.dom());
                assert(cookie == vstd::wrapping::u32_specs::wrapping_add(first, k as u32));
                assert(forall|x: u32| probed.contains(x) ==> exists|i: u32|
                    (i as u64) < k + 1 && x == #[trigger] vstd::wrapping::u32_specs::wrapping_add(
                        first,
                        i,
                    ));
            }
            k = k + 1;
        }
    }

    /// The whole RPC-facing inhibit operation once the compositor object
    /// exists: store it with the caller's application name and reason,
    /// and return the fresh cookie. Never fails.
    pub fn inhibit(
        &mut self,
        inhibitor: InhibitorHandle,
        application_name: String,
        reason_for_inhibit: String,
    ) -> (cookie: u32)
        requires
            old(self).wf(),
            old(self)@.len() < 0x1_0000_0000,
            forall|c: u32| old(self)@.contains_key(c)
                ==> old(self)@[c].inhibitor != inhibitor,
        ensures
            !old(self)@.contains_key(cookie),
            final(self)@ == old(self)@.insert(
                cookie,
                (StoredInhibitor {
                    inhibitor,
                    name: application_name,
                    reason: reason_for_inhibit,
                }),
            ),
            final(self).wf(),
    {
        self.insert_inhibitor(
            StoredInhibitor { inhibitor, name: application_name, reason: reason_for_inhibit },
        )
    }

    /// The whole RPC-facing un-inhibit operation: retire `cookie` and hand
    /// back the inhibitor it guarded, for the caller to destroy. A cookie
    /// that is not active is a successful no-op and hands back nothing:
    /// the operation always succeeds.
    pub fn un_inhibit(&mut self, cookie: u32) -> (removed: Option<StoredInhibitor>)
        requires
            old(self).wf(),
        ensures
            final(self)@ == old(self)@.remove(cookie),
            removed == if old(self)@.contains_key(cookie) {
                Some(old(self)@[cookie])
            } else {
                None::<StoredInhibitor>
            },
            final(self).wf(),
    {
        self.inhibitors_by_cookie.remove(&cookie)
    }
}

/// Cookies of coexisting entries are pairwise distinct: an inhibit
/// operation chooses its cookie outside the registry's current domain, so
/// a second one, seeing the first entry, can never hand out the same
/// cookie while both are live.
pub proof fn lemma_cookies_pairwise_distinct(
    m: Map<u32, StoredInhibitor>,
    c1: u32,
    s1: StoredInhibitor,
    c2: u32,
)
    requires
        !m.contains_key(c1),
        !m.insert(c1, s1).contains_key(c2),
    ensures
        c1 != c2,
{
}

/// The combined effect of a sequence of inhibit operations on the registry
/// model: each call inserts its entry under the cookie it returned.
pub open spec fn after_inhibits(
    m: Map<u32, StoredInhibitor>,
    cookies: Seq<u32>,
    entries: Seq<StoredInhibitor>,
) -> Map<u32, StoredInhibitor>
    decreases cookies.len(),
{
    if cookies.len() == 0 {
        m
    } else {
        after_inhibits(
            m.insert(cookies[0], entries[0]),
            cookies.drop_first(),
            entries.drop_first(),
        )
    }
}

/// What the freshness postcondition of `inhibit` gives for a sequence of
/// calls: each returned cookie lies outside the registry's domain at the
/// moment of its own call.
pub open spec fn cookies_fresh(
    m: Map<u32, StoredInhibitor>,
    cookies: Seq<u32>,
    entries: Seq<StoredInhibitor>,
) -> bool
    decreases cookies.len(),
{
    cookies.len() == 0 || (!m.contains_key(cookies[0]) && cookies_fresh(
        m.insert(cookies[0], entries[0]),
        cookies.drop_first(),
        entries.drop_first(),
    ))
}

proof fn lemma_fresh_cookies_avoid_key(
    m: Map<u32, StoredInhibitor>,
    cookies: Seq<u32>,
    entries: Seq<StoredInhibitor>,
    k: u32,
)
    requires
        entries.len() == cookies.len(),
        cookies_fresh(m, cookies, entries),
        m.contains_key(k),
    ensures
        forall|i: int| 0 <= i < cookies.len() ==> cookies[i] != k,
    decreases cookies.len(),
{
    if cookies.len() == 0 {
    } else {
        lemma_fresh_cookies_avoid_key(
            m.insert(cookies[0], entries[0]),
            cookies.drop_first(),
            entries.drop_first(),
            k,
        );
        assert forall|i: int| 0 <= i < cookies.len() implies cookies[i] != k by {
            if i > 0 {
                assert(cookies.drop_first()[i - 1] == cookies[i]);
            }
        }
    }
}

proof fn lemma_after_inhibits_keeps_key(
    m: Map<u32, StoredInhibitor>,
    cookies: Seq<u32>,
    entries: Seq<StoredInhibitor>,
    k: u32,
)
    requires
        entries.len() == cookies.len(),
        m.contains_key(k),
    ensures
        after_inhibits(m, cookies, entries).contains_key(k),
    decreases cookies.len(),
{
    if cookies.len() == 0 {
    } else {
        lemma_after_inhibits_keeps_key(
            m.insert(cookies[0], entries[0]),
            cookies.drop_first(),
            entries.drop_first(),
            k,
        );
    }
}

/// For any sequence of inhibit operations on any starting registry, the
/// returned cookies all coexist in the resulting registry and are pairwise
/// distinct: each call's cookie lies outside a domain that already holds
/// every earlier one.
pub proof fn lemma_inhibit_sequence_cookies_distinct(
    m: Map<u32, StoredInhibitor>,
    cookies: Seq<u32>,
    entries: Seq<StoredInhibitor>,
)
    requires
        entries.len() == cookies.len(),
        cookies_fresh(m, cookies, entries),
    ensures
        forall|i: int, j: int| 0 <= i < j < cookies.len() ==> cookies[i] != cookies[j],
        forall|i: int| 0 <= i < cookies.len()
            ==> after_inhibits(m, cookies, entries).contains_key(#[trigger] cookies[i]),
    decreases cookies.len(),
{
    if cookies.len() == 0 {
    } else {
        let m1 = m.insert(cookies[0], entries[0]);
        let rest_cookies = cookies.drop_first();
        let rest_entries = entries.drop_first();
        lemma_fresh_cookies_avoid_key(m1, rest_cookies, rest_entries, cookies[0]);
        lemma_inhibit_sequence_cookies_distinct(m1, rest_cookies, rest_entries);
        lemma_after_inhibits_keeps_key(m1, rest_cookies, rest_entries, cookies[0]);
        assert forall|i: int, j: int| 0 <= i < j < cookies.len()
            implies cookies[i] != cookies[j] by {
            if i == 0 {
                assert(rest_cookies[j - 1] == cookies[j]);
            } else {
                assert(rest_cookies[i - 1] == cookies[i]);
                assert(rest_cookies[j - 1] == cookies[j]);
            }
        }
        assert forall|i: int| 0 <= i < cookies.len()
            implies after_inhibits(m, cookies, entries).contains_key(#[trigger] cookies[i]) by {
            if i > 0 {
                assert(rest_cookies[i - 1] == cookies[i]);
            }
        }
    }
}

/// Revoking the same cookie twice succeeds both times: the first removal
/// retires the cookie, and the second finds nothing, changes nothing, and
/// hands out no inhibitor to destroy.
pub proof fn lemma_un_inhibit_idempotent(m: Map<u32, StoredInhibitor>, c: u32)
    ensures
        !m.remove(c).contains_key(c),
        m.remove(c).remove(c) == m.remove(c),
{
    assert(m.remove(c).remove(c) =~= m.remove(c));
}

/// One full lifecycle. After an inhibit operation stores `s` under the
/// fresh cookie `c`, the registry holds exactly one entry for `c` and it
/// carries the application name and reason given. Retiring `c` hands back
/// exactly `s` for destruction and restores the registry, and retiring `c`
/// again hands back nothing: the inhibitor is destroyed exactly once.
pub proof fn lemma_inhibit_lifecycle(m: Map<u32, StoredInhibitor>, c: u32, s: StoredInhibitor)
    requires
        !m.contains_key(c),
    ensures
        m.insert(c, s).contains_key(c),
        m.insert(c, s)[c] == s,
        m.insert(c, s).remove(c) == m,
        !m.insert(c, s).remove(c).contains_key(c),
{
    assert(m.insert(c, s).remove(c) =~= m);
}

} // verus!
