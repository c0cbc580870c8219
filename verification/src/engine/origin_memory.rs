//! What is remembered of servers.

use vstd::prelude::*;
use crate::engine::challenge::ChallengeKind;
use crate::engine::transport::{ClientTuning, H2TuningSource};
use crate::engine::types::ProtocolFamily;
use crate::lru::{is_pruned, lemma_table_len, table_of, LruEntry, LruTable};
use crate::text::owned;
use crate::units::min_int;

verus! {

pub const ORIGIN_PHI_RATIO_CAPACITY: usize = 256;

pub const ORIGIN_MEMORY_CAPACITY: usize = 1000;

/// The bit pattern of the ratio that a first geometric division has, 1.5 as a
/// binary64 number.
pub const INITIAL_PHI_MAX_RATIO_BITS: u64 = 0x3FF8000000000000;

/// What is remembered of one server. Measures are kept as the bit patterns of
/// binary64 numbers.
#[derive(Debug, Clone, Copy, PartialEq, Eq)]
pub struct PersistedOriginProfile {
    pub phi_ratio_bits: Option<u64>,
    pub h2_tuning: Option<ClientTuning>,
    pub protocol_hint: Option<ProtocolFamily>,
    pub reuse_rate_bits: Option<u64>,
    pub handshake_ms_bits: Option<u64>,
    pub supports_ranges: Option<bool>,
    pub content_length_reliable: Option<bool>,
    pub saw_rate_limit: bool,
    pub cookies_used: Option<bool>,
    pub auth_used: Option<bool>,
    pub referer_used: Option<bool>,
    pub challenge_detected: Option<bool>,
    pub challenge_kind: Option<ChallengeKind>,
}

impl PersistedOriginProfile {
    /// Nothing is known.
    pub open spec fn blank() -> PersistedOriginProfile {
        PersistedOriginProfile {
            phi_ratio_bits: None,
            h2_tuning: None,
            protocol_hint: None,
            reuse_rate_bits: None,
            handshake_ms_bits: None,
            supports_ranges: None,
            content_length_reliable: None,
            saw_rate_limit: false,
            cookies_used: None,
            auth_used: None,
            referer_used: None,
            challenge_detected: None,
            challenge_kind: None,
        }
    }

    pub fn new() -> (r: PersistedOriginProfile)
        ensures
            r == PersistedOriginProfile::blank(),
    {
        PersistedOriginProfile {
            phi_ratio_bits: None,
            h2_tuning: None,
            protocol_hint: None,
            reuse_rate_bits: None,
            handshake_ms_bits: None,
            supports_ranges: None,
            content_length_reliable: None,
            saw_rate_limit: false,
            cookies_used: None,
            auth_used: None,
            referer_used: None,
            challenge_detected: None,
            challenge_kind: None,
        }
    }
}

/// A part of a session that a server was sent.
#[derive(Debug, Clone, Copy, PartialEq, Eq, Structural)]
pub enum SessionRequirementField {
    Cookies,
    Auth,
    Referer,
}

/// What is remembered of sessions with one server.
#[derive(Debug, Clone, Copy, PartialEq, Eq, Structural)]
pub struct SessionMemoryInfo {
    pub cookies_used: Option<bool>,
    pub auth_used: Option<bool>,
    pub referer_used: Option<bool>,
    pub challenge_detected: Option<bool>,
    pub challenge_kind: Option<ChallengeKind>,
    pub saw_rate_limit: bool,
}

/// Something that was learned of a server.
#[derive(Debug, Clone, Copy, PartialEq, Eq)]
pub enum OriginNote {
    Protocol(ProtocolFamily),
    PhiRatio(u64),
    H2Tuning(ClientTuning),
    ReuseMetrics { reuse_rate_bits: u64, handshake_ms_bits: u64 },
    RangeSupport(bool),
    ContentLengthReliable(bool),
    RateLimit,
    SessionRequirement(SessionRequirementField, bool),
    Challenge(Option<ChallengeKind>),
}

impl OriginNote {
    /// `p` with the note taken.
    pub open spec fn noted(self, p: PersistedOriginProfile) -> PersistedOriginProfile {
        match self {
            OriginNote::Protocol(v) => PersistedOriginProfile { protocol_hint: Some(v), ..p },
            OriginNote::PhiRatio(v) => PersistedOriginProfile { phi_ratio_bits: Some(v), ..p },
            OriginNote::H2Tuning(v) => PersistedOriginProfile { h2_tuning: Some(v), ..p },
            OriginNote::ReuseMetrics { reuse_rate_bits, handshake_ms_bits } => PersistedOriginProfile {
                reuse_rate_bits: Some(reuse_rate_bits),
                handshake_ms_bits: Some(handshake_ms_bits),
                ..p
            },
            OriginNote::RangeSupport(v) => PersistedOriginProfile { supports_ranges: Some(v), ..p },
            OriginNote::ContentLengthReliable(v) => PersistedOriginProfile { content_length_reliable: Some(v), ..p },
            OriginNote::RateLimit => PersistedOriginProfile { saw_rate_limit: true, ..p },
            OriginNote::SessionRequirement(SessionRequirementField::Cookies, v) => PersistedOriginProfile {
                cookies_used: Some(v),
                ..p
            },
            OriginNote::SessionRequirement(SessionRequirementField::Auth, v) => PersistedOriginProfile {
                auth_used: Some(v),
                ..p
            },
            OriginNote::SessionRequirement(SessionRequirementField::Referer, v) => PersistedOriginProfile {
                referer_used: Some(v),
                ..p
            },
            OriginNote::Challenge(kind) => PersistedOriginProfile {
                challenge_detected: Some(kind is Some),
                challenge_kind: kind,
                ..p
            },
        }
    }

    fn take(self, p: &mut PersistedOriginProfile)
        ensures
            *final(p) == self.noted(*old(p)),
    {
        match self {
            OriginNote::Protocol(v) => {
                p.protocol_hint = Some(v);
            },
            OriginNote::PhiRatio(v) => {
                p.phi_ratio_bits = Some(v);
            },
            OriginNote::H2Tuning(v) => {
                p.h2_tuning = Some(v);
            },
            OriginNote::ReuseMetrics { reuse_rate_bits, handshake_ms_bits } => {
                p.reuse_rate_bits = Some(reuse_rate_bits);
                p.handshake_ms_bits = Some(handshake_ms_bits);
            },
            OriginNote::RangeSupport(v) => {
                p.supports_ranges = Some(v);
            },
            OriginNote::ContentLengthReliable(v) => {
                p.content_length_reliable = Some(v);
            },
            OriginNote::RateLimit => {
                p.saw_rate_limit = true;
            },
            OriginNote::SessionRequirement(field, v) => match field {
                SessionRequirementField::Cookies => {
                    p.cookies_used = Some(v);
                },
                SessionRequirementField::Auth => {
                    p.auth_used = Some(v);
                },
                SessionRequirementField::Referer => {
                    p.referer_used = Some(v);
                },
            },
            OriginNote::Challenge(kind) => {
                p.challenge_detected = Some(kind.is_some());
                p.challenge_kind = kind;
            },
        }
    }
}

/// The profile of `origin` in `m`, or a blank one.
pub open spec fn profile_of(m: Map<Seq<char>, (PersistedOriginProfile, u64)>, origin: Seq<char>) -> PersistedOriginProfile {
    if m.dom().contains(origin) {
        m[origin].0
    } else {
        PersistedOriginProfile::blank()
    }
}

/// What is remembered of servers, by origin.
#[derive(Debug)]
pub struct OriginMemoryStore {
    pub table: LruTable<PersistedOriginProfile>,
    pub enabled: bool,
}

/// The servers of which a ratio is remembered.
pub open spec fn rated(m: Map<Seq<char>, (PersistedOriginProfile, u64)>) -> Set<Seq<char>> {
    m.dom().filter(|k: Seq<char>| m[k].0.phi_ratio_bits is Some)
}

/// The names of those of the first `n` entries that hold a ratio.
spec fn rated_keys(entries: Seq<LruEntry<PersistedOriginProfile>>, n: int) -> Set<Seq<char>>
    decreases n,
{
    if n <= 0 {
        Set::empty()
    } else if entries[n - 1].value.phi_ratio_bits is Some {
        rated_keys(entries, n - 1).insert(entries[n - 1].key@)
    } else {
        rated_keys(entries, n - 1)
    }
}

proof fn lemma_rated_keys(entries: Seq<LruEntry<PersistedOriginProfile>>, n: int)
    requires
        0 <= n <= entries.len(),
    ensures
        rated_keys(entries, n).finite(),
        forall|k: Seq<char>| #[trigger]
            rated_keys(entries, n).contains(k) <==> exists|p: int|
                0 <= p < n && (#[trigger] entries[p]).key@ == k && entries[p].value.phi_ratio_bits is Some,
    decreases n,
{
    if n > 0 {
        lemma_rated_keys(entries, n - 1);
        assert forall|k: Seq<char>| #[trigger]
            rated_keys(entries, n).contains(k) <==> exists|p: int|
                0 <= p < n && (#[trigger] entries[p]).key@ == k && entries[p].value.phi_ratio_bits is Some by {
            if rated_keys(entries, n - 1).contains(k) {
                let p = choose|p: int|
                    0 <= p < n - 1 && (#[trigger] entries[p]).key@ == k && entries[p].value.phi_ratio_bits is Some;
                assert(entries[p].key@ == k);
            } else if rated_keys(entries, n).contains(k) {
                assert(entries[n - 1].key@ == k);
            }
        }
    }
}

/// The windows that are remembered, each as a hint.
pub open spec fn hinted_tunings(m: Map<Seq<char>, (PersistedOriginProfile, u64)>) -> Map<Seq<char>, (ClientTuning, u64)> {
    Map::new(
        |k: Seq<char>| m.dom().contains(k) && m[k].0.h2_tuning is Some,
        |k: Seq<char>| (ClientTuning { source: H2TuningSource::OriginMemoryHint, ..m[k].0.h2_tuning->0 }, m[k].1),
    )
}

impl OriginMemoryStore {
    /// Every name occurs once, and nothing was used later than now.
    pub open spec fn wf(&self) -> bool {
        self.table.wf() && forall|k: Seq<char>| #[trigger]
            self@.dom().contains(k) ==> self@[k].1 <= self.table.usage_tick
    }

    /// What is remembered with a note taken, before anything is forgotten.
    pub open spec fn with_note(&self, origin: Seq<char>, note: OriginNote) -> Map<
        Seq<char>,
        (PersistedOriginProfile, u64),
    > {
        self@.insert(origin, (note.noted(profile_of(self@, origin)), self.table.next()))
    }

    /// `after` is the store with a note taken.
    pub open spec fn has_noted(&self, origin: Seq<char>, note: OriginNote, after: OriginMemoryStore) -> bool {
        let noted = self.with_note(origin, note);
        &&& is_pruned(noted, after@, ORIGIN_MEMORY_CAPACITY as int)
        &&& noted.dom().len() <= ORIGIN_MEMORY_CAPACITY ==> after@ == noted
        &&& after.table.usage_tick == self.table.next()
    }

    pub open spec fn view(&self) -> Map<Seq<char>, (PersistedOriginProfile, u64)> {
        self.table@
    }

    /// A store with nothing in it.
    pub fn empty(enabled: bool) -> (r: OriginMemoryStore)
        ensures
            r.wf(),
            r@ == Map::<Seq<char>, (PersistedOriginProfile, u64)>::empty(),
            r.table.usage_tick == 0,
            r.enabled == enabled,
    {
        OriginMemoryStore { table: LruTable::new(), enabled }
    }

    /// The store that continues from what was kept: each origin with its
    /// profile and the tick of its last use. The ticks go on from the highest.
    pub fn load_enabled(kept: Vec<LruEntry<PersistedOriginProfile>>) -> (r: OriginMemoryStore)
        requires
            crate::lru::distinct(kept@),
        ensures
            r.wf(),
            r.enabled,
            r@ == table_of(kept@),
            forall|i: int| 0 <= i < kept@.len() ==> (#[trigger] kept@[i]).last_used_tick <= r.table.usage_tick,
            r.table.usage_tick == 0 || exists|i: int|
                0 <= i < kept@.len() && (#[trigger] kept@[i]).last_used_tick == r.table.usage_tick,
    {
        let mut tick: u64 = 0;
        let mut i: usize = 0;
        while i < kept.len()
            invariant
                i <= kept@.len(),
                forall|k: int| 0 <= k < i ==> (#[trigger] kept@[k]).last_used_tick <= tick,
                tick == 0 || exists|k: int| 0 <= k < i && (#[trigger] kept@[k]).last_used_tick == tick,
            decreases kept@.len() - i,
        {
            if kept[i].last_used_tick > tick {
                tick = kept[i].last_used_tick;
                assert(kept@[i as int].last_used_tick == tick);
            }
            i = i + 1;
        }
        let r = OriginMemoryStore { table: LruTable { entries: kept, usage_tick: tick }, enabled: true };
        proof {
            assert forall|k: Seq<char>| #[trigger] r@.dom().contains(k) implies r@[k].1 <= tick by {
                let p = choose|p: int| crate::lru::names(r.table.entries@, k, p);
                crate::lru::lemma_position(r.table.entries@, p);
            }
        }
        r
    }

    /// Counts a use of `origin` and gives its profile, a blank one if it is new.
    fn touch_profile(&mut self, origin: &str) -> (p: PersistedOriginProfile)
        requires
            old(self).wf(),
        ensures
            final(self).wf(),
            final(self).enabled == old(self).enabled,
            p == profile_of(old(self)@, origin@),
            final(self).table.usage_tick == old(self).table.next(),
            final(self)@ == old(self)@.insert(origin@, (p, old(self).table.next())),
    {
        let tick: u64 = self.table.next_tick();
        let p: PersistedOriginProfile = match self.table.peek(origin) {
            Some(p) => p,
            None => PersistedOriginProfile::new(),
        };
        self.table.put(owned(origin), p, tick);
        p
    }

    /// The protocol that `origin` is expected to speak.
    pub fn protocol_hint_for_origin(&mut self, origin: &str) -> (r: Option<ProtocolFamily>)
        requires
            old(self).wf(),
        ensures
            final(self).wf(),
            final(self).enabled == old(self).enabled,
            !old(self).enabled ==> r is None && *final(self) == *old(self),
            old(self).enabled ==> {
                let p = profile_of(old(self)@, origin@);
                &&& r == p.protocol_hint
                &&& final(self)@ == old(self)@.insert(origin@, (p, old(self).table.next()))
                &&& final(self).table.usage_tick == old(self).table.next()
            },
    {
        if !self.enabled {
            return None;
        }
        let p: PersistedOriginProfile = self.touch_profile(origin);
        p.protocol_hint
    }

    /// Takes a note of `origin`. Of more than `ORIGIN_MEMORY_CAPACITY`
    /// servers, those that were not used for longest are forgotten.
    pub fn note(&mut self, origin: &str, note: OriginNote)
        requires
            old(self).wf(),
        ensures
            final(self).wf(),
            final(self).enabled == old(self).enabled,
            !old(self).enabled ==> *final(self) == *old(self),
            old(self).enabled ==> old(self).has_noted(origin@, note, *final(self)),
    {
        if !self.enabled {
            return ;
        }
        let mut p: PersistedOriginProfile = self.touch_profile(origin);
        note.take(&mut p);
        let tick: u64 = self.table.usage_tick;
        self.table.put(owned(origin), p, tick);
        proof {
            let v = note.noted(profile_of(old(self)@, origin@));
            assert(self@ =~= old(self)@.insert(origin@, (v, old(self).table.next())));
        }
        self.table.prune_lru(ORIGIN_MEMORY_CAPACITY);
    }

    /// What is remembered of sessions with `origin`.
    pub fn session_info_for_origin(&self, origin: &str) -> (r: Option<SessionMemoryInfo>)
        requires
            self.wf(),
        ensures
            r == if self.enabled && self@.dom().contains(origin@) {
                let p = self@[origin@].0;
                Some(
                    SessionMemoryInfo {
                        cookies_used: p.cookies_used,
                        auth_used: p.auth_used,
                        referer_used: p.referer_used,
                        challenge_detected: p.challenge_detected,
                        challenge_kind: p.challenge_kind,
                        saw_rate_limit: p.saw_rate_limit,
                    },
                )
            } else {
                None
            },
    {
        if !self.enabled {
            return None;
        }
        match self.table.peek(origin) {
            Some(p) => Some(
                SessionMemoryInfo {
                    cookies_used: p.cookies_used,
                    auth_used: p.auth_used,
                    referer_used: p.referer_used,
                    challenge_detected: p.challenge_detected,
                    challenge_kind: p.challenge_kind,
                    saw_rate_limit: p.saw_rate_limit,
                },
            ),
            None => None,
        }
    }

    pub fn memory_hit_for_origin(&self, origin: &str) -> (r: bool)
        requires
            self.wf(),
        ensures
            r == (self.enabled && self@.dom().contains(origin@)),
    {
        self.enabled && self.table.find(origin).is_some()
    }

    /// The ratios that are remembered, as a store of their own. Where they are
    /// more than it takes, it is left open which of them it holds.
    pub fn hydrate_phi_ratios(&self) -> (r: OriginPhiRatioStore)
        requires
            self.wf(),
        ensures
            r.wf(),
            r.table.usage_tick == self.table.usage_tick,
            r@.dom().len() == min_int(rated(self@).len() as int, ORIGIN_PHI_RATIO_CAPACITY as int),
            forall|k: Seq<char>| #[trigger]
                r@.dom().contains(k) ==> self@.dom().contains(k) && self@[k].0.phi_ratio_bits == Some(r@[k].0),
            rated(self@).len() <= ORIGIN_PHI_RATIO_CAPACITY ==> r@.dom() == rated(self@),
    {
        let mut store = OriginPhiRatioStore::new();
        let ghost all = self.table.entries@;
        proof {
            lemma_table_len(all);
            lemma_table_len(store.table.entries@);
        }
        let mut i: usize = 0;
        while i < self.table.entries.len()
            invariant
                self.wf(),
                all == self.table.entries@,
                i <= all.len(),
                store.wf(),
                store@.dom().finite(),
                store@.dom().subset_of(rated_keys(all, i as int)),
                rated_keys(all, i as int).finite(),
                store@.dom().len() == min_int(
                    rated_keys(all, i as int).len() as int,
                    ORIGIN_PHI_RATIO_CAPACITY as int,
                ),
                forall|k: Seq<char>| #[trigger]
                    store@.dom().contains(k) ==> self@.dom().contains(k) && self@[k].0.phi_ratio_bits == Some(
                        store@[k].0,
                    ),
            decreases all.len() - i,
        {
            let entry: &LruEntry<PersistedOriginProfile> = &self.table.entries[i];
            let ghost before = rated_keys(all, i as int);
            proof {
                crate::lru::lemma_position(all, i as int);
                lemma_rated_keys(all, i as int);
                assert(!before.contains(entry.key@));
            }
            match entry.value.phi_ratio_bits {
                Some(bits) => {
                    store.update_origin_ratio(owned(entry.key.as_str()), bits);
                },
                None => {},
            }
            i = i + 1;
        }
        store.table.usage_tick = self.table.usage_tick;
        proof {
            lemma_rated_keys(all, all.len() as int);
            assert(rated_keys(all, all.len() as int) =~= rated(self@)) by {
                assert forall|k: Seq<char>| rated(self@).contains(k) implies #[trigger] rated_keys(
                    all,
                    all.len() as int,
                ).contains(k) by {
                    let p = choose|p: int| crate::lru::names(all, k, p);
                    crate::lru::lemma_position(all, p);
                }
                assert forall|k: Seq<char>| #[trigger] rated_keys(all, all.len() as int).contains(k) implies rated(
                    self@,
                ).contains(k) by {
                    let p = choose|p: int|
                        0 <= p < all.len() && (#[trigger] all[p]).key@ == k && all[p].value.phi_ratio_bits is Some;
                    crate::lru::lemma_position(all, p);
                }
            }
            if rated(self@).len() <= ORIGIN_PHI_RATIO_CAPACITY {
                vstd::set_lib::lemma_subset_equality(store@.dom(), rated(self@));
            }
        }
        store
    }

    /// The windows that are remembered, as a store of their own.
    pub fn hydrate_h2_tunings(&self) -> (r: OriginH2TuningStore)
        requires
            self.wf(),
        ensures
            r.wf(),
            r.table.usage_tick == self.table.usage_tick,
            r@ == hinted_tunings(self@),
    {
        let mut store = OriginH2TuningStore::new();
        let ghost all = self.table.entries@;
        let mut i: usize = 0;
        while i < self.table.entries.len()
            invariant
                self.wf(),
                all == self.table.entries@,
                i <= all.len(),
                store.wf(),
                forall|k: Seq<char>| #[trigger]
                    store@.dom().contains(k) <==> exists|j: int|
                        0 <= j < i && crate::lru::names(all, k, j) && all[j].value.h2_tuning is Some,
                forall|k: Seq<char>| #[trigger]
                    store@.dom().contains(k) ==> store@[k] == (
                        ClientTuning { source: H2TuningSource::OriginMemoryHint, ..self@[k].0.h2_tuning->0 },
                        self@[k].1,
                    ),
            decreases all.len() - i,
        {
            let entry: &LruEntry<PersistedOriginProfile> = &self.table.entries[i];
            proof {
                crate::lru::lemma_position(all, i as int);
            }
            let ghost before = store@;
            match entry.value.h2_tuning {
                Some(known) => {
                    let mut tuning: ClientTuning = known;
                    tuning.source = H2TuningSource::OriginMemoryHint;
                    store.table.put(owned(entry.key.as_str()), tuning, entry.last_used_tick);
                },
                None => {},
            }
            proof {
                assert forall|k: Seq<char>| #[trigger]
                    store@.dom().contains(k) <==> exists|j: int|
                        0 <= j < i + 1 && crate::lru::names(all, k, j) && all[j].value.h2_tuning is Some by {
                    if store@.dom().contains(k) {
                        if before.dom().contains(k) {
                            let j = choose|j: int|
                                0 <= j < i && crate::lru::names(all, k, j) && all[j].value.h2_tuning is Some;
                            assert(crate::lru::names(all, k, j));
                        } else {
                            assert(crate::lru::names(all, k, i as int));
                        }
                    }
                    if exists|j: int|
                        0 <= j < i + 1 && crate::lru::names(all, k, j) && all[j].value.h2_tuning is Some {
                        let j = choose|j: int|
                            0 <= j < i + 1 && crate::lru::names(all, k, j) && all[j].value.h2_tuning is Some;
                        if j < i {
                            assert(before.dom().contains(k));
                        }
                    }
                }
            }
            i = i + 1;
        }
        let ghost done = store@;
        store.table.usage_tick = self.table.usage_tick;
        proof {
            assert(store@ == done);
            assert forall|k: Seq<char>| #[trigger]
                store@.dom().contains(k) <==> self@.dom().contains(k) && self@[k].0.h2_tuning is Some by {
                if store@.dom().contains(k) {
                    assert(done.dom().contains(k));
                    let j = choose|j: int|
                        0 <= j < all.len() && crate::lru::names(all, k, j) && all[j].value.h2_tuning is Some;
                    crate::lru::lemma_position(all, j);
                }
                if self@.dom().contains(k) {
                    let j = choose|j: int| crate::lru::names(all, k, j);
                    crate::lru::lemma_position(all, j);
                    if all[j].value.h2_tuning is Some {
                        assert(done.dom().contains(k));
                    }
                }
            }
            assert(store@ =~= hinted_tunings(self@));
        }
        store
    }
}

/// The division ratios that suit servers, by origin.
#[derive(Debug)]
pub struct OriginPhiRatioStore {
    pub table: LruTable<u64>,
}

impl OriginPhiRatioStore {
    pub open spec fn wf(&self) -> bool {
        self.table.wf()
    }

    pub open spec fn view(&self) -> Map<Seq<char>, (u64, u64)> {
        self.table@
    }

    pub fn new() -> (r: OriginPhiRatioStore)
        ensures
            r.wf(),
            r@ == Map::<Seq<char>, (u64, u64)>::empty(),
            r.table.usage_tick == 0,
    {
        OriginPhiRatioStore { table: LruTable::new() }
    }

    /// The ratio for `origin`, the initial one if none is known. The use is
    /// counted.
    pub fn ratio_for_origin(&mut self, origin: &str) -> (r: u64)
        requires
            old(self).wf(),
        ensures
            final(self).wf(),
            final(self).table.usage_tick == old(self).table.next(),
            old(self)@.dom().contains(origin@) ==> r == old(self)@[origin@].0 && final(self)@ == old(self)@.insert(
                origin@,
                (r, old(self).table.next()),
            ),
            !old(self)@.dom().contains(origin@) ==> r == INITIAL_PHI_MAX_RATIO_BITS && final(self)@ == old(self)@,
    {
        let tick: u64 = self.table.next_tick();
        match self.table.peek(origin) {
            Some(bits) => {
                self.table.put(owned(origin), bits, tick);
                bits
            },
            None => INITIAL_PHI_MAX_RATIO_BITS,
        }
    }

    /// Remembers a ratio. Of more than `ORIGIN_PHI_RATIO_CAPACITY` servers,
    /// those that were not used for longest are forgotten.
    pub fn update_origin_ratio(&mut self, origin: String, ratio_bits: u64)
        requires
            old(self).wf(),
        ensures
            final(self).wf(),
            final(self).table.usage_tick == old(self).table.next(),
            ({
                let noted = old(self)@.insert(origin@, (ratio_bits, old(self).table.next()));
                &&& is_pruned(noted, final(self)@, ORIGIN_PHI_RATIO_CAPACITY as int)
                &&& noted.dom().len() <= ORIGIN_PHI_RATIO_CAPACITY ==> final(self)@ == noted
            }),
    {
        let tick: u64 = self.table.next_tick();
        self.table.put(origin, ratio_bits, tick);
        self.table.prune_lru(ORIGIN_PHI_RATIO_CAPACITY);
    }

    /// The ratio for `origin`; the use is not counted.
    pub fn current_ratio(&self, origin: &str) -> (r: Option<u64>)
        requires
            self.wf(),
        ensures
            match r {
                Some(v) => self@.dom().contains(origin@) && self@[origin@].0 == v,
                None => !self@.dom().contains(origin@),
            },
    {
        self.table.peek(origin)
    }

    pub fn len(&self) -> (r: usize)
        requires
            self.wf(),
        ensures
            r == self@.dom().len(),
    {
        self.table.len()
    }
}

/// The HTTP/2 windows that suit servers, by origin.
#[derive(Debug)]
pub struct OriginH2TuningStore {
    pub table: LruTable<ClientTuning>,
}

impl OriginH2TuningStore {
    pub open spec fn wf(&self) -> bool {
        self.table.wf()
    }

    pub open spec fn view(&self) -> Map<Seq<char>, (ClientTuning, u64)> {
        self.table@
    }

    pub fn new() -> (r: OriginH2TuningStore)
        ensures
            r.wf(),
            r@ == Map::<Seq<char>, (ClientTuning, u64)>::empty(),
            r.table.usage_tick == 0,
    {
        OriginH2TuningStore { table: LruTable::new() }
    }

    /// The windows for `origin`, if they are known. The use is counted.
    pub fn tuning_for_origin(&mut self, origin: &str) -> (r: Option<ClientTuning>)
        requires
            old(self).wf(),
        ensures
            final(self).wf(),
            final(self).table.usage_tick == old(self).table.next(),
            match r {
                Some(t) => old(self)@.dom().contains(origin@) && t == old(self)@[origin@].0 && final(self)@
                    == old(self)@.insert(origin@, (t, old(self).table.next())),
                None => !old(self)@.dom().contains(origin@) && final(self)@ == old(self)@,
            },
    {
        let tick: u64 = self.table.next_tick();
        match self.table.peek(origin) {
            Some(tuning) => {
                self.table.put(owned(origin), tuning, tick);
                Some(tuning)
            },
            None => None,
        }
    }

    /// Remembers the windows for `origin`. Of more than
    /// `ORIGIN_PHI_RATIO_CAPACITY` servers, those that were not used for
    /// longest are forgotten.
    pub fn update_origin_tuning(&mut self, origin: String, tuning: ClientTuning)
        requires
            old(self).wf(),
        ensures
            final(self).wf(),
            final(self).table.usage_tick == old(self).table.next(),
            ({
                let noted = old(self)@.insert(origin@, (tuning, old(self).table.next()));
                &&& is_pruned(noted, final(self)@, ORIGIN_PHI_RATIO_CAPACITY as int)
                &&& noted.dom().len() <= ORIGIN_PHI_RATIO_CAPACITY ==> final(self)@ == noted
            }),
    {
        let tick: u64 = self.table.next_tick();
        self.table.put(origin, tuning, tick);
        self.table.prune_lru(ORIGIN_PHI_RATIO_CAPACITY);
    }

    /// The windows for `origin`; the use is not counted.
    pub fn current_tuning(&self, origin: &str) -> (r: Option<ClientTuning>)
        requires
            self.wf(),
        ensures
            match r {
                Some(v) => self@.dom().contains(origin@) && self@[origin@].0 == v,
                None => !self@.dom().contains(origin@),
            },
    {
        self.table.peek(origin)
    }

    pub fn len(&self) -> (r: usize)
        requires
            self.wf(),
        ensures
            r == self@.dom().len(),
    {
        self.table.len()
    }
}

/// A note outlasts the run that took it: a store that continues from what was
/// kept remembers it, unless the counter of uses is full and servers are to be
/// forgotten.
pub proof fn law_note_survives_reload(
    before: OriginMemoryStore,
    origin: Seq<char>,
    note: OriginNote,
    after: OriginMemoryStore,
    reloaded: OriginMemoryStore,
)
    requires
        before.wf(),
        before.has_noted(origin, note, after),
        before.table.usage_tick < u64::MAX || before.with_note(origin, note).dom().len() <= ORIGIN_MEMORY_CAPACITY,
        reloaded@ == table_of(after.table.entries@),
    ensures
        reloaded@.dom().contains(origin),
        reloaded@[origin].0 == note.noted(profile_of(before@, origin)),
        forall|k: Seq<char>| #[trigger]
            reloaded@.dom().contains(k) && k != origin ==> before@.dom().contains(k) && reloaded@[k] == before@[k],
{
    let noted = before.with_note(origin, note);
    lemma_table_len(before.table.entries@);
    if noted.dom().len() > ORIGIN_MEMORY_CAPACITY {
        assert forall|g: Seq<char>| #[trigger] noted.dom().contains(g) && g != origin implies noted[g].1
            < noted[origin].1 by {
            assert(before@.dom().contains(g));
        }
        crate::lru::law_latest_survives(noted, after@, ORIGIN_MEMORY_CAPACITY as int, origin);
    }
}

/// Windows that were noted of a server are given back by a store that
/// continues from what was kept, as a hint; of a server without such a note
/// none are given.
pub proof fn law_noted_tuning_becomes_a_hint(
    before: OriginMemoryStore,
    origin: Seq<char>,
    tuning: ClientTuning,
    after: OriginMemoryStore,
    reloaded: OriginMemoryStore,
)
    requires
        before.wf(),
        before.has_noted(origin, OriginNote::H2Tuning(tuning), after),
        before.table.usage_tick < u64::MAX || before.with_note(origin, OriginNote::H2Tuning(tuning)).dom().len()
            <= ORIGIN_MEMORY_CAPACITY,
        reloaded@ == table_of(after.table.entries@),
    ensures
        hinted_tunings(reloaded@).dom().contains(origin),
        hinted_tunings(reloaded@)[origin].0 == (ClientTuning {
            source: H2TuningSource::OriginMemoryHint,
            ..tuning
        }),
        forall|k: Seq<char>|
            k != origin && !(before@.dom().contains(k) && before@[k].0.h2_tuning is Some)
                ==> !#[trigger] hinted_tunings(reloaded@).dom().contains(k),
{
    law_note_survives_reload(before, origin, OriginNote::H2Tuning(tuning), after, reloaded);
}

} // verus!
