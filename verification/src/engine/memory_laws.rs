//! What holds of what is remembered of servers.

use vstd::prelude::*;
use crate::engine::origin_memory::{
    OriginH2TuningStore, OriginMemoryStore, OriginNote, OriginPhiRatioStore, SessionMemoryInfo,
    SessionRequirementField,
};
use crate::engine::transport::{ClientTuning, H2TuningSource};
use crate::engine::types::ProtocolFamily;
use crate::lru::{lemma_table_len, LruTable};

verus! {

/// Memory has room, or can tell what was used last.
pub open spec fn can_note(s: OriginMemoryStore) -> bool {
    s.wf() && s.enabled && s.table.usage_tick < u64::MAX
}

proof fn lemma_noted(s: OriginMemoryStore, origin: Seq<char>, note: OriginNote, after: OriginMemoryStore)
    requires
        can_note(s),
        s.has_noted(origin, note, after),
    ensures
        after@.dom().contains(origin),
        after@[origin].0 == note.noted(crate::engine::origin_memory::profile_of(s@, origin)),
        forall|k: Seq<char>| #[trigger]
            after@.dom().contains(k) && k != origin ==> s@.dom().contains(k) && after@[k] == s@[k],
{
    crate::engine::origin_memory::law_note_survives_reload(s, origin, note, after, after);
}

/// A memory begins empty, and with nothing used.
pub proof fn law_memories_begin_empty(
    on: bool,
    m: OriginMemoryStore,
    p: OriginPhiRatioStore,
    w: OriginH2TuningStore,
    k: Seq<char>,
)
    requires
        call_ensures(OriginMemoryStore::empty, (on,), m),
        call_ensures(OriginPhiRatioStore::new, (), p),
        call_ensures(OriginH2TuningStore::new, (), w),
    ensures
        m.enabled == on,
        !m@.dom().contains(k) && !p@.dom().contains(k) && !w@.dom().contains(k),
        m.table.usage_tick == 0 && p.table.usage_tick == 0 && w.table.usage_tick == 0,
{
}

/// Every note is newer than the one before, until the count of them is full.
pub proof fn law_notes_grow_newer(s: &mut OriginMemoryStore, origin: &str, note: OriginNote)
    requires
        old(s).wf(),
        call_ensures(OriginMemoryStore::note, (s, origin, note), ()),
    ensures
        old(s).enabled && old(s).table.usage_tick < u64::MAX ==> final(s).table.usage_tick == old(s).table.usage_tick
            + 1,
        old(s).table.usage_tick == u64::MAX ==> final(s).table.usage_tick == u64::MAX,
        !old(s).enabled ==> final(s).table.usage_tick == old(s).table.usage_tick,
{
}

/// A protocol that was noted is the hint from then on, and no other note
/// changes it; what was noted of one server is told of no other.
pub proof fn law_noted_protocols_are_hinted(
    s: &mut OriginMemoryStore,
    origin: &str,
    note: OriginNote,
    t: &mut OriginMemoryStore,
    hint: Option<ProtocolFamily>,
    u: &mut OriginMemoryStore,
    before: Option<ProtocolFamily>,
)
    requires
        can_note(*old(s)),
        call_ensures(OriginMemoryStore::note, (s, origin, note), ()),
        *old(t) == *final(s),
        call_ensures(OriginMemoryStore::protocol_hint_for_origin, (t, origin), hint),
        *old(u) == *old(s),
        call_ensures(OriginMemoryStore::protocol_hint_for_origin, (u, origin), before),
    ensures
        note matches OriginNote::Protocol(p) ==> hint == Some(p),
        !(note is Protocol) ==> hint == before,
{
    lemma_noted(*old(s), origin@, note, *final(s));
}

/// What a session was noted to need is told, and every other need stays as it
/// was; a limit on requests is never forgotten.
pub proof fn law_noted_sessions_are_told(
    s: &mut OriginMemoryStore,
    origin: &str,
    note: OriginNote,
    r: Option<SessionMemoryInfo>,
    before: Option<SessionMemoryInfo>,
)
    requires
        can_note(*old(s)),
        call_ensures(OriginMemoryStore::note, (s, origin, note), ()),
        call_ensures(OriginMemoryStore::session_info_for_origin, (&*final(s), origin), r),
        call_ensures(OriginMemoryStore::session_info_for_origin, (&*old(s), origin), before),
    ensures
        r is Some,
        note matches OriginNote::SessionRequirement(SessionRequirementField::Cookies, v) ==> r->0.cookies_used == Some(v),
        note matches OriginNote::SessionRequirement(SessionRequirementField::Auth, v) ==> r->0.auth_used == Some(v),
        note matches OriginNote::SessionRequirement(SessionRequirementField::Referer, v) ==> r->0.referer_used == Some(v),
        note matches OriginNote::Challenge(kind) ==> r->0.challenge_kind == kind && r->0.challenge_detected == Some(
            kind is Some,
        ),
        note is RateLimit ==> r->0.saw_rate_limit,
        before matches Some(b) ==> {
            &&& b.saw_rate_limit ==> r->0.saw_rate_limit
            &&& !(note is RateLimit) ==> r->0.saw_rate_limit == b.saw_rate_limit
            &&& !(note is Challenge) ==> r->0.challenge_kind == b.challenge_kind && r->0.challenge_detected
                == b.challenge_detected
            &&& !(note matches OriginNote::SessionRequirement(SessionRequirementField::Cookies, _))
                ==> r->0.cookies_used == b.cookies_used
            &&& !(note matches OriginNote::SessionRequirement(SessionRequirementField::Auth, _)) ==> r->0.auth_used
                == b.auth_used
            &&& !(note matches OriginNote::SessionRequirement(SessionRequirementField::Referer, _))
                ==> r->0.referer_used == b.referer_used
        },
        before is None ==> {
            &&& !(note is RateLimit) ==> !r->0.saw_rate_limit
            &&& !(note is Challenge) ==> r->0.challenge_kind is None && r->0.challenge_detected is None
            &&& !(note is SessionRequirement) ==> r->0.cookies_used is None && r->0.auth_used is None
                && r->0.referer_used is None
        },
{
    lemma_noted(*old(s), origin@, note, *final(s));
}

/// A server is known once something was noted of it; a memory that is switched
/// off notes nothing and tells nothing.
pub proof fn law_memory_can_be_off(
    s: &mut OriginMemoryStore,
    origin: &str,
    note: OriginNote,
    hit: bool,
    off: &mut OriginMemoryStore,
    info: Option<SessionMemoryInfo>,
    known: bool,
    asked: &mut OriginMemoryStore,
    hint: Option<ProtocolFamily>,
)
    requires
        can_note(*old(s)),
        call_ensures(OriginMemoryStore::note, (s, origin, note), ()),
        call_ensures(OriginMemoryStore::memory_hit_for_origin, (&*final(s), origin), hit),
        !old(off).enabled,
        call_ensures(OriginMemoryStore::note, (off, origin, note), ()),
        call_ensures(OriginMemoryStore::session_info_for_origin, (&*final(off), origin), info),
        call_ensures(OriginMemoryStore::memory_hit_for_origin, (&*final(off), origin), known),
        *old(asked) == *final(off),
        call_ensures(OriginMemoryStore::protocol_hint_for_origin, (asked, origin), hint),
    ensures
        hit,
        info is None,
        !known,
        hint is None,
        *final(off) == *old(off),
        final(s).enabled,
{
    lemma_noted(*old(s), origin@, note, *final(s));
}

/// A thousand servers are remembered at most, and none is forgotten before.
pub proof fn law_memory_is_bounded(
    s: &mut OriginMemoryStore,
    origin: &str,
    note: OriginNote,
    other: &str,
    before: bool,
    after: bool,
    ratios: &mut OriginPhiRatioStore,
    name: String,
    bits: u64,
    rated: usize,
    windows: &mut OriginH2TuningStore,
    server: String,
    tuning: ClientTuning,
    tuned: usize,
)
    requires
        old(s).wf(),
        old(s).enabled,
        old(s)@.dom().len() < 1000,
        call_ensures(OriginMemoryStore::note, (s, origin, note), ()),
        call_ensures(OriginMemoryStore::memory_hit_for_origin, (&*old(s), other), before),
        call_ensures(OriginMemoryStore::memory_hit_for_origin, (&*final(s), other), after),
        old(ratios).wf(),
        call_ensures(OriginPhiRatioStore::update_origin_ratio, (ratios, name, bits), ()),
        call_ensures(OriginPhiRatioStore::len, (&*final(ratios),), rated),
        old(windows).wf(),
        call_ensures(OriginH2TuningStore::update_origin_tuning, (windows, server, tuning), ()),
        call_ensures(OriginH2TuningStore::len, (&*final(windows),), tuned),
    ensures
        before ==> after,
        after && !before ==> other@ == origin@,
        final(s)@.dom().len() <= 1000,
        rated <= 256,
        tuned <= 256,
{
    lemma_table_len(old(s).table.entries@);
    let noted = old(s).with_note(origin@, note);
    assert(noted.dom() =~= old(s)@.dom().insert(origin@));
    assert(noted.dom().len() <= 1000);
}

/// Noted windows go on as a hint, with every number as it was noted.
pub proof fn law_noted_windows_are_hinted(
    s: &mut OriginMemoryStore,
    origin: &str,
    tuning: ClientTuning,
    store: OriginH2TuningStore,
    r: Option<ClientTuning>,
)
    requires
        can_note(*old(s)),
        call_ensures(OriginMemoryStore::note, (s, origin, OriginNote::H2Tuning(tuning)), ()),
        call_ensures(OriginMemoryStore::hydrate_h2_tunings, (&*final(s),), store),
        call_ensures(OriginH2TuningStore::current_tuning, (&store, origin), r),
    ensures
        r matches Some(t) && {
            &&& t.expected_concurrency == tuning.expected_concurrency
            &&& t.http2_stream_window_bytes == tuning.http2_stream_window_bytes
            &&& t.http2_connection_window_bytes == tuning.http2_connection_window_bytes
            &&& t.http2_max_send_buffer_bytes == tuning.http2_max_send_buffer_bytes
            &&& t.source == H2TuningSource::OriginMemoryHint
        },
{
    lemma_noted(*old(s), origin@, OriginNote::H2Tuning(tuning), *final(s));
}

/// A ratio that was set is the ratio of its server, and of no other; a server
/// without one has the initial one.
pub proof fn law_ratios_are_kept(
    s: &mut OriginPhiRatioStore,
    origin: String,
    bits: u64,
    name: &str,
    t: &mut OriginPhiRatioStore,
    r: u64,
    now: Option<u64>,
    other: &str,
    elsewhere: Option<u64>,
    earlier: Option<u64>,
    fresh: OriginPhiRatioStore,
    u: &mut OriginPhiRatioStore,
    first: u64,
)
    requires
        old(s).wf(),
        name@ == origin@,
        other@ != origin@,
        old(s)@.dom().len() < 256,
        call_ensures(OriginPhiRatioStore::update_origin_ratio, (s, origin, bits), ()),
        call_ensures(OriginPhiRatioStore::current_ratio, (&*final(s), name), now),
        call_ensures(OriginPhiRatioStore::current_ratio, (&*final(s), other), elsewhere),
        call_ensures(OriginPhiRatioStore::current_ratio, (&*old(s), other), earlier),
        *old(t) == *final(s),
        call_ensures(OriginPhiRatioStore::ratio_for_origin, (t, name), r),
        call_ensures(OriginPhiRatioStore::new, (), fresh),
        *old(u) == fresh,
        call_ensures(OriginPhiRatioStore::ratio_for_origin, (u, name), first),
    ensures
        now == Some(bits),
        r == bits,
        elsewhere == earlier,
        first == 0x3FF8000000000000,
{
    lemma_table_len(old(s).table.entries@);
    let noted = old(s)@.insert(origin@, (bits, old(s).table.next()));
    assert(noted.dom() =~= old(s)@.dom().insert(origin@));
    assert(noted.dom().len() <= 256);
}

/// Windows that were set are those of their server, until others are.
pub proof fn law_windows_are_kept(
    s: &mut OriginH2TuningStore,
    origin: String,
    tuning: ClientTuning,
    name: &str,
    t: &mut OriginH2TuningStore,
    r: Option<ClientTuning>,
    other: &str,
    elsewhere: Option<ClientTuning>,
    earlier: Option<ClientTuning>,
)
    requires
        old(s).wf(),
        name@ == origin@,
        other@ != origin@,
        old(s)@.dom().len() < 256,
        call_ensures(OriginH2TuningStore::update_origin_tuning, (s, origin, tuning), ()),
        *old(t) == *final(s),
        call_ensures(OriginH2TuningStore::tuning_for_origin, (t, name), r),
        call_ensures(OriginH2TuningStore::current_tuning, (&*final(s), other), elsewhere),
        call_ensures(OriginH2TuningStore::current_tuning, (&*old(s), other), earlier),
    ensures
        r == Some(tuning),
        elsewhere == earlier,
{
    lemma_table_len(old(s).table.entries@);
    let noted = old(s)@.insert(origin@, (tuning, old(s).table.next()));
    assert(noted.dom() =~= old(s)@.dom().insert(origin@));
    assert(noted.dom().len() <= 256);
}

/// What is put under a name is found under it, and nothing else changes; a
/// table that is cut down keeps what was used last.
pub proof fn law_tables_keep_what_is_used(
    t: &mut LruTable<u64>,
    key: String,
    value: u64,
    tick: u64,
    name: &str,
    found: Option<u64>,
    other: &str,
    still: Option<u64>,
    was: Option<u64>,
    p: &mut LruTable<u64>,
    capacity: usize,
    k: Seq<char>,
    g: Seq<char>,
)
    requires
        old(t).wf(),
        old(p).wf(),
        name@ == key@,
        other@ != key@,
        call_ensures(LruTable::<u64>::put, (t, key, value, tick), ()),
        call_ensures(LruTable::<u64>::peek, (&*final(t), name), found),
        call_ensures(LruTable::<u64>::peek, (&*final(t), other), still),
        call_ensures(LruTable::<u64>::peek, (&*old(t), other), was),
        call_ensures(LruTable::<u64>::prune_lru, (p, capacity), ()),
        final(p)@.dom().contains(k),
        old(p)@.dom().contains(g),
        !final(p)@.dom().contains(g),
    ensures
        found == Some(value),
        still == was,
        final(p).entries@.len() <= capacity,
        old(p)@.dom().contains(k),
        final(p)@[k] == old(p)@[k],
        old(p)@[g].1 <= old(p)@[k].1,
        old(p).entries@.len() > capacity,
        final(p).usage_tick == old(p).usage_tick,
{
    lemma_table_len(final(p).entries@);
    lemma_table_len(old(p).entries@);
}

} // verus!
