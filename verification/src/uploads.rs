//! The table of upload measurements in flight, one per peer.
//!
//! A peer opens a measurement with a control datagram. From then on every
//! data datagram it sends adds its length to a running total, as long as it
//! is seen no later than the deadline, one window after the registration.
//! A measurement ends when something notices that its deadline has passed:
//! a late datagram of its own peer, or a sweep of the whole table. Either
//! way the entry leaves the table and its total is handed to the caller.

use crate::clock::{deadline_of, past_deadline, WINDOW_NANOS};
use crate::count::{add_capped, capped_sum};
use crate::peer::PeerAddr;
use vstd::prelude::*;

verus! {

/// One peer's upload measurement.
#[derive(Clone, Copy, Debug, PartialEq, Eq, Structural)]
pub struct UploadSession {
    /// When the measurement was registered.
    pub registered_at: u64,
    /// Bytes counted so far.
    pub total_bytes: u64,
}

impl UploadSession {
    /// The last instant at which a datagram still counts.
    pub open spec fn deadline(self) -> int {
        deadline_of(self.registered_at)
    }

    /// The deadline lies before `now`.
    pub open spec fn expired_at(self, now: u64) -> bool {
        now > self.deadline()
    }

    /// The measurement that a registration at `now` opens.
    pub open spec fn opened_at(now: u64) -> UploadSession {
        UploadSession { registered_at: now, total_bytes: 0 }
    }

    /// This measurement after `len` more bytes were counted.
    pub open spec fn credited(self, len: u64) -> UploadSession {
        UploadSession {
            registered_at: self.registered_at,
            total_bytes: capped_sum(self.total_bytes, len),
        }
    }

    /// The deadline, where the clock can still show it.
    pub fn deadline_nanos(&self) -> (deadline: Option<u64>)
        ensures
            match deadline {
                Some(at) => at == self.deadline(),
                None => self.deadline() > u64::MAX,
            },
    {
        self.registered_at.checked_add(WINDOW_NANOS)
    }

    /// Whether the deadline lies before `now`.
    pub fn is_expired(&self, now: u64) -> (expired: bool)
        ensures
            expired == self.expired_at(now),
    {
        past_deadline(self.registered_at, now)
    }
}

/// The final figure of a measurement that has ended.
#[derive(Clone, Copy, Debug, PartialEq, Eq, Structural)]
pub struct FinishedUpload {
    pub peer: PeerAddr,
    pub total_bytes: u64,
}

/// What became of a data datagram.
#[derive(Clone, Copy, Debug, PartialEq, Eq, Structural)]
pub enum DatagramFate {
    /// Its length was added to its peer's measurement, which now stands at
    /// `total_bytes`.
    Counted { total_bytes: u64 },
    /// It came after its peer's deadline. It was not counted; the
    /// measurement ended with `total_bytes` and left the table.
    Expired { total_bytes: u64 },
    /// Its peer has no measurement. Nothing was counted.
    Unmatched,
}

/// The table as a map from peer to measurement.
pub type Uploads = Map<PeerAddr, UploadSession>;

/// The table after a control datagram from `peer` registered a measurement
/// at `now`: the peer's entry, new or not, starts afresh.
pub open spec fn after_registration(uploads: Uploads, peer: PeerAddr, now: u64) -> Uploads {
    uploads.insert(peer, UploadSession::opened_at(now))
}

/// What becomes of a data datagram of `len` bytes from `peer` seen at `now`.
pub open spec fn fate_of(uploads: Uploads, peer: PeerAddr, len: u64, now: u64) -> DatagramFate {
    if !uploads.contains_key(peer) {
        DatagramFate::Unmatched
    } else if uploads[peer].expired_at(now) {
        DatagramFate::Expired { total_bytes: uploads[peer].total_bytes }
    } else {
        DatagramFate::Counted { total_bytes: uploads[peer].credited(len).total_bytes }
    }
}

/// The table after a data datagram of `len` bytes from `peer` seen at `now`.
pub open spec fn after_datagram(uploads: Uploads, peer: PeerAddr, len: u64, now: u64) -> Uploads {
    if !uploads.contains_key(peer) {
        uploads
    } else if uploads[peer].expired_at(now) {
        uploads.remove(peer)
    } else {
        uploads.insert(peer, uploads[peer].credited(len))
    }
}

/// The measurements whose deadline has passed at `now`.
pub open spec fn expired_part(uploads: Uploads, now: u64) -> Uploads {
    Map::new(
        |p: PeerAddr| uploads.contains_key(p) && uploads[p].expired_at(now),
        |p: PeerAddr| uploads[p],
    )
}

/// The measurements still running at `now`.
pub open spec fn live_part(uploads: Uploads, now: u64) -> Uploads {
    Map::new(
        |p: PeerAddr| uploads.contains_key(p) && !uploads[p].expired_at(now),
        |p: PeerAddr| uploads[p],
    )
}

/// `reports` gives the final figure of every measurement in `ended`, each
/// once, and of nothing else.
pub open spec fn reports_exactly(reports: Seq<FinishedUpload>, ended: Uploads) -> bool {
    &&& forall|i: int, j: int|
        0 <= i < j < reports.len() ==> (#[trigger] reports[i]).peer != (#[trigger] reports[j]).peer
    &&& forall|i: int|
        0 <= i < reports.len() ==> ended.contains_key((#[trigger] reports[i]).peer)
            && reports[i].total_bytes == ended[reports[i].peer].total_bytes
    &&& forall|p: PeerAddr| #[trigger]
        ended.contains_key(p) ==> exists|i: int|
            0 <= i < reports.len() && (#[trigger] reports[i]).peer == p
}

/// The table after a run of data datagrams from `peer`, each given by its
/// length and the time at which it is seen, the first one first.
pub open spec fn after_datagrams(uploads: Uploads, peer: PeerAddr, data: Seq<(u64, u64)>) -> Uploads
    decreases data.len(),
{
    if data.len() == 0 {
        uploads
    } else {
        after_datagram(
            after_datagrams(uploads, peer, data.drop_last()),
            peer,
            data.last().0,
            data.last().1,
        )
    }
}

/// The lengths of a run of datagrams, added up.
pub open spec fn total_len(data: Seq<(u64, u64)>) -> nat
    decreases data.len(),
{
    if data.len() == 0 {
        0
    } else {
        total_len(data.drop_last()) + data.last().0 as nat
    }
}

#[derive(Clone, Copy)]
struct Entry {
    peer: PeerAddr,
    session: UploadSession,
}

/// No peer occurs twice.
spec fn distinct(entries: Seq<Entry>) -> bool {
    forall|i: int, j: int|
        0 <= i < j < entries.len() ==> (#[trigger] entries[i]).peer != (#[trigger] entries[j]).peer
}

spec fn holds(entries: Seq<Entry>, peer: PeerAddr) -> bool {
    exists|i: int| 0 <= i < entries.len() && (#[trigger] entries[i]).peer == peer
}

spec fn slot(entries: Seq<Entry>, peer: PeerAddr) -> int {
    choose|i: int| 0 <= i < entries.len() && (#[trigger] entries[i]).peer == peer
}

spec fn as_map(entries: Seq<Entry>) -> Uploads {
    Map::new(|p: PeerAddr| holds(entries, p), |p: PeerAddr| entries[slot(entries, p)].session)
}

proof fn lemma_slot(entries: Seq<Entry>, i: int)
    requires
        distinct(entries),
        0 <= i < entries.len(),
    ensures
        holds(entries, entries[i].peer),
        slot(entries, entries[i].peer) == i,
        as_map(entries).contains_key(entries[i].peer),
        as_map(entries)[entries[i].peer] == entries[i].session,
{
    let p = entries[i].peer;
    let k = slot(entries, p);
    assert(0 <= k < entries.len() && entries[k].peer == p);
    if k < i {
        assert(entries[k].peer != entries[i].peer);
    } else if i < k {
        assert(entries[i].peer != entries[k].peer);
    }
}

proof fn lemma_push(entries: Seq<Entry>, entry: Entry)
    requires
        distinct(entries),
        !holds(entries, entry.peer),
    ensures
        distinct(entries.push(entry)),
        as_map(entries.push(entry)) == as_map(entries).insert(entry.peer, entry.session),
{
    let grown = entries.push(entry);
    assert forall|i: int, j: int| 0 <= i < j < grown.len() implies (#[trigger] grown[i]).peer != (
    #[trigger] grown[j]).peer by {
        if j == entries.len() {
            assert(entries[i].peer != entry.peer);
        } else {
            assert(entries[i].peer != entries[j].peer);
        }
    }
    assert forall|p: PeerAddr| holds(grown, p) <==> (holds(entries, p) || p == entry.peer) by {
        if holds(grown, p) {
            let k = slot(grown, p);
            if k < entries.len() {
                assert(entries[k].peer == p);
            }
        }
        if holds(entries, p) {
            let k = slot(entries, p);
            assert(grown[k].peer == p);
        }
        if p == entry.peer {
            assert(grown[entries.len() as int].peer == p);
        }
    }
    assert forall|p: PeerAddr| holds(grown, p) implies #[trigger] as_map(grown)[p] == as_map(
        entries,
    ).insert(entry.peer, entry.session)[p] by {
        let k = slot(grown, p);
        lemma_slot(grown, k);
        if k < entries.len() {
            lemma_slot(entries, k);
        }
    }
    assert(as_map(grown) =~= as_map(entries).insert(entry.peer, entry.session));
}

proof fn lemma_update(entries: Seq<Entry>, i: int, session: UploadSession)
    requires
        distinct(entries),
        0 <= i < entries.len(),
    ensures
        distinct(entries.update(i, Entry { peer: entries[i].peer, session })),
        as_map(entries.update(i, Entry { peer: entries[i].peer, session })) == as_map(
            entries,
        ).insert(entries[i].peer, session),
{
    let changed = entries.update(i, Entry { peer: entries[i].peer, session });
    assert forall|a: int, b: int| 0 <= a < b < changed.len() implies (#[trigger] changed[a]).peer
        != (#[trigger] changed[b]).peer by {
        assert(entries[a].peer != entries[b].peer);
    }
    assert forall|p: PeerAddr| holds(changed, p) <==> holds(entries, p) by {
        if holds(changed, p) {
            let k = slot(changed, p);
            assert(entries[k].peer == p);
        }
        if holds(entries, p) {
            let k = slot(entries, p);
            assert(changed[k].peer == p);
        }
    }
    lemma_slot(entries, i);
    assert forall|p: PeerAddr| holds(changed, p) implies #[trigger] as_map(changed)[p] == as_map(
        entries,
    ).insert(entries[i].peer, session)[p] by {
        let k = slot(changed, p);
        lemma_slot(changed, k);
        lemma_slot(entries, k);
    }
    assert(as_map(changed) =~= as_map(entries).insert(entries[i].peer, session));
}

proof fn lemma_remove(entries: Seq<Entry>, i: int)
    requires
        distinct(entries),
        0 <= i < entries.len(),
    ensures
        distinct(entries.remove(i)),
        as_map(entries.remove(i)) == as_map(entries).remove(entries[i].peer),
{
    let fewer = entries.remove(i);
    let gone = entries[i].peer;
    assert forall|a: int, b: int| 0 <= a < b < fewer.len() implies (#[trigger] fewer[a]).peer != (
    #[trigger] fewer[b]).peer by {
        let a0 = if a < i { a } else { a + 1 };
        let b0 = if b < i { b } else { b + 1 };
        assert(entries[a0].peer != entries[b0].peer);
    }
    assert forall|p: PeerAddr| holds(fewer, p) <==> (holds(entries, p) && p != gone) by {
        if holds(fewer, p) {
            let k = slot(fewer, p);
            let k0 = if k < i { k } else { k + 1 };
            assert(entries[k0].peer == p);
            if k0 < i {
                assert(entries[k0].peer != entries[i].peer);
            } else {
                assert(entries[i].peer != entries[k0].peer);
            }
        }
        if holds(entries, p) && p != gone {
            let k = slot(entries, p);
            let k1 = if k < i { k } else { k - 1 };
            assert(fewer[k1].peer == p);
        }
    }
    assert forall|p: PeerAddr| holds(fewer, p) implies #[trigger] as_map(fewer)[p] == as_map(
        entries,
    ).remove(gone)[p] by {
        let k = slot(fewer, p);
        lemma_slot(fewer, k);
        let k0 = if k < i { k } else { k + 1 };
        lemma_slot(entries, k0);
    }
    assert(as_map(fewer) =~= as_map(entries).remove(gone));
}

proof fn lemma_prefix(entries: Seq<Entry>, n: int)
    requires
        distinct(entries),
        0 <= n < entries.len(),
    ensures
        distinct(entries.take(n)),
        !holds(entries.take(n), entries[n].peer),
        entries.take(n + 1) == entries.take(n).push(entries[n]),
{
    let front = entries.take(n);
    assert forall|i: int, j: int| 0 <= i < j < front.len() implies (#[trigger] front[i]).peer != (
    #[trigger] front[j]).peer by {
        assert(entries[i].peer != entries[j].peer);
    }
    if holds(front, entries[n].peer) {
        let k = slot(front, entries[n].peer);
        assert(entries[k].peer != entries[n].peer);
    }
    assert(entries.take(n + 1) =~= front.push(entries[n]));
}

proof fn lemma_size(entries: Seq<Entry>)
    requires
        distinct(entries),
    ensures
        as_map(entries).dom().finite(),
        as_map(entries).dom().len() == entries.len(),
    decreases entries.len(),
{
    if entries.len() == 0 {
        assert(as_map(entries).dom() =~= Set::<PeerAddr>::empty());
    } else {
        let n = entries.len() - 1;
        lemma_prefix(entries, n);
        lemma_size(entries.take(n));
        assert(entries.take(n + 1) =~= entries);
        lemma_push(entries.take(n), entries[n]);
    }
}

/// One more entry seen by a sweep: it joins either the measurements that
/// stay or those that ended.
proof fn lemma_sweep_step(
    seen: Uploads,
    entry: Entry,
    now: u64,
    reports: Seq<FinishedUpload>,
)
    requires
        !seen.contains_key(entry.peer),
        reports_exactly(reports, expired_part(seen, now)),
    ensures
        entry.session.expired_at(now) ==> {
            &&& live_part(seen.insert(entry.peer, entry.session), now) == live_part(seen, now)
            &&& reports_exactly(
                reports.push(
                    FinishedUpload { peer: entry.peer, total_bytes: entry.session.total_bytes },
                ),
                expired_part(seen.insert(entry.peer, entry.session), now),
            )
        },
        !entry.session.expired_at(now) ==> {
            &&& live_part(seen.insert(entry.peer, entry.session), now) == live_part(
                seen,
                now,
            ).insert(entry.peer, entry.session)
            &&& reports_exactly(reports, expired_part(seen.insert(entry.peer, entry.session), now))
        },
{
    let more = seen.insert(entry.peer, entry.session);
    if entry.session.expired_at(now) {
        let report = FinishedUpload { peer: entry.peer, total_bytes: entry.session.total_bytes };
        let grown = reports.push(report);
        let ended = expired_part(more, now);
        assert(live_part(more, now) =~= live_part(seen, now));
        assert(ended =~= expired_part(seen, now).insert(entry.peer, entry.session));
        assert forall|i: int, j: int| 0 <= i < j < grown.len() implies (#[trigger] grown[i]).peer
            != (#[trigger] grown[j]).peer by {
            if j == reports.len() {
                assert(expired_part(seen, now).contains_key(reports[i].peer));
            } else {
                assert(reports[i].peer != reports[j].peer);
            }
        }
        assert forall|i: int| 0 <= i < grown.len() implies ended.contains_key(
            (#[trigger] grown[i]).peer,
        ) && grown[i].total_bytes == ended[grown[i].peer].total_bytes by {
            if i < reports.len() {
                assert(expired_part(seen, now).contains_key(reports[i].peer));
            }
        }
        assert forall|p: PeerAddr| #[trigger] ended.contains_key(p) implies exists|i: int|
            0 <= i < grown.len() && (#[trigger] grown[i]).peer == p by {
            if p == entry.peer {
                assert(grown[reports.len() as int].peer == p);
            } else {
                assert(expired_part(seen, now).contains_key(p));
                let i = choose|i: int| 0 <= i < reports.len() && (#[trigger] reports[i]).peer == p;
                assert(grown[i].peer == p);
            }
        }
    } else {
        assert(live_part(more, now) =~= live_part(seen, now).insert(entry.peer, entry.session));
        assert(expired_part(more, now) =~= expired_part(seen, now));
    }
}

/// The upload measurements in flight, at most one per peer.
pub struct UploadTable {
    entries: Vec<Entry>,
}

impl View for UploadTable {
    type V = Uploads;

    closed spec fn view(&self) -> Uploads {
        as_map(self.entries@)
    }
}

/// Where `peer` stands among `entries`, if it does.
fn find(entries: &Vec<Entry>, peer: PeerAddr) -> (at: Option<usize>)
    ensures
        match at {
            Some(i) => i < entries@.len() && entries@[i as int].peer == peer,
            None => !holds(entries@, peer),
        },
{
    let mut i: usize = 0;
    while i < entries.len()
        invariant
            i <= entries.len(),
            forall|j: int| 0 <= j < i ==> (#[trigger] entries@[j]).peer != peer,
        decreases entries.len() - i,
    {
        if entries[i].peer == peer {
            return Some(i);
        }
        i += 1;
    }
    None
}

impl UploadTable {
    #[verifier::type_invariant]
    spec fn well_formed(self) -> bool {
        distinct(self.entries@)
    }

    /// A table with no measurement in it.
    pub fn new() -> (table: Self)
        ensures
            table@ == Map::<PeerAddr, UploadSession>::empty(),
    {
        let table = UploadTable { entries: Vec::new() };
        assert(table@ =~= Map::<PeerAddr, UploadSession>::empty());
        table
    }

    /// How many measurements are in flight: one for each peer that has one.
    pub fn len(&self) -> (n: usize)
        ensures
            self@.dom().finite(),
            n == self@.dom().len(),
    {
        proof {
            use_type_invariant(self);
            lemma_size(self.entries@);
        }
        self.entries.len()
    }

    /// Whether no measurement is in flight.
    pub fn is_empty(&self) -> (empty: bool)
        ensures
            empty <==> self@ == Map::<PeerAddr, UploadSession>::empty(),
    {
        proof {
            use_type_invariant(self);
            lemma_size(self.entries@);
            if self.entries@.len() == 0 {
                assert(self@ =~= Map::<PeerAddr, UploadSession>::empty());
            }
        }
        self.entries.len() == 0
    }

    /// The measurement of `peer`, if it has one.
    pub fn get(&self, peer: PeerAddr) -> (found: Option<UploadSession>)
        ensures
            found == if self@.contains_key(peer) {
                Some(self@[peer])
            } else {
                None
            },
    {
        proof {
            use_type_invariant(self);
        }
        match find(&self.entries, peer) {
            Some(i) => {
                proof {
                    lemma_slot(self.entries@, i as int);
                }
                Some(self.entries[i].session)
            },
            None => None,
        }
    }

    /// Opens a measurement for `peer` at `now`. One that the peer already
    /// had is replaced: its deadline and its total start afresh.
    pub fn register(&mut self, peer: PeerAddr, now: u64)
        ensures
            final(self)@ == after_registration(old(self)@, peer, now),
    {
        proof {
            use_type_invariant(&*self);
        }
        let entry = Entry { peer, session: UploadSession { registered_at: now, total_bytes: 0 } };
        let mut entries: Vec<Entry> = Vec::new();
        std::mem::swap(&mut entries, &mut self.entries);
        match find(&entries, peer) {
            Some(i) => {
                proof {
                    lemma_update(entries@, i as int, entry.session);
                }
                entries.set(i, entry);
            },
            None => {
                proof {
                    lemma_push(entries@, entry);
                }
                entries.push(entry);
            },
        }
        self.entries = entries;
    }

    /// Accounts for a data datagram of `len` bytes from `peer` seen at `now`.
    ///
    /// Seen no later than the deadline of its peer's measurement, the
    /// datagram is counted. Seen after it, the datagram is not counted and
    /// the measurement ends. From a peer without a measurement it changes
    /// nothing.
    pub fn record(&mut self, peer: PeerAddr, len: u64, now: u64) -> (fate: DatagramFate)
        ensures
            fate == fate_of(old(self)@, peer, len, now),
            final(self)@ == after_datagram(old(self)@, peer, len, now),
    {
        proof {
            use_type_invariant(&*self);
        }
        let mut entries: Vec<Entry> = Vec::new();
        std::mem::swap(&mut entries, &mut self.entries);
        let fate = match find(&entries, peer) {
            None => DatagramFate::Unmatched,
            Some(i) => {
                let session = entries[i].session;
                proof {
                    lemma_slot(entries@, i as int);
                }
                if session.is_expired(now) {
                    proof {
                        lemma_remove(entries@, i as int);
                    }
                    entries.remove(i);
                    DatagramFate::Expired { total_bytes: session.total_bytes }
                } else {
                    let total_bytes = add_capped(session.total_bytes, len);
                    let credited = UploadSession {
                        registered_at: session.registered_at,
                        total_bytes,
                    };
                    proof {
                        lemma_update(entries@, i as int, credited);
                    }
                    entries.set(i, Entry { peer, session: credited });
                    DatagramFate::Counted { total_bytes }
                }
            },
        };
        self.entries = entries;
        fate
    }

    /// Ends every measurement whose deadline has passed at `now` and hands
    /// back the final figure of each. The others stay as they are.
    pub fn sweep(&mut self, now: u64) -> (reports: Vec<FinishedUpload>)
        ensures
            final(self)@ == live_part(old(self)@, now),
            reports_exactly(reports@, expired_part(old(self)@, now)),
            reports@.len() == expired_part(old(self)@, now).dom().len(),
    {
        proof {
            use_type_invariant(&*self);
        }
        let mut entries: Vec<Entry> = Vec::new();
        std::mem::swap(&mut entries, &mut self.entries);
        let mut kept: Vec<Entry> = Vec::new();
        let mut reports: Vec<FinishedUpload> = Vec::new();
        let mut i: usize = 0;
        proof {
            assert(as_map(entries@.take(0)) =~= Map::<PeerAddr, UploadSession>::empty());
            assert(as_map(kept@) =~= live_part(as_map(entries@.take(0)), now));
            assert(expired_part(as_map(entries@.take(0)), now) =~= Map::<
                PeerAddr,
                UploadSession,
            >::empty());
        }
        while i < entries.len()
            invariant
                i <= entries.len(),
                distinct(entries@),
                distinct(kept@),
                as_map(kept@) == live_part(as_map(entries@.take(i as int)), now),
                reports_exactly(reports@, expired_part(as_map(entries@.take(i as int)), now)),
            decreases entries.len() - i,
        {
            let entry = entries[i];
            proof {
                lemma_prefix(entries@, i as int);
                lemma_push(entries@.take(i as int), entry);
                lemma_sweep_step(as_map(entries@.take(i as int)), entry, now, reports@);
            }
            if entry.session.is_expired(now) {
                reports.push(
                    FinishedUpload { peer: entry.peer, total_bytes: entry.session.total_bytes },
                );
            } else {
                proof {
                    assert(!as_map(entries@.take(i as int)).contains_key(entry.peer));
                    assert(!as_map(kept@).contains_key(entry.peer));
                    lemma_push(kept@, entry);
                }
                kept.push(entry);
            }
            i += 1;
        }
        proof {
            assert(entries@.take(entries@.len() as int) =~= entries@);
            lemma_report_count(reports@, expired_part(as_map(entries@), now));
        }
        self.entries = kept;
        reports
    }
}

/// A peer has one measurement at most, and a second registration replaces
/// the first: the peer's deadline and total start afresh, no entry is
/// added beside the old one, and no other peer's entry changes.
pub proof fn lemma_registration_replaces(uploads: Uploads, peer: PeerAddr, first: u64, second: u64)
    ensures
        after_registration(after_registration(uploads, peer, first), peer, second)
            == after_registration(uploads, peer, second),
        after_registration(uploads, peer, second)[peer] == UploadSession::opened_at(second),
        after_registration(uploads, peer, second).dom() == uploads.dom().insert(peer),
        uploads.contains_key(peer) ==> after_registration(uploads, peer, second).dom()
            == uploads.dom(),
        forall|other: PeerAddr|
            other != peer && uploads.contains_key(other) ==> #[trigger] after_registration(
                uploads,
                peer,
                second,
            )[other] == uploads[other],
{
    assert(after_registration(after_registration(uploads, peer, first), peer, second)
        =~= after_registration(uploads, peer, second));
    assert(after_registration(uploads, peer, second).dom() =~= uploads.dom().insert(peer));
    if uploads.contains_key(peer) {
        assert(uploads.dom().insert(peer) =~= uploads.dom());
    }
}

/// Bytes are counted inside the window only: a data datagram changes no
/// total but that of its own peer, and that one only when the datagram is
/// seen no later than the peer's deadline. A total never goes down, and no
/// datagram opens a measurement or moves a deadline.
pub proof fn lemma_counting_stays_in_window(uploads: Uploads, peer: PeerAddr, len: u64, now: u64)
    ensures
        forall|p: PeerAddr| #[trigger]
            after_datagram(uploads, peer, len, now).contains_key(p) ==> {
                &&& uploads.contains_key(p)
                &&& after_datagram(uploads, peer, len, now)[p].registered_at
                    == uploads[p].registered_at
                &&& after_datagram(uploads, peer, len, now)[p].total_bytes
                    >= uploads[p].total_bytes
                &&& after_datagram(uploads, peer, len, now)[p].total_bytes
                    != uploads[p].total_bytes ==> p == peer && now <= uploads[p].deadline()
            },
        uploads.contains_key(peer) && now > uploads[peer].deadline() ==> !after_datagram(
            uploads,
            peer,
            len,
            now,
        ).contains_key(peer) && fate_of(uploads, peer, len, now) == (DatagramFate::Expired {
            total_bytes: uploads[peer].total_bytes,
        }),
{
}

/// Data from a peer without a measurement is inert: it is counted toward
/// no total and leaves the table as it was.
pub proof fn lemma_unmatched_is_inert(uploads: Uploads, peer: PeerAddr, len: u64, now: u64)
    requires
        !uploads.contains_key(peer),
    ensures
        fate_of(uploads, peer, len, now) == DatagramFate::Unmatched,
        after_datagram(uploads, peer, len, now) == uploads,
{
}

/// A sweep is complete and reports nothing twice. It parts the table in
/// two: every measurement whose deadline has passed ends, with the total it
/// had, and every other one stays as it was. What stays has not expired,
/// so a second sweep at the same instant ends nothing.
pub proof fn lemma_sweep_is_complete(uploads: Uploads, now: u64)
    ensures
        forall|p: PeerAddr| #[trigger]
            uploads.contains_key(p) ==> if uploads[p].expired_at(now) {
                expired_part(uploads, now).contains_key(p) && expired_part(uploads, now)[p]
                    == uploads[p] && !live_part(uploads, now).contains_key(p)
            } else {
                live_part(uploads, now).contains_key(p) && live_part(uploads, now)[p] == uploads[p]
                    && !expired_part(uploads, now).contains_key(p)
            },
        forall|p: PeerAddr| #[trigger]
            live_part(uploads, now).contains_key(p) ==> uploads.contains_key(p)
                && !live_part(uploads, now)[p].expired_at(now),
        forall|p: PeerAddr| #[trigger]
            expired_part(uploads, now).contains_key(p) ==> uploads.contains_key(p),
        live_part(live_part(uploads, now), now) == live_part(uploads, now),
        expired_part(live_part(uploads, now), now) == Map::<PeerAddr, UploadSession>::empty(),
{
    assert(live_part(live_part(uploads, now), now) =~= live_part(uploads, now));
    assert(expired_part(live_part(uploads, now), now) =~= Map::<PeerAddr, UploadSession>::empty());
}

/// A measurement that a sweep ended is not ended again by a later sweep of
/// what was left.
pub proof fn lemma_ended_once(uploads: Uploads, now: u64, later: u64)
    ensures
        forall|p: PeerAddr| #[trigger]
            expired_part(uploads, now).contains_key(p) ==> !expired_part(
                live_part(uploads, now),
                later,
            ).contains_key(p),
{
}

/// A total is the sum of what was seen inside the window: after a run of
/// datagrams from a peer, none seen past the deadline, the peer's total has
/// grown by their lengths added up, as far as a total goes. No other
/// measurement has changed.
pub proof fn lemma_total_is_sum(uploads: Uploads, peer: PeerAddr, data: Seq<(u64, u64)>)
    requires
        uploads.contains_key(peer),
        forall|i: int| 0 <= i < data.len() ==> (#[trigger] data[i]).1 <= uploads[peer].deadline(),
    ensures
        after_datagrams(uploads, peer, data).dom() == uploads.dom(),
        after_datagrams(uploads, peer, data)[peer].registered_at == uploads[peer].registered_at,
        after_datagrams(uploads, peer, data)[peer].total_bytes == if uploads[peer].total_bytes
            + total_len(data) <= u64::MAX {
            uploads[peer].total_bytes + total_len(data)
        } else {
            u64::MAX as int
        },
        forall|other: PeerAddr|
            other != peer && uploads.contains_key(other) ==> #[trigger] after_datagrams(
                uploads,
                peer,
                data,
            )[other] == uploads[other],
    decreases data.len(),
{
    if data.len() > 0 {
        let front = data.drop_last();
        assert forall|i: int| 0 <= i < front.len() implies (#[trigger] front[i]).1
            <= uploads[peer].deadline() by {
            assert(front[i] == data[i]);
        }
        lemma_total_is_sum(uploads, peer, front);
        assert(data.last() == data[data.len() - 1]);
        assert(after_datagrams(uploads, peer, data).dom() =~= uploads.dom());
    }
}

/// As many reports as measurements that ended.
pub proof fn lemma_report_count(reports: Seq<FinishedUpload>, ended: Uploads)
    requires
        reports_exactly(reports, ended),
    ensures
        ended.dom().finite(),
        ended.dom().len() == reports.len(),
    decreases reports.len(),
{
    if reports.len() == 0 {
        assert(ended.dom() =~= Set::<PeerAddr>::empty());
    } else {
        let last = reports.last();
        let front = reports.drop_last();
        let fewer = ended.remove(last.peer);
        assert forall|i: int, j: int| 0 <= i < j < front.len() implies (#[trigger] front[i]).peer
            != (#[trigger] front[j]).peer by {
            assert(reports[i].peer != reports[j].peer);
        }
        assert forall|i: int| 0 <= i < front.len() implies fewer.contains_key(
            (#[trigger] front[i]).peer,
        ) && front[i].total_bytes == fewer[front[i].peer].total_bytes by {
            assert(reports[i].peer != reports[reports.len() - 1].peer);
            assert(ended.contains_key(reports[i].peer));
        }
        assert forall|p: PeerAddr| #[trigger] fewer.contains_key(p) implies exists|i: int|
            0 <= i < front.len() && (#[trigger] front[i]).peer == p by {
            assert(ended.contains_key(p));
            let i = choose|i: int| 0 <= i < reports.len() && (#[trigger] reports[i]).peer == p;
            assert(front[i].peer == p);
        }
        lemma_report_count(front, fewer);
        assert(ended.contains_key(reports[reports.len() - 1].peer));
        assert(ended.dom() =~= fewer.dom().insert(last.peer));
    }
}

} // verus!
