//! Live interviews by room, and the token that turns reading them on.

use vstd::prelude::*;
use vstd::utf8::encode_utf8;

use super::snapshot::{Snapshot, SnapshotView};
use crate::outside::{sha256, sha256_digest};
use crate::text::{
    before, law_before_irreflexive, law_before_total, law_before_transitive,
    law_trimming_takes_the_ends_off, place, same_bytes, trim, trimmed, white_space, Place,
};

verus! {

/// The live interviews by room.
pub type Sessions = Map<Seq<char>, SnapshotView>;

/// Live interviews in the order of their rooms.
pub type Listing = Seq<(Seq<char>, SnapshotView)>;

/// What a board holds: the live interviews by room, and the token that turns reading them
/// on, where an operator gave one.
pub ghost struct BoardView {
    pub sessions: Sessions,
    pub token: Option<Seq<char>>,
}

/// Whether the rooms of `listing` stand in the order of texts, none of them twice.
pub open spec fn in_order(listing: Listing) -> bool {
    forall|i: int, j: int|
        0 <= i < j < listing.len() ==> before((#[trigger] listing[i]).0, (#[trigger] listing[j]).0)
}

/// Whether `listing` lists the live interviews `sessions`, all of them and no other, in the
/// order of their rooms.
pub open spec fn lists(listing: Listing, sessions: Sessions) -> bool {
    &&& in_order(listing)
    &&& forall|i: int|
        0 <= i < listing.len() ==> sessions.contains_key((#[trigger] listing[i]).0)
            && sessions[listing[i].0] == listing[i].1
    &&& forall|room: Seq<char>| #[trigger]
        sessions.contains_key(room) ==> exists|i: int|
            0 <= i < listing.len() && (#[trigger] listing[i]).0 == room
}

/// The live interviews in the order of their rooms.
pub open spec fn listing(sessions: Sessions) -> Listing {
    choose|listing: Listing| lists(listing, sessions)
}

impl BoardView {
    /// Whether the live interviews are finitely many, as those of every board are.
    pub open spec fn wf(self) -> bool {
        self.sessions.dom().finite()
    }
}

/// Law: live interviews have one listing. Two that list the same ones are the same.
pub proof fn law_one_listing(a: Listing, b: Listing, sessions: Sessions)
    requires
        lists(a, sessions),
        lists(b, sessions),
    ensures
        a == b,
        a == listing(sessions),
{
    lemma_same_listing(a, b, sessions);
    lemma_same_listing(a, listing(sessions), sessions);
}

proof fn lemma_same_listing(a: Listing, b: Listing, sessions: Sessions)
    requires
        lists(a, sessions),
        lists(b, sessions),
    ensures
        a == b,
{
    lemma_listed_in_step(a, b, sessions, a.len() as int);
    lemma_listed_in_step(b, a, sessions, b.len() as int);
    assert(a =~= b);
}

/// The first `n` entries of `a` are the first `n` entries of `b`.
proof fn lemma_listed_in_step(a: Listing, b: Listing, sessions: Sessions, n: int)
    requires
        lists(a, sessions),
        lists(b, sessions),
        0 <= n <= a.len(),
    ensures
        n <= b.len(),
        forall|i: int| 0 <= i < n ==> #[trigger] a[i] == b[i],
    decreases n,
{
    if n > 0 {
        let last = n - 1;
        lemma_listed_in_step(a, b, sessions, last);
        // The room of `a[last]` stands somewhere in `b`, and not among the entries shared.
        let j = choose|j: int| 0 <= j < b.len() && (#[trigger] b[j]).0 == a[last].0;
        law_before_irreflexive(a[last].0);
        if j < last {
            assert(a[j] == b[j]);
            assert(before(a[j].0, a[last].0));
        }
        // Nor behind `b[last]`, whose own room would have no place in `a`.
        if j > last {
            let k = choose|k: int| 0 <= k < a.len() && (#[trigger] a[k]).0 == b[last].0;
            assert(before(b[last].0, b[j].0));
            if k < last {
                assert(a[k] == b[k]);
                assert(before(b[k].0, b[last].0));
                law_before_irreflexive(b[last].0);
            } else if k > last {
                assert(before(a[last].0, a[k].0));
                law_before_transitive(a[last].0, b[last].0, a[last].0);
            }
        }
    }
}

/// Putting an entry where its room belongs puts it over the room.
proof fn lemma_put(
    a: Listing,
    b: Listing,
    at: int,
    found: bool,
    room: Seq<char>,
    snapshot: SnapshotView,
    sessions: Sessions,
)
    requires
        lists(a, sessions),
        0 <= at <= a.len(),
        forall|i: int| 0 <= i < at ==> before((#[trigger] a[i]).0, room),
        found ==> at < a.len() && a[at].0 == room && b == a.update(at, (room, snapshot)),
        !found ==> b == a.insert(at, (room, snapshot)) && forall|i: int|
            at <= i < a.len() ==> before(room, (#[trigger] a[i]).0),
    ensures
        lists(b, sessions.insert(room, snapshot)),
{
    let all = sessions.insert(room, snapshot);
    let behind = if found {
        0int
    } else {
        1int
    };
    assert forall|i: int| 0 <= i < b.len() implies #[trigger] b[i] == (if i < at {
        a[i]
    } else if i == at {
        (room, snapshot)
    } else {
        a[i - behind]
    }) by {}
    assert forall|i: int, j: int| 0 <= i < j < b.len() implies before(
        (#[trigger] b[i]).0,
        (#[trigger] b[j]).0,
    ) by {
        if i < at && j < at {
            assert(before(a[i].0, a[j].0));
        } else if i < at && j == at {
            assert(before(a[i].0, room));
        } else if i < at {
            assert(before(a[i].0, a[j - behind].0));
        } else if i == at {
            assert(found ==> before(a[at].0, a[j].0));
            assert(!found ==> before(room, a[j - 1].0));
        } else {
            assert(before(a[i - behind].0, a[j - behind].0));
        }
    }
    law_before_irreflexive(room);
    assert forall|i: int| 0 <= i < b.len() implies all.contains_key((#[trigger] b[i]).0)
        && all[b[i].0] == b[i].1 by {
        if i < at {
            assert(before(b[i].0, b[at].0));
            assert(sessions.contains_key(a[i].0));
        } else if i > at {
            assert(before(b[at].0, b[i].0));
            assert(sessions.contains_key(a[i - behind].0));
        }
    }
    assert forall|other: Seq<char>| #[trigger] all.contains_key(other) implies exists|i: int|
        0 <= i < b.len() && (#[trigger] b[i]).0 == other by {
        if other == room {
            assert(b[at].0 == other);
        } else {
            let i = choose|i: int| 0 <= i < a.len() && (#[trigger] a[i]).0 == other;
            if i < at {
                assert(b[i].0 == other);
            } else {
                assert(b[i + behind].0 == other);
            }
        }
    }
}

/// Taking the entry of a room away takes the room away.
proof fn lemma_taken(
    a: Listing,
    b: Listing,
    at: int,
    found: bool,
    room: Seq<char>,
    sessions: Sessions,
)
    requires
        lists(a, sessions),
        0 <= at <= a.len(),
        forall|i: int| 0 <= i < at ==> before((#[trigger] a[i]).0, room),
        found ==> at < a.len() && a[at].0 == room && b == a.remove(at),
        !found ==> b == a && forall|i: int|
            at <= i < a.len() ==> before(room, (#[trigger] a[i]).0),
    ensures
        lists(b, sessions.remove(room)),
{
    let rest = sessions.remove(room);
    assert forall|i: int| 0 <= i < b.len() implies #[trigger] b[i] == (if i < at || !found {
        a[i]
    } else {
        a[i + 1]
    }) by {}
    assert forall|i: int, j: int| 0 <= i < j < b.len() implies before(
        (#[trigger] b[i]).0,
        (#[trigger] b[j]).0,
    ) by {
        let m = if i < at || !found {
            i
        } else {
            i + 1
        };
        let n = if j < at || !found {
            j
        } else {
            j + 1
        };
        assert(before(a[m].0, a[n].0));
    }
    law_before_irreflexive(room);
    assert forall|i: int| 0 <= i < b.len() implies rest.contains_key((#[trigger] b[i]).0)
        && rest[b[i].0] == b[i].1 by {
        let m = if i < at || !found {
            i
        } else {
            i + 1
        };
        assert(sessions.contains_key(a[m].0));
        if m < at {
            assert(before(a[m].0, room));
        } else if found {
            assert(before(a[at].0, a[m].0));
        } else {
            assert(before(room, a[m].0));
        }
    }
    assert forall|other: Seq<char>| #[trigger] rest.contains_key(other) implies exists|i: int|
        0 <= i < b.len() && (#[trigger] b[i]).0 == other by {
        let i = choose|i: int| 0 <= i < a.len() && (#[trigger] a[i]).0 == other;
        if i < at || !found {
            assert(b[i].0 == other);
        } else {
            assert(i != at);
            assert(b[i - 1].0 == other);
        }
    }
}

/// A listing is as long as the live interviews are many.
proof fn lemma_listing_counts(listing: Listing, sessions: Sessions)
    requires
        lists(listing, sessions),
    ensures
        sessions.dom().finite(),
        listing.len() == sessions.len(),
{
    let rooms = listing.map_values(|entry: (Seq<char>, SnapshotView)| entry.0);
    assert(rooms.no_duplicates()) by {
        assert forall|i: int, j: int|
            0 <= i < rooms.len() && 0 <= j < rooms.len() && i != j implies rooms[i] != rooms[j] by {
            if i < j {
                assert(before(listing[i].0, listing[j].0));
            } else {
                assert(before(listing[j].0, listing[i].0));
            }
            law_before_irreflexive(rooms[i]);
        }
    }
    rooms.unique_seq_to_set();
    vstd::seq_lib::seq_to_set_is_finite(rooms);
    assert forall|room: Seq<char>| rooms.to_set().contains(room) <==> #[trigger] sessions.dom().contains(
        room,
    ) by {
        if rooms.to_set().contains(room) {
            let i = choose|i: int| 0 <= i < rooms.len() && rooms[i] == room;
            assert(sessions.contains_key(listing[i].0));
        }
        if sessions.dom().contains(room) {
            assert(sessions.contains_key(room));
            let i = choose|i: int| 0 <= i < listing.len() && (#[trigger] listing[i]).0 == room;
            assert(rooms[i] == room);
        }
    }
    assert(rooms.to_set() =~= sessions.dom());
}

/// The place of a room that is not listed yet.
proof fn lemma_slot(listing: Listing, room: Seq<char>) -> (at: int)
    requires
        in_order(listing),
        forall|i: int| 0 <= i < listing.len() ==> (#[trigger] listing[i]).0 != room,
    ensures
        0 <= at <= listing.len(),
        forall|i: int| 0 <= i < at ==> before((#[trigger] listing[i]).0, room),
        forall|i: int| at <= i < listing.len() ==> before(room, (#[trigger] listing[i]).0),
    decreases listing.len(),
{
    if listing.len() == 0 {
        0
    } else {
        let last = listing.len() - 1;
        law_before_total(listing[last].0, room);
        if before(listing[last].0, room) {
            assert forall|i: int| 0 <= i < listing.len() implies before(
                (#[trigger] listing[i]).0,
                room,
            ) by {
                if i < last {
                    assert(before(listing[i].0, listing[last].0));
                    law_before_transitive(listing[i].0, listing[last].0, room);
                }
            }
            listing.len() as int
        } else {
            let rest = listing.take(last);
            assert forall|i: int, j: int| 0 <= i < j < rest.len() implies before(
                (#[trigger] rest[i]).0,
                (#[trigger] rest[j]).0,
            ) by {
                assert(rest[i] == listing[i] && rest[j] == listing[j]);
            }
            let at = lemma_slot(rest, room);
            assert forall|i: int| 0 <= i < at implies before((#[trigger] listing[i]).0, room) by {
                assert(rest[i] == listing[i]);
            }
            assert forall|i: int| at <= i < listing.len() implies before(
                room,
                (#[trigger] listing[i]).0,
            ) by {
                if i < last {
                    assert(rest[i] == listing[i]);
                }
            }
            at
        }
    }
}

/// Law: finitely many live interviews can be listed, and their listing is as long as they
/// are many.
pub proof fn law_listing_exists(sessions: Sessions)
    requires
        sessions.dom().finite(),
    ensures
        lists(listing(sessions), sessions),
        listing(sessions).len() == sessions.len(),
    decreases sessions.len(),
{
    if sessions.dom().is_empty() {
        let none: Listing = Seq::empty();
        assert forall|room: Seq<char>| #[trigger] sessions.contains_key(room) implies false by {
            assert(sessions.dom().contains(room));
        }
        assert(lists(none, sessions));
    } else {
        let room = sessions.dom().choose();
        let rest = sessions.remove(room);
        law_listing_exists(rest);
        let a = listing(rest);
        assert forall|i: int| 0 <= i < a.len() implies (#[trigger] a[i]).0 != room by {
            assert(rest.contains_key(a[i].0));
        }
        let at = lemma_slot(a, room);
        let b = a.insert(at, (room, sessions[room]));
        lemma_put(a, b, at, false, room, sessions[room], rest);
        assert(rest.insert(room, sessions[room]) =~= sessions);
        assert(lists(b, sessions));
    }
    lemma_listing_counts(listing(sessions), sessions);
}

/// Law: a listing of live interviews has each of them once, with what its room shows, and
/// nothing else, each room before every later one; and whatever does is a listing of them.
pub proof fn law_what_a_listing_is(entries: Listing, sessions: Sessions)
    ensures
        lists(entries, sessions) <==> {
            &&& forall|i: int, j: int|
                0 <= i < j < entries.len() ==> before(
                    (#[trigger] entries[i]).0,
                    (#[trigger] entries[j]).0,
                )
            &&& forall|i: int|
                0 <= i < entries.len() ==> sessions.dom().contains((#[trigger] entries[i]).0)
                    && sessions[entries[i].0] == entries[i].1
            &&& forall|room: Seq<char>| #[trigger]
                sessions.dom().contains(room) ==> exists|i: int|
                    0 <= i < entries.len() && (#[trigger] entries[i]).0 == room
        },
        lists(entries, sessions) ==> entries == listing(sessions),
{
    if lists(entries, sessions) {
        law_one_listing(entries, entries, sessions);
        assert forall|room: Seq<char>| #[trigger]
            sessions.dom().contains(room) implies exists|i: int|
            0 <= i < entries.len() && (#[trigger] entries[i]).0 == room by {
            assert(sessions.contains_key(room));
        }
    }
}

/// Law: a list of rooms and snapshots lists each of them in its place.
pub proof fn law_entries_are_listed_in_place(entries: Seq<(String, Snapshot)>)
    ensures
        listing_of(entries).len() == entries.len(),
        forall|i: int|
            0 <= i < entries.len() ==> (#[trigger] listing_of(entries)[i]).0 == entries[i].0@
                && listing_of(entries)[i].1 == entries[i].1@,
{
}

/// What a list of rooms and snapshots lists.
pub open spec fn listing_of(entries: Seq<(String, Snapshot)>) -> Listing {
    entries.map_values(|entry: (String, Snapshot)| (entry.0@, entry.1@))
}

/// The live interviews that `entries` hold.
closed spec fn sessions_of(entries: Listing) -> Sessions
    decreases entries.len(),
{
    if entries.len() == 0 {
        Map::empty()
    } else {
        sessions_of(entries.take(entries.len() - 1)).insert(entries.last().0, entries.last().1)
    }
}

/// Entries in order list what they hold.
proof fn lemma_entries_listed(entries: Listing)
    requires
        in_order(entries),
    ensures
        lists(entries, sessions_of(entries)),
    decreases entries.len(),
{
    let sessions = sessions_of(entries);
    if entries.len() > 0 {
        let rest = entries.take(entries.len() - 1);
        let last = entries.last();
        assert(in_order(rest)) by {
            assert forall|i: int, j: int| 0 <= i < j < rest.len() implies before(
                (#[trigger] rest[i]).0,
                (#[trigger] rest[j]).0,
            ) by {
                assert(rest[i] == entries[i] && rest[j] == entries[j]);
            }
        }
        lemma_entries_listed(rest);
        assert forall|i: int| 0 <= i < entries.len() implies sessions.contains_key(
            (#[trigger] entries[i]).0,
        ) && sessions[entries[i].0] == entries[i].1 by {
            if i < rest.len() {
                assert(rest[i] == entries[i]);
                assert(before(entries[i].0, entries[entries.len() - 1].0));
                law_before_irreflexive(last.0);
            }
        }
        assert forall|room: Seq<char>| #[trigger] sessions.contains_key(room) implies exists|i: int|
            0 <= i < entries.len() && (#[trigger] entries[i]).0 == room by {
            if room == last.0 {
                assert(entries[entries.len() - 1].0 == room);
            } else {
                let i = choose|i: int| 0 <= i < rest.len() && (#[trigger] rest[i]).0 == room;
                assert(entries[i].0 == room);
            }
        }
    }
}

/// What entries in order list, they hold.
proof fn lemma_listed_entries(entries: Listing, sessions: Sessions)
    requires
        lists(entries, sessions),
    ensures
        sessions_of(entries) == sessions,
{
    lemma_entries_listed(entries);
    let held = sessions_of(entries);
    assert forall|room: Seq<char>| held.contains_key(room) <==> #[trigger] sessions.contains_key(
        room,
    ) by {
        if held.contains_key(room) {
            let i = choose|i: int| 0 <= i < entries.len() && (#[trigger] entries[i]).0 == room;
            assert(sessions.contains_key(entries[i].0));
        }
        if sessions.contains_key(room) {
            let i = choose|i: int| 0 <= i < entries.len() && (#[trigger] entries[i]).0 == room;
            assert(held.contains_key(entries[i].0));
        }
    }
    assert forall|room: Seq<char>| #[trigger] held.contains_key(room) implies held[room]
        == sessions[room] by {
        let i = choose|i: int| 0 <= i < entries.len() && (#[trigger] entries[i]).0 == room;
        assert(held[entries[i].0] == entries[i].1);
    }
    assert(held =~= sessions);
}

/// Live interviews by room, for the interviewers that write them and the route that reads
/// them.
///
/// Also carries the token that turns the route on, so the route and its switch cannot be
/// configured apart.
#[derive(Debug)]
pub struct MentorBoard {
    sessions: Vec<(String, Snapshot)>,
    token: Option<String>,
}

impl View for MentorBoard {
    type V = BoardView;

    closed spec fn view(&self) -> BoardView {
        BoardView {
            sessions: sessions_of(listing_of(self.sessions@)),
            token: match self.token {
                Some(token) => Some(token@),
                None => None,
            },
        }
    }
}

/// The entry that `room` has or would have: the first that does not stand before it, and
/// whether it is the room's own.
fn position(entries: &Vec<(String, Snapshot)>, room: &str) -> (res: (usize, bool))
    requires
        in_order(listing_of(entries@)),
    ensures
        res.0 <= entries.len(),
        forall|i: int| 0 <= i < res.0 ==> before((#[trigger] entries@[i]).0@, room@),
        res.1 ==> res.0 < entries.len() && entries@[res.0 as int].0@ == room@,
        !res.1 ==> forall|i: int|
            res.0 <= i < entries.len() ==> before(room@, (#[trigger] entries@[i]).0@),
{
    let mut at: usize = 0;
    while at < entries.len()
        invariant
            in_order(listing_of(entries@)),
            at <= entries.len(),
            forall|i: int| 0 <= i < at ==> before((#[trigger] entries@[i]).0@, room@),
        decreases entries.len() - at,
    {
        match place(&entries[at].0, room) {
            Place::Before => {
                at = at + 1;
            },
            Place::Same => {
                return (at, true);
            },
            Place::After => {
                assert forall|i: int| at <= i < entries.len() implies before(
                    room@,
                    (#[trigger] entries@[i]).0@,
                ) by {
                    if i > at {
                        let listing = listing_of(entries@);
                        assert(before(listing[at as int].0, listing[i].0));
                        law_before_transitive(room@, entries@[at as int].0@, entries@[i].0@);
                    }
                }
                return (at, false);
            },
        }
    }
    (at, false)
}

/// The token that an operator who gave `token` turns the route on with: what is left of it
/// without the white space at its ends, and none where nothing is left.
pub open spec fn configured(token: Option<Seq<char>>) -> Option<Seq<char>> {
    match token {
        Some(token) => if trimmed(token).len() > 0 {
            Some(trimmed(token))
        } else {
            None
        },
        None => None,
    }
}

/// Whether a board with this `token` lets in who presents `presented`: the SHA-256 digests
/// of the two are the same.
pub open spec fn lets_in(token: Option<Seq<char>>, presented: Seq<char>) -> bool {
    match token {
        Some(token) => sha256_digest(encode_utf8(token)) == sha256_digest(encode_utf8(presented)),
        None => false,
    }
}

/// Law: the token that turns the route on is the one an operator gave, without the white space
/// at its ends and otherwise whole. One of nothing but white space turns nothing on, and neither
/// does none.
pub proof fn law_the_token_given_is_configured(
    head: Seq<char>,
    middle: Seq<char>,
    tail: Seq<char>,
)
    requires
        forall|i: int| 0 <= i < head.len() ==> white_space(#[trigger] head[i]),
        forall|i: int| 0 <= i < tail.len() ==> white_space(#[trigger] tail[i]),
        middle.len() > 0 ==> !white_space(middle[0]) && !white_space(middle[middle.len() - 1]),
    ensures
        middle.len() > 0 ==> configured(Some(head + middle + tail)) == Some(middle),
        middle.len() == 0 ==> configured(Some(head + middle + tail)) is None,
        configured(None) is None,
{
    law_trimming_takes_the_ends_off(head, middle, tail);
}

/// Law: a token lets in whoever presents that token, and no one whose token has another SHA-256
/// digest; of tokens with its digest it lets every one in. Without a token no one is let in.
pub proof fn law_digests_decide(token: Seq<char>, presented: Seq<char>)
    ensures
        lets_in(Some(token), token),
        sha256_digest(encode_utf8(token)) != sha256_digest(encode_utf8(presented)) ==> !lets_in(
            Some(token),
            presented,
        ),
        sha256_digest(encode_utf8(token)) == sha256_digest(encode_utf8(presented)) ==> lets_in(
            Some(token),
            presented,
        ),
        !lets_in(None, presented),
{
}

/// The SHA-256 digest of a token.
pub fn token_digest(token: &str) -> (res: [u8; 32])
    ensures
        res@ == sha256_digest(encode_utf8(token@)),
{
    sha256(token.as_bytes())
}

impl MentorBoard {
    #[verifier::type_invariant]
    spec fn listed(self) -> bool {
        in_order(listing_of(self.sessions@))
    }

    /// A board without interviews that `token` turns on, unless it is blank.
    pub fn with_token(token: Option<String>) -> (res: MentorBoard)
        ensures
            res@.sessions == Map::<Seq<char>, SnapshotView>::empty(),
            res@.token == configured(
                match token {
                    Some(token) => Some(token@),
                    None => None,
                },
            ),
            res@.wf(),
    {
        let token: Option<String> = match token {
            Some(token) => {
                let token = trim(&token);
                if token.as_str().is_empty() {
                    None
                } else {
                    Some(token)
                }
            },
            None => None,
        };
        let sessions: Vec<(String, Snapshot)> = Vec::new();
        proof {
            lemma_entries_listed(listing_of(sessions@));
            lemma_listing_counts(listing_of(sessions@), sessions_of(listing_of(sessions@)));
        }
        MentorBoard { sessions, token }
    }

    /// Whether a token turns the route on.
    pub fn enabled(&self) -> (res: bool)
        ensures
            res == self@.token is Some,
    {
        self.token.is_some()
    }

    /// Whether `presented` is the configured token. Compared as SHA-256 digests, so the time
    /// taken does not depend on how much of it matched.
    pub fn authorizes(&self, presented: &str) -> (res: bool)
        ensures
            res == lets_in(self@.token, presented@),
    {
        match &self.token {
            Some(token) => {
                let expected = token_digest(token);
                let found = token_digest(presented);
                same_bytes(&expected, &found)
            },
            None => false,
        }
    }

    /// Makes `snapshot` what the room shows.
    pub fn publish(&mut self, room: &str, snapshot: Snapshot)
        ensures
            final(self)@.sessions == old(self)@.sessions.insert(room@, snapshot@),
            final(self)@.token == old(self)@.token,
            final(self)@.wf(),
    {
        proof {
            use_type_invariant(&*self);
        }
        let mut entries: Vec<(String, Snapshot)> = Vec::new();
        std::mem::swap(&mut entries, &mut self.sessions);
        let ghost old_entries = entries@;
        let (at, found) = position(&entries, room);
        let entry = (room.to_owned(), snapshot);
        if found {
            entries.set(at, entry);
        } else {
            entries.insert(at, entry);
        }
        proof {
            let (a, b) = (listing_of(old_entries), listing_of(entries@));
            lemma_entries_listed(a);
            if found {
                assert(b =~= a.update(at as int, (room@, snapshot@)));
            } else {
                assert(b =~= a.insert(at as int, (room@, snapshot@)));
            }
            lemma_put(a, b, at as int, found, room@, snapshot@, sessions_of(a));
            lemma_listed_entries(b, sessions_of(a).insert(room@, snapshot@));
            lemma_listing_counts(b, sessions_of(b));
        }
        self.sessions = entries;
    }

    /// Takes away what the room shows.
    pub fn remove(&mut self, room: &str)
        ensures
            final(self)@.sessions == old(self)@.sessions.remove(room@),
            final(self)@.token == old(self)@.token,
            final(self)@.wf(),
    {
        proof {
            use_type_invariant(&*self);
        }
        let mut entries: Vec<(String, Snapshot)> = Vec::new();
        std::mem::swap(&mut entries, &mut self.sessions);
        let ghost old_entries = entries@;
        let (at, found) = position(&entries, room);
        if found {
            let _ = entries.remove(at);
        }
        proof {
            let (a, b) = (listing_of(old_entries), listing_of(entries@));
            lemma_entries_listed(a);
            if found {
                assert(b =~= a.remove(at as int));
            }
            lemma_taken(a, b, at as int, found, room@, sessions_of(a));
            lemma_listed_entries(b, sessions_of(a).remove(room@));
            lemma_listing_counts(b, sessions_of(b));
        }
        self.sessions = entries;
    }

    /// The live interviews in the order of their rooms.
    pub fn sessions(&self) -> (res: Vec<(String, Snapshot)>)
        ensures
            lists(listing_of(res@), self@.sessions),
            listing_of(res@) == listing(self@.sessions),
            self@.wf(),
    {
        let entries = self.entries();
        let mut copies: Vec<(String, Snapshot)> = Vec::new();
        while copies.len() < entries.len()
            invariant
                copies.len() <= entries.len(),
                listing_of(copies@) == listing_of(entries@).take(copies.len() as int),
            decreases entries.len() - copies.len(),
        {
            let at: usize = copies.len();
            copies.push((entries[at].0.clone(), entries[at].1.clone()));
            assert(listing_of(copies@) =~= listing_of(entries@).take(at + 1));
        }
        assert(listing_of(copies@) =~= listing_of(entries@));
        copies
    }

    /// The live interviews in the order of their rooms, where they stand.
    pub(crate) fn entries(&self) -> (res: &Vec<(String, Snapshot)>)
        ensures
            lists(listing_of(res@), self@.sessions),
            listing_of(res@) == listing(self@.sessions),
            self@.wf(),
    {
        proof {
            use_type_invariant(self);
            let entries = listing_of(self.sessions@);
            lemma_entries_listed(entries);
            law_one_listing(entries, entries, self@.sessions);
            lemma_listing_counts(entries, self@.sessions);
        }
        &self.sessions
    }
}

impl Default for MentorBoard {
    /// A board without interviews that is off.
    fn default() -> (res: MentorBoard)
        ensures
            res@.sessions == Map::<Seq<char>, SnapshotView>::empty(),
            res@.token is None,
            res@.wf(),
    {
        MentorBoard::with_token(None)
    }
}

/// The promise to take a room's snapshot away when the interview that published it ends. A
/// snapshot left behind would keep offering a finished interview's code as live.
#[derive(Debug)]
pub struct Published {
    pub room: String,
}

impl Published {
    /// The promise for `room`.
    pub fn new(room: &str) -> (res: Published)
        ensures
            res.room@ == room@,
    {
        Published { room: room.to_owned() }
    }

    /// Keeps the promise: the interview is over.
    pub fn end(self, board: &mut MentorBoard)
        ensures
            final(board)@.sessions == old(board)@.sessions.remove(self.room@),
            final(board)@.token == old(board)@.token,
            final(board)@.wf(),
    {
        board.remove(&self.room);
    }
}

} // verus!
