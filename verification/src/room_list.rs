//! The order of the room list: by name without regard to case, or by
//! most recent activity; rooms that rank alike stand in the order of their
//! handles.
use crate::event::{RoomId, Timestamp};
use crate::message::RoomSorting;
use crate::room::RoomModel;
use vstd::prelude::*;
use vstd::utf8::encode_utf8;

verus! {

/// The text that `str::to_uppercase` makes of a text.
pub uninterp spec fn uppercased(text: Seq<char>) -> Seq<char>;

/// Whether a sequence of bytes stands before another in the order of a
/// dictionary, or equals it: at the first place where they differ it has
/// the smaller byte, or it ends where the other goes on.
pub open spec fn lex_le(a: Seq<u8>, b: Seq<u8>) -> bool
    decreases a.len(),
{
    if a.len() == 0 {
        true
    } else if b.len() == 0 {
        false
    } else if a[0] != b[0] {
        a[0] < b[0]
    } else {
        lex_le(a.drop_first(), b.drop_first())
    }
}

/// By what a room is ranked.
pub struct Rank {
    /// The bytes of the name in upper case.
    pub key: Seq<u8>,
    /// Most recent activity.
    pub updated: Timestamp,
}

/// The rank of a room entry.
pub open spec fn rank_of(entry: RoomModel) -> Rank {
    Rank { key: encode_utf8(uppercased(entry.name)), updated: entry.messages.updated }
}

/// Whether a rank does not come after another: by name, its key does not
/// come after the other's; by activity, it is not less recent.
pub open spec fn not_after(sorting: RoomSorting, a: Rank, b: Rank) -> bool {
    match sorting {
        RoomSorting::Alphabetic => lex_le(a.key, b.key),
        RoomSorting::Recent => a.updated >= b.updated,
    }
}

/// Whether room `a` of rank `first` stands before room `b` of rank
/// `second`: its rank comes first, or the ranks are alike and its handle
/// is the smaller.
pub open spec fn ranked_before(
    sorting: RoomSorting,
    first: Rank,
    a: RoomId,
    second: Rank,
    b: RoomId,
) -> bool {
    if not_after(sorting, first, second) && not_after(sorting, second, first) {
        a < b
    } else {
        not_after(sorting, first, second)
    }
}

/// Whether room `a` stands before room `b` in a list of rooms.
pub open spec fn stands_before(
    sorting: RoomSorting,
    rooms: Map<RoomId, RoomModel>,
    a: RoomId,
    b: RoomId,
) -> bool {
    ranked_before(sorting, rank_of(rooms[a]), a, rank_of(rooms[b]), b)
}

/// Whether a room is left out of the list: it was upgraded, and the room
/// that replaced it has an entry.
pub open spec fn hidden(
    rooms: Map<RoomId, RoomModel>,
    upgrades: Seq<(RoomId, RoomId)>,
    room: RoomId,
) -> bool {
    exists|i: int|
        0 <= i < upgrades.len() && (#[trigger] upgrades[i]).0 == room && rooms.contains_key(
            upgrades[i].1,
        )
}

/// Whether a room is in the list of direct conversations, or in that of
/// the other rooms: it has an entry, is not left out, and is of that kind.
pub open spec fn belongs(
    rooms: Map<RoomId, RoomModel>,
    upgrades: Seq<(RoomId, RoomId)>,
    direct: bool,
    room: RoomId,
) -> bool {
    &&& rooms.contains_key(room)
    &&& !hidden(rooms, upgrades, room)
    &&& (rooms[room].direct is Some) == direct
}

/// Whether a list is the list of direct conversations, or that of the
/// other rooms: it holds the rooms that belong in it, in their order.
pub open spec fn listed(
    rooms: Map<RoomId, RoomModel>,
    upgrades: Seq<(RoomId, RoomId)>,
    sorting: RoomSorting,
    direct: bool,
    list: Seq<RoomId>,
) -> bool {
    &&& forall|room: RoomId| list.contains(room) <==> belongs(rooms, upgrades, direct, room)
    &&& forall|i: int, j: int|
        0 <= i < j < list.len() ==> stands_before(sorting, rooms, list[i], list[j])
}

/// Of two sequences of bytes, one does not come after the other.
pub proof fn lemma_lex_total(a: Seq<u8>, b: Seq<u8>)
    ensures
        lex_le(a, b) || lex_le(b, a),
    decreases a.len(),
{
    if a.len() > 0 && b.len() > 0 && a[0] == b[0] {
        lemma_lex_total(a.drop_first(), b.drop_first());
    }
}

/// The order of a dictionary is transitive.
pub proof fn lemma_lex_transitive(a: Seq<u8>, b: Seq<u8>, c: Seq<u8>)
    requires
        lex_le(a, b),
        lex_le(b, c),
    ensures
        lex_le(a, c),
    decreases a.len(),
{
    if a.len() > 0 && a[0] == b[0] && b[0] == c[0] {
        lemma_lex_transitive(a.drop_first(), b.drop_first(), c.drop_first());
    }
}

/// Of two rooms, one stands before the other.
pub proof fn lemma_ranked_total(sorting: RoomSorting, first: Rank, a: RoomId, second: Rank, b: RoomId)
    requires
        a != b,
    ensures
        ranked_before(sorting, first, a, second, b) || ranked_before(
            sorting,
            second,
            b,
            first,
            a,
        ),
{
    lemma_lex_total(first.key, second.key);
}

/// Standing before is transitive.
pub proof fn lemma_ranked_transitive(
    sorting: RoomSorting,
    first: Rank,
    a: RoomId,
    second: Rank,
    b: RoomId,
    third: Rank,
    c: RoomId,
)
    requires
        ranked_before(sorting, first, a, second, b),
        ranked_before(sorting, second, b, third, c),
    ensures
        ranked_before(sorting, first, a, third, c),
{
    if sorting == RoomSorting::Alphabetic {
        lemma_lex_transitive(first.key, second.key, third.key);
        if lex_le(third.key, first.key) {
            lemma_lex_transitive(third.key, first.key, second.key);
            lemma_lex_transitive(second.key, third.key, first.key);
        }
    }
}

/// The rest of a list in order is in order.
proof fn lemma_list_tail(rooms: Map<RoomId, RoomModel>, sorting: RoomSorting, list: Seq<RoomId>)
    requires
        list.len() > 0,
        forall|i: int, j: int|
            0 <= i < j < list.len() ==> stands_before(sorting, rooms, list[i], list[j]),
    ensures
        forall|i: int, j: int|
            0 <= i < j < list.len() - 1 ==> stands_before(
                sorting,
                rooms,
                list.drop_first()[i],
                list.drop_first()[j],
            ),
{
    let rest = list.drop_first();
    assert forall|i: int, j: int| 0 <= i < j < rest.len() implies stands_before(
        sorting,
        rooms,
        rest[i],
        rest[j],
    ) by {
        assert(stands_before(sorting, rooms, list[i + 1], list[j + 1]));
    }
}

/// Two lists in order that hold the same rooms are the same list.
proof fn lemma_ordered_lists_agree(
    rooms: Map<RoomId, RoomModel>,
    sorting: RoomSorting,
    one: Seq<RoomId>,
    other: Seq<RoomId>,
)
    requires
        forall|room: RoomId| one.contains(room) <==> other.contains(room),
        forall|i: int, j: int|
            0 <= i < j < one.len() ==> stands_before(sorting, rooms, one[i], one[j]),
        forall|i: int, j: int|
            0 <= i < j < other.len() ==> stands_before(sorting, rooms, other[i], other[j]),
    ensures
        one == other,
    decreases one.len(),
{
    if one.len() == 0 {
        if other.len() > 0 {
            assert(other.contains(other[0]));
        }
        assert(one =~= other);
    } else {
        let top = one[0];
        assert(one.contains(top));
        let at = choose|at: int| 0 <= at < other.len() && other[at] == top;
        lemma_lex_total(rank_of(rooms[top]).key, rank_of(rooms[top]).key);
        if at > 0 {
            let ahead = other[0];
            assert(other.contains(ahead));
            let back = choose|back: int| 0 <= back < one.len() && one[back] == ahead;
            assert(stands_before(sorting, rooms, other[0], other[at]));
            if back > 0 {
                assert(stands_before(sorting, rooms, one[0], one[back]));
                lemma_ranked_transitive(
                    sorting,
                    rank_of(rooms[top]),
                    top,
                    rank_of(rooms[ahead]),
                    ahead,
                    rank_of(rooms[top]),
                    top,
                );
            }
        }
        assert(other[0] == top);
        let rest = one.drop_first();
        let others = other.drop_first();
        assert forall|room: RoomId| rest.contains(room) <==> others.contains(room) by {
            if rest.contains(room) {
                let i = choose|i: int| 0 <= i < rest.len() && rest[i] == room;
                assert(one[i + 1] == room);
                assert(stands_before(sorting, rooms, one[0], one[i + 1]));
                assert(room != top);
                assert(one.contains(room));
                let j = choose|j: int| 0 <= j < other.len() && other[j] == room;
                assert(others[j - 1] == room);
            }
            if others.contains(room) {
                let j = choose|j: int| 0 <= j < others.len() && others[j] == room;
                assert(other[j + 1] == room);
                assert(stands_before(sorting, rooms, other[0], other[j + 1]));
                assert(room != top);
                assert(other.contains(room));
                let i = choose|i: int| 0 <= i < one.len() && one[i] == room;
                assert(rest[i - 1] == room);
            }
        }
        lemma_list_tail(rooms, sorting, one);
        lemma_list_tail(rooms, sorting, other);
        lemma_ordered_lists_agree(rooms, sorting, rest, others);
        assert(one =~= seq![top] + rest);
        assert(other =~= seq![top] + others);
    }
}

/// The order of a list of rooms leaves no choice: two lists of the same
/// kind for the same rooms are the same list.
pub proof fn law_room_list_is_unique(
    rooms: Map<RoomId, RoomModel>,
    upgrades: Seq<(RoomId, RoomId)>,
    sorting: RoomSorting,
    direct: bool,
    one: Seq<RoomId>,
    other: Seq<RoomId>,
)
    requires
        listed(rooms, upgrades, sorting, direct, one),
        listed(rooms, upgrades, sorting, direct, other),
    ensures
        one == other,
{
    lemma_ordered_lists_agree(rooms, sorting, one, other);
}

/// Turns a text into upper case with `str::to_uppercase`.
///
/// Trusted: that the result depends on the text alone, which is what
/// `uppercased` names.
#[verifier::external_body]
fn uppercase(text: &str) -> (upper: String)
    ensures
        upper@ == uppercased(text@),
{
    text.to_uppercase()
}

/// Compares two texts with `<=` of `str`.
///
/// Trusted: that texts are ordered as the sequences of their bytes are in
/// a dictionary, which is how the standard library documents the order.
#[verifier::external_body]
fn text_le(a: &str, b: &str) -> (le: bool)
    ensures
        le == lex_le(encode_utf8(a@), encode_utf8(b@)),
{
    a <= b
}

/// A room with what it is ranked by.
pub struct Ranked {
    /// The room.
    pub room: RoomId,
    /// The name of the room in upper case.
    pub key: String,
    /// Most recent activity in the room.
    pub updated: Timestamp,
}

impl Ranked {
    /// The rank of the room.
    pub open spec fn rank(self) -> Rank {
        Rank { key: encode_utf8(self.key@), updated: self.updated }
    }

    /// A room with what it is ranked by: its name in upper case and its
    /// most recent activity.
    pub fn new(room: RoomId, name: &str, updated: Timestamp) -> (ranked: Self)
        ensures
            ranked.room == room,
            ranked.rank() == (Rank { key: encode_utf8(uppercased(name@)), updated }),
    {
        Ranked { room, key: uppercase(name), updated }
    }

    /// Whether this rank does not come after another.
    fn not_after(&self, other: &Ranked, sorting: RoomSorting) -> (holds: bool)
        ensures
            holds == not_after(sorting, self.rank(), other.rank()),
    {
        match sorting {
            RoomSorting::Alphabetic => text_le(self.key.as_str(), other.key.as_str()),
            RoomSorting::Recent => self.updated >= other.updated,
        }
    }

    /// Whether this room stands before another.
    pub fn stands_before(&self, other: &Ranked, sorting: RoomSorting) -> (before: bool)
        ensures
            before == ranked_before(sorting, self.rank(), self.room, other.rank(), other.room),
    {
        let forth = self.not_after(other, sorting);
        let back = other.not_after(self, sorting);
        if forth && back {
            self.room < other.room
        } else {
            forth
        }
    }
}

/// Whether the rooms of a list stand in their order.
pub open spec fn in_order(sorting: RoomSorting, list: Seq<Ranked>) -> bool {
    forall|i: int, j: int|
        0 <= i < j < list.len() ==> ranked_before(
            sorting,
            (#[trigger] list[i]).rank(),
            list[i].room,
            (#[trigger] list[j]).rank(),
            list[j].room,
        )
}

/// The rooms of a list.
pub open spec fn rooms_of(list: Seq<Ranked>) -> Seq<RoomId> {
    list.map_values(|ranked: Ranked| ranked.room)
}

/// Puts a room into a list at its place.
pub fn place(list: &mut Vec<Ranked>, ranked: Ranked, sorting: RoomSorting)
    requires
        in_order(sorting, old(list)@),
        forall|i: int| 0 <= i < old(list)@.len() ==> (#[trigger] old(list)@[i]).room != ranked.room,
    ensures
        in_order(sorting, final(list)@),
        exists|at: int|
            0 <= at <= old(list)@.len() && final(list)@ == old(list)@.insert(at, ranked),
{
    let mut at: usize = list.len();
    while at > 0 && ranked.stands_before(&list[at - 1], sorting)
        invariant
            at <= list@.len(),
            list@ == old(list)@,
            forall|j: int|
                at <= j < list@.len() ==> ranked_before(
                    sorting,
                    ranked.rank(),
                    ranked.room,
                    (#[trigger] list@[j]).rank(),
                    list@[j].room,
                ),
        decreases at,
    {
        at -= 1;
    }
    proof {
        let before = list@;
        let after = before.insert(at as int, ranked);
        assert forall|i: int, j: int| 0 <= i < j < after.len() implies ranked_before(
            sorting,
            (#[trigger] after[i]).rank(),
            after[i].room,
            (#[trigger] after[j]).rank(),
            after[j].room,
        ) by {
            if j < at {
                assert(after[i] == before[i] && after[j] == before[j]);
            } else if j == at {
                assert(after[i] == before[i]);
                let last = before[at - 1];
                lemma_ranked_total(sorting, ranked.rank(), ranked.room, last.rank(), last.room);
                if i < at - 1 {
                    lemma_ranked_transitive(
                        sorting,
                        before[i].rank(),
                        before[i].room,
                        last.rank(),
                        last.room,
                        ranked.rank(),
                        ranked.room,
                    );
                }
            } else if i == at {
                assert(after[j] == before[j - 1]);
            } else if i < at {
                assert(after[i] == before[i] && after[j] == before[j - 1]);
            } else {
                assert(after[i] == before[i - 1] && after[j] == before[j - 1]);
            }
        }
    }
    list.insert(at, ranked);
}

/// The rooms of a list into which a room was put are those that were
/// there and the room.
pub proof fn lemma_placed_rooms(before: Seq<Ranked>, after: Seq<Ranked>, ranked: Ranked)
    requires
        exists|at: int| 0 <= at <= before.len() && after == before.insert(at, ranked),
    ensures
        forall|room: RoomId|
            rooms_of(after).contains(room) <==> rooms_of(before).contains(room) || room
                == ranked.room,
        forall|i: int|
            0 <= i < after.len() ==> (#[trigger] after[i]) == ranked || before.contains(after[i]),
{
    let at = choose|at: int| 0 <= at <= before.len() && after == before.insert(at, ranked);
    assert forall|room: RoomId| rooms_of(after).contains(room) <==> rooms_of(before).contains(
        room,
    ) || room == ranked.room by {
        if rooms_of(after).contains(room) {
            let k = choose|k: int| 0 <= k < rooms_of(after).len() && rooms_of(after)[k] == room;
            if k < at {
                assert(rooms_of(before)[k] == room);
            } else if k > at {
                assert(rooms_of(before)[k - 1] == room);
            }
        }
        if rooms_of(before).contains(room) {
            let k = choose|k: int| 0 <= k < rooms_of(before).len() && rooms_of(before)[k] == room;
            let to = if k < at { k } else { k + 1 };
            assert(rooms_of(after)[to] == room);
        }
        if room == ranked.room {
            assert(rooms_of(after)[at] == room);
        }
    }
    assert forall|i: int| 0 <= i < after.len() implies (#[trigger] after[i]) == ranked
        || before.contains(after[i]) by {
        if i < at {
            assert(before[i] == after[i]);
        } else if i > at {
            assert(before[i - 1] == after[i]);
        }
    }
}

/// The rooms of a list, in the order of the list.
pub fn rooms_in(list: &Vec<Ranked>) -> (rooms: Vec<RoomId>)
    ensures
        rooms@ == rooms_of(list@),
{
    let mut rooms: Vec<RoomId> = Vec::new();
    let mut at: usize = 0;
    while at < list.len()
        invariant
            at <= list@.len(),
            rooms@ == rooms_of(list@.take(at as int)),
        decreases list@.len() - at,
    {
        rooms.push(list[at].room);
        assert(rooms@ =~= rooms_of(list@.take(at + 1)));
        at += 1;
    }
    assert(list@.take(list@.len() as int) =~= list@);
    rooms
}

} // verus!
