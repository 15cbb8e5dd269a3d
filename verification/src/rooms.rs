//! The voice rooms that are currently occupied, and who is in each of them.
//!
//! A room exists while at least one participant is in it; a room holds at
//! most `MAX_ROOM_MEMBERS` participants; no two rooms share a name.

use crate::text::text_eq;
use vstd::prelude::*;

verus! {

/// How many participants a room holds at most.
pub const MAX_ROOM_MEMBERS: usize = 10;

/// A participant's connection id and display name.
pub type MemberView = (u128, Seq<char>);

/// A room's name and its participants, in the order in which they joined.
pub type RoomView = (Seq<char>, Seq<MemberView>);

/// A participant of a voice room.
#[derive(Debug)]
pub struct Member {
    pub id: u128,
    pub name: String,
}

impl View for Member {
    type V = MemberView;

    open spec fn view(&self) -> MemberView {
        (self.id, self.name@)
    }
}

impl Member {
    pub fn duplicate(&self) -> (r: Member)
        ensures
            r@ == self@,
    {
        Member { id: self.id, name: self.name.clone() }
    }
}

/// An occupied voice room.
#[derive(Debug)]
pub struct Room {
    pub name: String,
    pub members: Vec<Member>,
}

pub open spec fn members_view(ms: Seq<Member>) -> Seq<MemberView> {
    ms.map_values(|m: Member| m@)
}

impl View for Room {
    type V = RoomView;

    open spec fn view(&self) -> RoomView {
        (self.name@, members_view(self.members@))
    }
}

pub open spec fn rooms_view(rs: Seq<Room>) -> Seq<RoomView> {
    rs.map_values(|r: Room| r@)
}

/// Room names are distinct; every room has between one and
/// `MAX_ROOM_MEMBERS` participants.
pub open spec fn registry_ok(v: Seq<RoomView>) -> bool {
    &&& forall|i: int, j: int| 0 <= i < j < v.len() ==> v[i].0 != v[j].0
    &&& forall|i: int| 0 <= i < v.len() ==> 0 < #[trigger] v[i].1.len() <= MAX_ROOM_MEMBERS
}

pub open spec fn has_room(v: Seq<RoomView>, name: Seq<char>) -> bool {
    exists|i: int| 0 <= i < v.len() && v[i].0 == name
}

/// The position of the room called `name`.
pub open spec fn room_pos(v: Seq<RoomView>, name: Seq<char>) -> int {
    choose|i: int| 0 <= i < v.len() && v[i].0 == name
}

/// The participants of the room called `name` (none where there is no such room).
pub open spec fn members_of(v: Seq<RoomView>, name: Seq<char>) -> Seq<MemberView> {
    if has_room(v, name) {
        v[room_pos(v, name)].1
    } else {
        Seq::empty()
    }
}

/// Whether the participant `id` is in the room called `name`.
pub open spec fn in_room(v: Seq<RoomView>, name: Seq<char>, id: u128) -> bool {
    exists|j: int| 0 <= j < members_of(v, name).len() && members_of(v, name)[j].0 == id
}

/// Whether a participant is someone other than `id`.
pub open spec fn not_id(id: u128) -> spec_fn(MemberView) -> bool {
    |m: MemberView| m.0 != id
}

/// The participants other than `id`.
pub open spec fn others(ms: Seq<MemberView>, id: u128) -> Seq<MemberView> {
    ms.filter(not_id(id))
}

/// The rooms after `id` left the room called `name`: the room loses every
/// entry of `id`, and disappears when nobody is left in it.
pub open spec fn after_leave(v: Seq<RoomView>, name: Seq<char>, id: u128) -> Seq<RoomView> {
    if has_room(v, name) {
        let i = room_pos(v, name);
        let kept = others(v[i].1, id);
        if kept.len() == 0 {
            v.remove(i)
        } else {
            v.update(i, (name, kept))
        }
    } else {
        v
    }
}

/// Whether the room called `name` has space for one more participant (a room
/// that does not exist yet always has).
pub open spec fn has_space(v: Seq<RoomView>, name: Seq<char>) -> bool {
    members_of(v, name).len() < MAX_ROOM_MEMBERS
}

/// The rooms after `m` entered the room called `name`, which must have space:
/// it is appended to the room's participants, or a new room holding only `m`
/// is appended.
pub open spec fn after_enter(v: Seq<RoomView>, name: Seq<char>, m: MemberView) -> Seq<RoomView> {
    if has_room(v, name) {
        let i = room_pos(v, name);
        v.update(i, (name, v[i].1.push(m)))
    } else {
        v.push((name, seq![m]))
    }
}

pub proof fn lemma_room_pos(v: Seq<RoomView>, name: Seq<char>, i: int)
    requires
        registry_ok(v),
        0 <= i < v.len(),
        v[i].0 == name,
    ensures
        has_room(v, name),
        room_pos(v, name) == i,
        members_of(v, name) == v[i].1,
{
    let k = room_pos(v, name);
    assert(0 <= k < v.len() && v[k].0 == name);
    if k < i {
        assert(v[k].0 != v[i].0);
    } else if i < k {
        assert(v[i].0 != v[k].0);
    }
}


/// Leaving keeps the registry well formed.
pub proof fn lemma_after_leave_ok(v: Seq<RoomView>, name: Seq<char>, id: u128)
    requires
        registry_ok(v),
    ensures
        registry_ok(after_leave(v, name, id)),
{
    if has_room(v, name) {
        let i = room_pos(v, name);
        let kept = others(v[i].1, id);
        v[i].1.lemma_filter_len(not_id(id));
        let w = after_leave(v, name, id);
        if kept.len() == 0 {
            assert forall|a: int, b: int| 0 <= a < b < w.len() implies w[a].0 != w[b].0 by {
                let a2 = if a < i { a } else { a + 1 };
                let b2 = if b < i { b } else { b + 1 };
                assert(w[a] == v[a2] && w[b] == v[b2]);
            }
            assert forall|a: int| 0 <= a < w.len() implies 0 < #[trigger] w[a].1.len()
                <= MAX_ROOM_MEMBERS by {
                let a2 = if a < i { a } else { a + 1 };
                assert(w[a] == v[a2]);
            }
        } else {
            assert forall|a: int| 0 <= a < w.len() implies 0 < #[trigger] w[a].1.len()
                <= MAX_ROOM_MEMBERS by {
                if a != i {
                    assert(w[a] == v[a]);
                }
            }
        }
    }
}

/// Entering a room that has space keeps the registry well formed.
pub proof fn lemma_after_enter_ok(v: Seq<RoomView>, name: Seq<char>, m: MemberView)
    requires
        registry_ok(v),
        has_space(v, name),
    ensures
        registry_ok(after_enter(v, name, m)),
{
    let w = after_enter(v, name, m);
    if has_room(v, name) {
        let i = room_pos(v, name);
        lemma_room_pos(v, name, i);
        assert forall|a: int| 0 <= a < w.len() implies 0 < #[trigger] w[a].1.len()
            <= MAX_ROOM_MEMBERS by {
            if a != i {
                assert(w[a] == v[a]);
            }
        }
    } else {
        assert forall|a: int, b: int| 0 <= a < b < w.len() implies w[a].0 != w[b].0 by {
            if b == v.len() {
                assert(w[a] == v[a]);
            }
        }
        assert forall|a: int| 0 <= a < w.len() implies 0 < #[trigger] w[a].1.len()
            <= MAX_ROOM_MEMBERS by {
            if a < v.len() {
                assert(w[a] == v[a]);
            }
        }
    }
}

/// After leaving a room, the participant is no longer in it.
pub proof fn lemma_leave_removes(v: Seq<RoomView>, name: Seq<char>, id: u128)
    requires
        registry_ok(v),
    ensures
        !in_room(after_leave(v, name, id), name, id),
{
    let w = after_leave(v, name, id);
    lemma_after_leave_ok(v, name, id);
    if has_room(v, name) {
        let i = room_pos(v, name);
        let kept = others(v[i].1, id);
        if kept.len() == 0 {
            assert(!has_room(w, name)) by {
                if has_room(w, name) {
                    let a = choose|a: int| 0 <= a < w.len() && w[a].0 == name;
                    let a2 = if a < i { a } else { a + 1 };
                    assert(w[a] == v[a2]);
                    assert(v[a2].0 == v[i].0);
                }
            }
        } else {
            lemma_room_pos(w, name, i);
            assert forall|j: int| 0 <= j < kept.len() implies kept[j].0 != id by {
                v[i].1.lemma_filter_pred(not_id(id), j);
            }
        }
    } else {
        assert(!has_room(w, name));
    }
}

/// Leaving one room does not change any other room.
pub proof fn lemma_leave_keeps_others(v: Seq<RoomView>, name: Seq<char>, other: Seq<char>, id: u128)
    requires
        registry_ok(v),
        other != name,
    ensures
        members_of(after_leave(v, name, id), other) == members_of(v, other),
{
    let w = after_leave(v, name, id);
    lemma_after_leave_ok(v, name, id);
    if has_room(v, name) {
        let i = room_pos(v, name);
        let kept = others(v[i].1, id);
        if has_room(v, other) {
            let k = room_pos(v, other);
            if kept.len() == 0 {
                let k2 = if k < i { k } else { k - 1 };
                assert(w[k2] == v[k]);
                lemma_room_pos(w, other, k2);
            } else {
                assert(w[k] == v[k]);
                lemma_room_pos(w, other, k);
            }
        } else {
            assert(!has_room(w, other)) by {
                if has_room(w, other) {
                    let a = choose|a: int| 0 <= a < w.len() && w[a].0 == other;
                    if kept.len() == 0 {
                        let a2 = if a < i { a } else { a + 1 };
                        assert(w[a] == v[a2]);
                    } else {
                        assert(a != i);
                        assert(w[a] == v[a]);
                    }
                }
            }
        }
    }
}

/// Entering a room with space appends the participant to it.
pub proof fn lemma_enter_places(v: Seq<RoomView>, name: Seq<char>, m: MemberView)
    requires
        registry_ok(v),
        has_space(v, name),
    ensures
        members_of(after_enter(v, name, m), name) == members_of(v, name).push(m),
        in_room(after_enter(v, name, m), name, m.0),
{
    let w = after_enter(v, name, m);
    lemma_after_enter_ok(v, name, m);
    if has_room(v, name) {
        let i = room_pos(v, name);
        lemma_room_pos(v, name, i);
        lemma_room_pos(w, name, i);
    } else {
        lemma_room_pos(w, name, v.len() as int);
    }
    let ms = members_of(w, name);
    assert(ms[ms.len() - 1].0 == m.0);
}

/// Entering one room does not change any other room.
pub proof fn lemma_enter_keeps_others(v: Seq<RoomView>, name: Seq<char>, other: Seq<char>, m: MemberView)
    requires
        registry_ok(v),
        has_space(v, name),
        other != name,
    ensures
        members_of(after_enter(v, name, m), other) == members_of(v, other),
{
    let w = after_enter(v, name, m);
    lemma_after_enter_ok(v, name, m);
    if has_room(v, other) {
        let k = room_pos(v, other);
        assert(w[k] == v[k]);
        lemma_room_pos(w, other, k);
    } else {
        assert(!has_room(w, other)) by {
            if has_room(w, other) {
                let a = choose|a: int| 0 <= a < w.len() && w[a].0 == other;
                if a < v.len() {
                    if has_room(v, name) {
                        assert(a != room_pos(v, name));
                    }
                    assert(w[a] == v[a]);
                }
            }
        }
    }
}


/// Some participant of `ms` has the id `id`.
pub open spec fn holds_id(ms: Seq<MemberView>, id: u128) -> bool {
    exists|j: int| 0 <= j < ms.len() && ms[j].0 == id
}

proof fn lemma_others_holds(ms: Seq<MemberView>, id: u128, other: u128)
    requires
        other != id,
    ensures
        holds_id(others(ms, id), other) == holds_id(ms, other),
{
    let f = others(ms, id);
    if holds_id(f, other) {
        let j = choose|j: int| 0 <= j < f.len() && f[j].0 == other;
        assert(f.contains(f[j]));
        ms.lemma_filter_contains_rev(not_id(id), f[j]);
        let k = choose|k: int| 0 <= k < ms.len() && ms[k] == f[j];
        assert(ms[k].0 == other);
    }
    if holds_id(ms, other) {
        let k = choose|k: int| 0 <= k < ms.len() && ms[k].0 == other;
        ms.lemma_filter_contains(not_id(id), k);
        let j = choose|j: int| 0 <= j < f.len() && f[j] == ms[k];
        assert(f[j].0 == other);
    }
}

/// Leaving changes no other participant's membership of any room.
pub proof fn lemma_leave_keeps_membership(
    v: Seq<RoomView>,
    name: Seq<char>,
    id: u128,
    r: Seq<char>,
    other: u128,
)
    requires
        registry_ok(v),
        other != id,
    ensures
        in_room(after_leave(v, name, id), r, other) == in_room(v, r, other),
{
    let w = after_leave(v, name, id);
    lemma_after_leave_ok(v, name, id);
    if r != name {
        lemma_leave_keeps_others(v, name, r, id);
    } else if has_room(v, name) {
        let i = room_pos(v, name);
        lemma_room_pos(v, name, i);
        let kept = others(v[i].1, id);
        lemma_others_holds(v[i].1, id, other);
        if kept.len() == 0 {
            assert(!has_room(w, name)) by {
                if has_room(w, name) {
                    let a = choose|a: int| 0 <= a < w.len() && w[a].0 == name;
                    let a2 = if a < i { a } else { a + 1 };
                    assert(w[a] == v[a2]);
                    assert(v[a2].0 == v[i].0);
                }
            }
        } else {
            lemma_room_pos(w, name, i);
        }
    } else {
        assert(!has_room(w, name));
    }
}

/// Entering changes no other participant's membership of any room.
pub proof fn lemma_enter_keeps_membership(
    v: Seq<RoomView>,
    name: Seq<char>,
    m: MemberView,
    r: Seq<char>,
    other: u128,
)
    requires
        registry_ok(v),
        has_space(v, name),
        other != m.0,
    ensures
        in_room(after_enter(v, name, m), r, other) == in_room(v, r, other),
{
    if r != name {
        lemma_enter_keeps_others(v, name, r, m);
    } else {
        lemma_enter_places(v, name, m);
        let before = members_of(v, name);
        let after = before.push(m);
        if in_room(after_enter(v, name, m), r, other) {
            let j = choose|j: int| 0 <= j < after.len() && after[j].0 == other;
            assert(j < before.len());
            assert(before[j].0 == other);
        }
        if in_room(v, r, other) {
            let j = choose|j: int| 0 <= j < before.len() && before[j].0 == other;
            assert(after[j].0 == other);
        }
    }
}

/// The occupied rooms.
pub struct RoomRegistry {
    rooms: Vec<Room>,
}

impl View for RoomRegistry {
    type V = Seq<RoomView>;

    closed spec fn view(&self) -> Seq<RoomView> {
        rooms_view(self.rooms@)
    }
}

/// The position of the room called `name`, found by a scan.
fn position_in(rooms: &Vec<Room>, name: &str) -> (r: Option<usize>)
    ensures
        match r {
            Some(i) => i < rooms@.len() && rooms_view(rooms@)[i as int].0 == name@,
            None => !has_room(rooms_view(rooms@), name@),
        },
{
    let mut i: usize = 0;
    while i < rooms.len()
        invariant
            i <= rooms.len(),
            forall|j: int| 0 <= j < i ==> rooms_view(rooms@)[j].0 != name@,
        decreases rooms.len() - i,
    {
        if text_eq(rooms[i].name.as_str(), name) {
            return Some(i);
        }
        i = i + 1;
    }
    None
}

/// The participants of `ms` other than `id`, in their order.
fn members_except(ms: &Vec<Member>, id: u128) -> (r: Vec<Member>)
    ensures
        members_view(r@) == others(members_view(ms@), id),
{
    let mut kept: Vec<Member> = Vec::new();
    let mut k: usize = 0;
    proof {
        reveal(Seq::filter);
        assert(members_view(kept@) =~= others(members_view(ms@).take(0), id));
    }
    while k < ms.len()
        invariant
            k <= ms.len(),
            members_view(kept@) == others(members_view(ms@).take(k as int), id),
        decreases ms.len() - k,
    {
        let ghost before = members_view(ms@).take(k as int);
        assert(members_view(ms@).take(k + 1).drop_last() =~= before);
        proof {
            reveal(Seq::filter);
        }
        if ms[k].id != id {
            kept.push(ms[k].duplicate());
        }
        assert(members_view(kept@) =~= others(members_view(ms@).take(k + 1), id));
        k = k + 1;
    }
    assert(members_view(ms@).take(ms.len() as int) =~= members_view(ms@));
    kept
}

impl RoomRegistry {
    #[verifier::type_invariant]
    spec fn inv(self) -> bool {
        registry_ok(self@)
    }

    /// No rooms are occupied.
    pub fn new() -> (r: RoomRegistry)
        ensures
            r@ == Seq::<RoomView>::empty(),
    {
        let r = RoomRegistry { rooms: Vec::new() };
        assert(r@ =~= Seq::<RoomView>::empty());
        r
    }

    /// The occupied rooms, in the order in which they were opened.
    pub fn rooms(&self) -> (r: &Vec<Room>)
        ensures
            rooms_view(r@) == self@,
            registry_ok(self@),
    {
        proof {
            use_type_invariant(self);
        }
        &self.rooms
    }

    /// Whether the participant `id` is in the room called `name`.
    pub fn contains_member(&self, name: &str, id: u128) -> (r: bool)
        ensures
            r == in_room(self@, name@, id),
    {
        proof {
            use_type_invariant(self);
        }
        match position_in(&self.rooms, name) {
            None => false,
            Some(i) => {
                proof {
                    lemma_room_pos(self@, name@, i as int);
                }
                let ms = &self.rooms[i].members;
                let mut k: usize = 0;
                while k < ms.len()
                    invariant
                        k <= ms.len(),
                        members_view(ms@) == members_of(self@, name@),
                        forall|j: int| 0 <= j < k ==> members_of(self@, name@)[j].0 != id,
                    decreases ms.len() - k,
                {
                    if ms[k].id == id {
                        assert(members_of(self@, name@)[k as int].0 == id);
                        return true;
                    }
                    k = k + 1;
                }
                false
            },
        }
    }

    /// Removes the participant `id` from the room called `name`; the room is
    /// closed when nobody is left in it.
    pub fn leave(&mut self, name: &str, id: u128)
        ensures
            final(self)@ == after_leave(old(self)@, name@, id),
            registry_ok(final(self)@),
    {
        proof {
            use_type_invariant(&*self);
        }
        let ghost v = self@;
        match position_in(&self.rooms, name) {
            None => {},
            Some(i) => {
                proof {
                    lemma_room_pos(v, name@, i as int);
                }
                let mut rooms: Vec<Room> = Vec::new();
                std::mem::swap(&mut rooms, &mut self.rooms);
                let old_room = rooms.remove(i);
                let kept = members_except(&old_room.members, id);
                let ghost kv = members_view(kept@);
                proof {
                    v[i as int].1.lemma_filter_len(not_id(id));
                }
                if kept.len() == 0 {
                    assert(rooms_view(rooms@) =~= v.remove(i as int));
                } else {
                    rooms.insert(i, Room { name: old_room.name, members: kept });
                    assert(rooms_view(rooms@) =~= v.update(i as int, (name@, kv)));
                }
                proof {
                    let w = rooms_view(rooms@);
                    assert forall|a: int, b: int| 0 <= a < b < w.len() implies w[a].0 != w[b].0 by {
                        if kept.len() == 0 {
                            let a2 = if a < i { a } else { a + 1 };
                            let b2 = if b < i { b } else { b + 1 };
                            assert(w[a] == v[a2] && w[b] == v[b2]);
                        }
                    }
                    assert forall|a: int| 0 <= a < w.len() implies 0 < #[trigger] w[a].1.len()
                        <= MAX_ROOM_MEMBERS by {
                        if kept.len() == 0 {
                            let a2 = if a < i { a } else { a + 1 };
                            assert(w[a] == v[a2]);
                        }
                    }
                }
                self.rooms = rooms;
            },
        }
    }

    /// Adds `member` to the room called `name`, opening the room when nobody
    /// is in it yet. A full room is left as it is and `false` returned.
    pub fn enter(&mut self, name: &str, member: Member) -> (r: bool)
        ensures
            r == has_space(old(self)@, name@),
            final(self)@ == if r {
                after_enter(old(self)@, name@, member@)
            } else {
                old(self)@
            },
            registry_ok(final(self)@),
    {
        proof {
            use_type_invariant(&*self);
        }
        let ghost v = self@;
        match position_in(&self.rooms, name) {
            Some(i) => {
                proof {
                    lemma_room_pos(v, name@, i as int);
                }
                if self.rooms[i].members.len() >= MAX_ROOM_MEMBERS {
                    return false;
                }
                let mut rooms: Vec<Room> = Vec::new();
                std::mem::swap(&mut rooms, &mut self.rooms);
                let mut room = rooms.remove(i);
                let ghost old_members = members_view(room.members@);
                assert(old_members == v[i as int].1);
                room.members.push(member);
                assert(members_view(room.members@) =~= old_members.push(member@));
                rooms.insert(i, room);
                proof {
                    let w = rooms_view(rooms@);
                    assert(w =~= v.update(i as int, (name@, v[i as int].1.push(member@))));
                    assert forall|a: int| 0 <= a < w.len() implies 0 < #[trigger] w[a].1.len()
                        <= MAX_ROOM_MEMBERS by {
                        if a != i {
                            assert(w[a] == v[a]);
                        }
                    }
                }
                self.rooms = rooms;
                true
            },
            None => {
                let mut members: Vec<Member> = Vec::new();
                members.push(member);
                let room = Room { name: name.to_owned(), members };
                assert(members_view(room.members@) =~= seq![member@]);
                let mut rooms: Vec<Room> = Vec::new();
                std::mem::swap(&mut rooms, &mut self.rooms);
                rooms.push(room);
                proof {
                    let w = rooms_view(rooms@);
                    assert(w =~= v.push((name@, seq![member@])));
                    assert forall|a: int, b: int| 0 <= a < b < w.len() implies w[a].0 != w[b].0 by {
                        if b == v.len() {
                            assert(w[a] == v[a]);
                        }
                    }
                    assert forall|a: int| 0 <= a < w.len() implies 0 < #[trigger] w[a].1.len()
                        <= MAX_ROOM_MEMBERS by {
                        if a < v.len() {
                            assert(w[a] == v[a]);
                        }
                    }
                }
                self.rooms = rooms;
                true
            },
        }
    }
}

} // verus!
