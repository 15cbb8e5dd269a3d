//! The signalling protocol of one WebSocket connection: joining and leaving
//! rooms, relaying WebRTC offers, answers and ICE candidates, and the room
//! state announcements that follow each change.
//!
//! Each step takes the connection's state, the shared room registry and the
//! configuration, and returns the notices to deliver; the caller serialises
//! and sends them.

use crate::config::{lookup_room, role_named, AppConfig, UserRole};
use crate::password::{hash_matches, lemma_utf8_len_bounds, verify_hash};
use crate::rooms::{
    after_enter, after_leave, has_space, in_room, lemma_after_enter_ok, lemma_after_leave_ok,
    lemma_enter_keeps_membership, lemma_enter_keeps_others, lemma_enter_places,
    lemma_leave_keeps_membership, lemma_leave_keeps_others, lemma_leave_removes, members_of,
    members_view, registry_ok, rooms_view, Member, MemberView, RoomRegistry, RoomView,
};
use crate::text::{text_eq, trim, trim_spec};
use vstd::prelude::*;
use vstd::utf8::encode_utf8;

verus! {

/// Name of the room that exists without being configured.
pub const LOBBY: &'static str = "Lobby";

/// Display names may have at most this many bytes (UTF-8).
pub const MAX_USERNAME_LEN: usize = 20;

/// Text frames longer than this many bytes are ignored.
pub const MAX_FRAME_BYTES: usize = 16384;

/// Why a join request was refused.
#[derive(Debug, Clone, Copy, PartialEq, Eq, Structural)]
pub enum JoinError {
    InvalidUsername,
    RoomDoesNotExist,
    WrongRoomPassword,
    RoomFull,
    LobbyOnly,
}

impl JoinError {
    pub open spec fn message_spec(self) -> Seq<char> {
        match self {
            JoinError::InvalidUsername => "Invalid username (1-20 characters)"@,
            JoinError::RoomDoesNotExist => "Room does not exist"@,
            JoinError::WrongRoomPassword => "Wrong room password"@,
            JoinError::RoomFull => "Room is full (Max 10 users)"@,
            JoinError::LobbyOnly => "Guests can only join the Lobby"@,
        }
    }

    /// The text shown to the client.
    pub fn message(&self) -> (r: String)
        ensures
            r@ == self.message_spec(),
    {
        match self {
            JoinError::InvalidUsername => String::from_str("Invalid username (1-20 characters)"),
            JoinError::RoomDoesNotExist => String::from_str("Room does not exist"),
            JoinError::WrongRoomPassword => String::from_str("Wrong room password"),
            JoinError::RoomFull => String::from_str("Room is full (Max 10 users)"),
            JoinError::LobbyOnly => String::from_str("Guests can only join the Lobby"),
        }
    }
}

/// The three kinds of WebRTC signalling messages that are relayed.
#[derive(Debug, Clone, Copy, PartialEq, Eq, Structural)]
pub enum SignalKind {
    Offer,
    Answer,
    Candidate,
}

/// A message from the client, without the signalling payloads (which are
/// relayed unchanged).
#[derive(Debug)]
pub enum ClientMessage {
    Join { room: String, name: String, password: Option<String> },
    Leave,
    Offer { target: u128 },
    Answer { target: u128 },
    IceCandidate { target: u128 },
}

/// What is sent to one participant.
#[derive(Debug)]
pub enum Notice {
    /// The current occupancy of all rooms.
    StateUpdate,
    /// The recipient is now in this room.
    YouJoined(String),
    /// This participant entered the recipient's room.
    PeerJoined(u128),
    /// The recipient's join request was refused.
    Failed(JoinError),
    /// A signalling message of this kind from this participant, whose payload
    /// the caller attaches.
    Signal(SignalKind, u128),
}

pub enum NoticeView {
    StateUpdate,
    YouJoined(Seq<char>),
    PeerJoined(u128),
    Failed(JoinError),
    Signal(SignalKind, u128),
}

impl View for Notice {
    type V = NoticeView;

    open spec fn view(&self) -> NoticeView {
        match self {
            Notice::StateUpdate => NoticeView::StateUpdate,
            Notice::YouJoined(r) => NoticeView::YouJoined(r@),
            Notice::PeerJoined(p) => NoticeView::PeerJoined(*p),
            Notice::Failed(e) => NoticeView::Failed(*e),
            Notice::Signal(k, s) => NoticeView::Signal(*k, *s),
        }
    }
}

/// A notice and the participant it goes to.
#[derive(Debug)]
pub struct Delivery {
    pub to: u128,
    pub notice: Notice,
}

pub type DeliveryView = (u128, NoticeView);

impl View for Delivery {
    type V = DeliveryView;

    open spec fn view(&self) -> DeliveryView {
        (self.to, self.notice@)
    }
}

pub open spec fn deliveries_view(ds: Seq<Delivery>) -> Seq<DeliveryView> {
    ds.map_values(|d: Delivery| d@)
}

pub open spec fn opt_view(o: Option<String>) -> Option<Seq<char>> {
    match o {
        Some(s) => Some(s@),
        None => None,
    }
}

/// What participant `id` is sent when the room state is announced, where
/// `joiner` is the participant that just joined and its room, if any: the
/// state, then either "you joined" (to the joiner) or "peer joined" (to the
/// other participants of the joiner's room).
pub open spec fn notices_for(
    v: Seq<RoomView>,
    id: u128,
    joiner: Option<(u128, Seq<char>)>,
) -> Seq<DeliveryView> {
    match joiner {
        None => seq![(id, NoticeView::StateUpdate)],
        Some(j) => if id == j.0 {
            seq![(id, NoticeView::StateUpdate), (id, NoticeView::YouJoined(j.1))]
        } else if in_room(v, j.1, id) {
            seq![(id, NoticeView::StateUpdate), (id, NoticeView::PeerJoined(j.0))]
        } else {
            seq![(id, NoticeView::StateUpdate)]
        },
    }
}

pub open spec fn members_notices(
    v: Seq<RoomView>,
    ms: Seq<MemberView>,
    joiner: Option<(u128, Seq<char>)>,
) -> Seq<DeliveryView>
    decreases ms.len(),
{
    if ms.len() == 0 {
        Seq::empty()
    } else {
        members_notices(v, ms.drop_last(), joiner) + notices_for(v, ms.last().0, joiner)
    }
}

pub open spec fn rooms_notices(
    v: Seq<RoomView>,
    rs: Seq<RoomView>,
    joiner: Option<(u128, Seq<char>)>,
) -> Seq<DeliveryView>
    decreases rs.len(),
{
    if rs.len() == 0 {
        Seq::empty()
    } else {
        rooms_notices(v, rs.drop_last(), joiner) + members_notices(v, rs.last().1, joiner)
    }
}

/// The announcement of the room state: every participant of every room, room
/// by room and in joining order, gets its `notices_for`.
pub open spec fn announcement(v: Seq<RoomView>, joiner: Option<(u128, Seq<char>)>) -> Seq<
    DeliveryView,
> {
    rooms_notices(v, v, joiner)
}

fn notices_to(
    registry: &RoomRegistry,
    id: u128,
    joiner: &Option<(u128, String)>,
    out: &mut Vec<Delivery>,
)
    ensures
        deliveries_view(final(out)@) == deliveries_view(old(out)@) + notices_for(
            registry@,
            id,
            match joiner {
                Some(j) => Some((j.0, j.1@)),
                None => None,
            },
        ),
{
    let ghost before = deliveries_view(out@);
    out.push(Delivery { to: id, notice: Notice::StateUpdate });
    match joiner {
        None => {},
        Some(j) => {
            if id == j.0 {
                out.push(Delivery { to: id, notice: Notice::YouJoined(j.1.clone()) });
            } else if registry.contains_member(j.1.as_str(), id) {
                out.push(Delivery { to: id, notice: Notice::PeerJoined(j.0) });
            }
        },
    }
    assert(deliveries_view(out@) =~= before + notices_for(
        registry@,
        id,
        match joiner {
            Some(j) => Some((j.0, j.1@)),
            None => None,
        },
    ));
}

/// The notices that announce the room state to every participant.
pub fn announce(registry: &RoomRegistry, joiner: &Option<(u128, String)>) -> (r: Vec<Delivery>)
    ensures
        deliveries_view(r@) == announcement(
            registry@,
            match joiner {
                Some(j) => Some((j.0, j.1@)),
                None => None,
            },
        ),
{
    let ghost jv = match joiner {
        Some(j) => Some((j.0, j.1@)),
        None => None,
    };
    let ghost v = registry@;
    let rooms = registry.rooms();
    let mut out: Vec<Delivery> = Vec::new();
    let mut i: usize = 0;
    assert(v.take(0) =~= Seq::<RoomView>::empty());
    assert(deliveries_view(out@) =~= Seq::<DeliveryView>::empty());
    while i < rooms.len()
        invariant
            rooms_view(rooms@) == v,
            v == registry@,
            i <= rooms.len(),
            jv == match joiner {
                Some(j) => Some((j.0, j.1@)),
                None => None,
            },
            deliveries_view(out@) == rooms_notices(v, v.take(i as int), jv),
        decreases rooms.len() - i,
    {
        let members = &rooms[i].members;
        let ghost ms = members_view(members@);
        assert(ms == v[i as int].1);
        let ghost start = deliveries_view(out@);
        let mut k: usize = 0;
        assert(ms.take(0) =~= Seq::<MemberView>::empty());
        assert(start =~= start + members_notices(v, ms.take(0), jv));
        while k < members.len()
            invariant
                ms == members_view(members@),
                v == registry@,
                k <= members.len(),
                jv == match joiner {
                    Some(j) => Some((j.0, j.1@)),
                    None => None,
                },
                deliveries_view(out@) == start + members_notices(v, ms.take(k as int), jv),
            decreases members.len() - k,
        {
            notices_to(registry, members[k].id, joiner, &mut out);
            assert(ms.take(k + 1).drop_last() =~= ms.take(k as int));
            assert(ms.take(k + 1).last() == ms[k as int]);
            assert(deliveries_view(out@) =~= start + members_notices(v, ms.take(k + 1), jv));
            k = k + 1;
        }
        assert(ms.take(members.len() as int) =~= ms);
        assert(v.take(i + 1).drop_last() =~= v.take(i as int));
        assert(v.take(i + 1).last() == v[i as int]);
        i = i + 1;
    }
    assert(v.take(rooms.len() as int) =~= v);
    out
}


/// The password the client gave, or the empty string.
pub open spec fn password_given(p: Option<String>) -> Seq<char> {
    match p {
        Some(s) => s@,
        None => Seq::empty(),
    }
}

/// Whether a (trimmed) display name is acceptable: not empty, and at most
/// `MAX_USERNAME_LEN` bytes long in UTF-8.
pub open spec fn name_acceptable(n: Seq<char>) -> bool {
    n.len() > 0 && encode_utf8(n).len() <= MAX_USERNAME_LEN
}

/// Why a request of a participant with `role` to join `room` as `name` with
/// `password` is refused before anything changes, if it is: a bad display
/// name, a guest asking for a room other than the lobby, a room that is
/// neither configured nor the lobby, or a room password that does not verify.
pub open spec fn join_refusal(
    config: AppConfig,
    role: UserRole,
    room: Seq<char>,
    name: Seq<char>,
    password: Seq<char>,
) -> Option<JoinError> {
    if !name_acceptable(trim_spec(name)) {
        Some(JoinError::InvalidUsername)
    } else if role == UserRole::Guest && room != LOBBY@ {
        Some(JoinError::LobbyOnly)
    } else {
        match lookup_room(config.rooms@, room) {
            None => if room == LOBBY@ {
                None
            } else {
                Some(JoinError::RoomDoesNotExist)
            },
            Some(rc) => match rc.password_hash {
                Some(h) => if hash_matches(h@, password) {
                    None
                } else {
                    Some(JoinError::WrongRoomPassword)
                },
                None => None,
            },
        }
    }
}

/// The rooms after the participant left the room it is in, if any.
pub open spec fn after_leaving_current(
    v: Seq<RoomView>,
    current: Option<Seq<char>>,
    id: u128,
) -> Seq<RoomView> {
    match current {
        Some(r) => after_leave(v, r, id),
        None => v,
    }
}

/// A signalling message goes to its target when the sender is in a room and
/// the target is in the same room; otherwise it is dropped.
pub open spec fn relay(
    v: Seq<RoomView>,
    current: Option<Seq<char>>,
    id: u128,
    target: u128,
    kind: SignalKind,
) -> Seq<DeliveryView> {
    match current {
        Some(r) => if in_room(v, r, target) {
            seq![(target, NoticeView::Signal(kind, id))]
        } else {
            Seq::empty()
        },
        None => Seq::empty(),
    }
}

/// One step of the protocol for participant `id` with `role`, currently in
/// room `current`: the rooms afterwards, the participant's room afterwards, and
/// the notices to deliver.
pub open spec fn step(
    config: AppConfig,
    v: Seq<RoomView>,
    id: u128,
    role: UserRole,
    current: Option<Seq<char>>,
    msg: ClientMessage,
) -> (Seq<RoomView>, Option<Seq<char>>, Seq<DeliveryView>) {
    match msg {
        ClientMessage::Join { room, name, password } => {
            match join_refusal(config, role, room@, name@, password_given(password)) {
                Some(e) => (v, current, seq![(id, NoticeView::Failed(e))]),
                None => {
                    let v1 = after_leaving_current(v, current, id);
                    if has_space(v1, room@) {
                        let v2 = after_enter(v1, room@, (id, trim_spec(name@)));
                        (v2, Some(room@), announcement(v2, Some((id, room@))))
                    } else {
                        (
                            v1,
                            current,
                            seq![(id, NoticeView::Failed(JoinError::RoomFull))] + announcement(
                                v1,
                                match current {
                                    Some(r) => Some((id, r)),
                                    None => None,
                                },
                            ),
                        )
                    }
                },
            }
        },
        ClientMessage::Leave => match current {
            Some(r) => {
                let v1 = after_leave(v, r, id);
                (v1, None, announcement(v1, None))
            },
            None => (v, None, Seq::empty()),
        },
        ClientMessage::Offer { target } => (
            v,
            current,
            relay(v, current, id, target, SignalKind::Offer),
        ),
        ClientMessage::Answer { target } => (
            v,
            current,
            relay(v, current, id, target, SignalKind::Answer),
        ),
        ClientMessage::IceCandidate { target } => (
            v,
            current,
            relay(v, current, id, target, SignalKind::Candidate),
        ),
    }
}


proof fn lemma_members_notices_contain(
    v: Seq<RoomView>,
    ms: Seq<MemberView>,
    joiner: Option<(u128, Seq<char>)>,
    k: int,
    d: DeliveryView,
)
    requires
        0 <= k < ms.len(),
        notices_for(v, ms[k].0, joiner).contains(d),
    ensures
        members_notices(v, ms, joiner).contains(d),
    decreases ms.len(),
{
    let prefix = members_notices(v, ms.drop_last(), joiner);
    let tail = notices_for(v, ms.last().0, joiner);
    if k == ms.len() - 1 {
        let j = choose|j: int| 0 <= j < tail.len() && tail[j] == d;
        assert((prefix + tail)[prefix.len() + j] == d);
    } else {
        assert(ms.drop_last()[k] == ms[k]);
        lemma_members_notices_contain(v, ms.drop_last(), joiner, k, d);
        let j = choose|j: int| 0 <= j < prefix.len() && prefix[j] == d;
        assert((prefix + tail)[j] == d);
    }
}

proof fn lemma_rooms_notices_contain(
    v: Seq<RoomView>,
    rs: Seq<RoomView>,
    joiner: Option<(u128, Seq<char>)>,
    i: int,
    d: DeliveryView,
)
    requires
        0 <= i < rs.len(),
        members_notices(v, rs[i].1, joiner).contains(d),
    ensures
        rooms_notices(v, rs, joiner).contains(d),
    decreases rs.len(),
{
    let prefix = rooms_notices(v, rs.drop_last(), joiner);
    let tail = members_notices(v, rs.last().1, joiner);
    if i == rs.len() - 1 {
        let j = choose|j: int| 0 <= j < tail.len() && tail[j] == d;
        assert((prefix + tail)[prefix.len() + j] == d);
    } else {
        assert(rs.drop_last()[i] == rs[i]);
        lemma_rooms_notices_contain(v, rs.drop_last(), joiner, i, d);
        let j = choose|j: int| 0 <= j < prefix.len() && prefix[j] == d;
        assert((prefix + tail)[j] == d);
    }
}

/// Every participant of every room is sent the room state.
pub proof fn lemma_everyone_gets_state(
    v: Seq<RoomView>,
    joiner: Option<(u128, Seq<char>)>,
    i: int,
    k: int,
)
    requires
        0 <= i < v.len(),
        0 <= k < v[i].1.len(),
    ensures
        announcement(v, joiner).contains((v[i].1[k].0, NoticeView::StateUpdate)),
{
    let d = (v[i].1[k].0, NoticeView::StateUpdate);
    assert(notices_for(v, v[i].1[k].0, joiner)[0] == d);
    lemma_members_notices_contain(v, v[i].1, joiner, k, d);
    lemma_rooms_notices_contain(v, v, joiner, i, d);
}


/// Whether a delivery goes to `p`.
pub open spec fn to_recipient(p: u128) -> spec_fn(DeliveryView) -> bool {
    |d: DeliveryView| d.0 == p
}

/// How often `p` is listed among the participants `ms`.
pub open spec fn listed_in(ms: Seq<MemberView>, p: u128) -> nat
    decreases ms.len(),
{
    if ms.len() == 0 {
        0
    } else {
        listed_in(ms.drop_last(), p) + if ms.last().0 == p {
            1nat
        } else {
            0nat
        }
    }
}

/// How often `p` is listed over all the rooms `rs`.
pub open spec fn listed(rs: Seq<RoomView>, p: u128) -> nat
    decreases rs.len(),
{
    if rs.len() == 0 {
        0
    } else {
        listed(rs.drop_last(), p) + listed_in(rs.last().1, p)
    }
}

/// `s`, `n` times over.
pub open spec fn repeated(s: Seq<DeliveryView>, n: nat) -> Seq<DeliveryView>
    decreases n,
{
    if n == 0 {
        Seq::empty()
    } else {
        repeated(s, (n - 1) as nat) + s
    }
}

proof fn lemma_notices_for_filter(
    v: Seq<RoomView>,
    id: u128,
    joiner: Option<(u128, Seq<char>)>,
    p: u128,
)
    ensures
        notices_for(v, id, joiner).filter(to_recipient(p)) == if id == p {
            notices_for(v, id, joiner)
        } else {
            Seq::<DeliveryView>::empty()
        },
{
    let f = to_recipient(p);
    let e = Seq::<DeliveryView>::empty();
    let a = (id, NoticeView::StateUpdate);
    assert(e.filter(f) =~= e) by {
        reveal(Seq::filter);
    }
    e.lemma_filter_push(a, f);
    assert(seq![a] =~= e.push(a));
    let s = notices_for(v, id, joiner);
    if s.len() == 2 {
        let b = s[1];
        assert(s =~= e.push(a).push(b));
        e.push(a).lemma_filter_push(b, f);
    } else {
        assert(s =~= e.push(a));
    }
}

proof fn lemma_members_notices_filter(
    v: Seq<RoomView>,
    ms: Seq<MemberView>,
    joiner: Option<(u128, Seq<char>)>,
    p: u128,
)
    ensures
        members_notices(v, ms, joiner).filter(to_recipient(p)) == repeated(
            notices_for(v, p, joiner),
            listed_in(ms, p),
        ),
    decreases ms.len(),
{
    let f = to_recipient(p);
    if ms.len() == 0 {
        assert(Seq::<DeliveryView>::empty().filter(f) =~= Seq::<DeliveryView>::empty()) by {
            reveal(Seq::filter);
        }
    } else {
        lemma_members_notices_filter(v, ms.drop_last(), joiner, p);
        let prefix = members_notices(v, ms.drop_last(), joiner);
        let tail = notices_for(v, ms.last().0, joiner);
        Seq::filter_distributes_over_add(prefix, tail, f);
        lemma_notices_for_filter(v, ms.last().0, joiner, p);
        let r = repeated(notices_for(v, p, joiner), listed_in(ms.drop_last(), p));
        if ms.last().0 == p {
            assert(repeated(notices_for(v, p, joiner), listed_in(ms, p)) == r + tail);
        } else {
            assert(r + Seq::<DeliveryView>::empty() =~= r);
        }
    }
}

proof fn lemma_repeated_add(s: Seq<DeliveryView>, m: nat, n: nat)
    ensures
        repeated(s, m) + repeated(s, n) == repeated(s, m + n),
    decreases n,
{
    if n == 0 {
        assert(repeated(s, m) + Seq::<DeliveryView>::empty() =~= repeated(s, m));
    } else {
        lemma_repeated_add(s, m, (n - 1) as nat);
        assert(repeated(s, m) + (repeated(s, (n - 1) as nat) + s) =~= (repeated(s, m) + repeated(
            s,
            (n - 1) as nat,
        )) + s);
        assert(m + n - 1 == (m + n - 1) as nat);
    }
}

proof fn lemma_rooms_notices_filter(
    v: Seq<RoomView>,
    rs: Seq<RoomView>,
    joiner: Option<(u128, Seq<char>)>,
    p: u128,
)
    ensures
        rooms_notices(v, rs, joiner).filter(to_recipient(p)) == repeated(
            notices_for(v, p, joiner),
            listed(rs, p),
        ),
    decreases rs.len(),
{
    let f = to_recipient(p);
    if rs.len() == 0 {
        assert(Seq::<DeliveryView>::empty().filter(f) =~= Seq::<DeliveryView>::empty()) by {
            reveal(Seq::filter);
        }
    } else {
        lemma_rooms_notices_filter(v, rs.drop_last(), joiner, p);
        let prefix = rooms_notices(v, rs.drop_last(), joiner);
        let tail = members_notices(v, rs.last().1, joiner);
        Seq::filter_distributes_over_add(prefix, tail, f);
        lemma_members_notices_filter(v, rs.last().1, joiner, p);
        lemma_repeated_add(notices_for(v, p, joiner), listed(rs.drop_last(), p), listed_in(rs.last().1, p));
    }
}

/// What an announcement sends to one participant: its `notices_for` (the
/// room state first, then "you joined" to the joiner or "peer joined" to the
/// others of the joiner's room), once for each time it is listed in a room,
/// and nothing else. So a participant listed once gets exactly that, and
/// anyone not listed gets nothing; without a joiner, that is exactly one state
/// update.
pub proof fn lemma_announcement_per_recipient(
    v: Seq<RoomView>,
    joiner: Option<(u128, Seq<char>)>,
    p: u128,
)
    ensures
        announcement(v, joiner).filter(to_recipient(p)) == repeated(
            notices_for(v, p, joiner),
            listed(v, p),
        ),
        listed(v, p) == 1 && joiner is None ==> announcement(v, joiner).filter(to_recipient(p))
            == seq![(p, NoticeView::StateUpdate)],
{
    lemma_rooms_notices_filter(v, v, joiner, p);
    if listed(v, p) == 1 {
        let s1 = notices_for(v, p, joiner);
        assert(repeated(s1, 0) == Seq::<DeliveryView>::empty());
        assert(repeated(s1, 1) == repeated(s1, 0) + s1);
        assert(repeated(s1, 1) =~= s1);
    }
}

/// Whether `id` is a participant of some room.
pub open spec fn participant(v: Seq<RoomView>, id: u128) -> bool {
    exists|i: int, k: int| 0 <= i < v.len() && 0 <= k < v[i].1.len() && v[i].1[k].0 == id
}

proof fn lemma_members_notices_recipients(
    v: Seq<RoomView>,
    ms: Seq<MemberView>,
    joiner: Option<(u128, Seq<char>)>,
    d: DeliveryView,
)
    requires
        members_notices(v, ms, joiner).contains(d),
    ensures
        exists|k: int| 0 <= k < ms.len() && ms[k].0 == d.0,
    decreases ms.len(),
{
    let prefix = members_notices(v, ms.drop_last(), joiner);
    let tail = notices_for(v, ms.last().0, joiner);
    let j = choose|j: int| 0 <= j < prefix.len() + tail.len() && (prefix + tail)[j] == d;
    if j < prefix.len() {
        assert(prefix[j] == d);
        lemma_members_notices_recipients(v, ms.drop_last(), joiner, d);
        let k = choose|k: int| 0 <= k < ms.drop_last().len() && ms.drop_last()[k].0 == d.0;
        assert(ms[k].0 == d.0);
    } else {
        assert(tail[j - prefix.len()] == d);
        assert(ms[ms.len() - 1].0 == d.0);
    }
}

proof fn lemma_rooms_notices_recipients(
    v: Seq<RoomView>,
    rs: Seq<RoomView>,
    joiner: Option<(u128, Seq<char>)>,
    d: DeliveryView,
)
    requires
        rooms_notices(v, rs, joiner).contains(d),
    ensures
        participant(rs, d.0),
    decreases rs.len(),
{
    let prefix = rooms_notices(v, rs.drop_last(), joiner);
    let tail = members_notices(v, rs.last().1, joiner);
    let j = choose|j: int| 0 <= j < prefix.len() + tail.len() && (prefix + tail)[j] == d;
    if j < prefix.len() {
        assert(prefix[j] == d);
        lemma_rooms_notices_recipients(v, rs.drop_last(), joiner, d);
        let (i, k) = choose|i: int, k: int|
            0 <= i < rs.drop_last().len() && 0 <= k < rs.drop_last()[i].1.len()
                && rs.drop_last()[i].1[k].0 == d.0;
        assert(rs[i] == rs.drop_last()[i]);
    } else {
        assert(tail[j - prefix.len()] == d);
        lemma_members_notices_recipients(v, rs.last().1, joiner, d);
        let k = choose|k: int| 0 <= k < rs.last().1.len() && rs.last().1[k].0 == d.0;
        assert(rs[rs.len() - 1].1[k].0 == d.0);
    }
}

/// Room announcements reach participants of the rooms only.
pub proof fn lemma_announcement_reaches_participants_only(
    v: Seq<RoomView>,
    joiner: Option<(u128, Seq<char>)>,
    d: DeliveryView,
)
    requires
        announcement(v, joiner).contains(d),
    ensures
        participant(v, d.0),
{
    lemma_rooms_notices_recipients(v, v, joiner, d);
}

/// A participant that joined a room is told so, and every other participant
/// of that room is told who joined.
pub proof fn lemma_joined_room_is_told(v: Seq<RoomView>, id: u128, room: Seq<char>, peer: u128)
    requires
        registry_ok(v),
        in_room(v, room, id),
        in_room(v, room, peer),
    ensures
        peer == id ==> announcement(v, Some((id, room))).contains(
            (id, NoticeView::YouJoined(room)),
        ),
        peer != id ==> announcement(v, Some((id, room))).contains(
            (peer, NoticeView::PeerJoined(id)),
        ),
{
    let joiner = Some((id, room));
    let ms = members_of(v, room);
    let k = choose|k: int| 0 <= k < ms.len() && ms[k].0 == peer;
    let i = crate::rooms::room_pos(v, room);
    let d = if peer == id {
        (id, NoticeView::YouJoined(room))
    } else {
        (peer, NoticeView::PeerJoined(id))
    };
    assert(notices_for(v, peer, joiner)[1] == d);
    lemma_members_notices_contain(v, v[i].1, joiner, k, d);
    lemma_rooms_notices_contain(v, v, joiner, i, d);
}

/// Every step keeps the rooms well formed: distinct names, one to
/// `MAX_ROOM_MEMBERS` participants each.
pub proof fn lemma_step_keeps_rooms_ok(
    config: AppConfig,
    v: Seq<RoomView>,
    id: u128,
    role: UserRole,
    current: Option<Seq<char>>,
    msg: ClientMessage,
)
    requires
        registry_ok(v),
    ensures
        registry_ok(step(config, v, id, role, current, msg).0),
{
    match current {
        Some(r) => lemma_after_leave_ok(v, r, id),
        None => {},
    }
    match msg {
        ClientMessage::Join { room, name, password } => {
            let v1 = after_leaving_current(v, current, id);
            if has_space(v1, room@) {
                lemma_after_enter_ok(v1, room@, (id, trim_spec(name@)));
            }
        },
        _ => {},
    }
}

/// A refused join changes nothing and only tells the participant why.
pub proof fn lemma_refused_join_changes_nothing(
    config: AppConfig,
    v: Seq<RoomView>,
    id: u128,
    role: UserRole,
    current: Option<Seq<char>>,
    room: String,
    name: String,
    password: Option<String>,
)
    requires
        join_refusal(config, role, room@, name@, password_given(password)) is Some,
    ensures
        ({
            let e = join_refusal(config, role, room@, name@, password_given(password))->0;
            step(config, v, id, role, current, ClientMessage::Join { room, name, password }) == (
                v,
                current,
                seq![(id, NoticeView::Failed(e))],
            )
        }),
{
}

/// A join that is accepted and finds space puts the participant, under its
/// trimmed name, last in the room; the room becomes its room; it is no longer
/// in the room it was in before; and it is told that it joined.
pub proof fn lemma_accepted_join(
    config: AppConfig,
    v: Seq<RoomView>,
    id: u128,
    role: UserRole,
    current: Option<Seq<char>>,
    room: String,
    name: String,
    password: Option<String>,
)
    requires
        registry_ok(v),
        join_refusal(config, role, room@, name@, password_given(password)) is None,
        has_space(after_leaving_current(v, current, id), room@),
    ensures
        ({
            let (w, cur, ds) = step(
                config,
                v,
                id,
                role,
                current,
                ClientMessage::Join { room, name, password },
            );
            &&& cur == Some(room@)
            &&& members_of(w, room@) == members_of(
                after_leaving_current(v, current, id),
                room@,
            ).push((id, trim_spec(name@)))
            &&& in_room(w, room@, id)
            &&& (current matches Some(prev) ==> (prev != room@ ==> !in_room(w, prev, id)))
            &&& ds.contains((id, NoticeView::YouJoined(room@)))
        }),
{
    let v1 = after_leaving_current(v, current, id);
    let m = (id, trim_spec(name@));
    let w = after_enter(v1, room@, m);
    match current {
        Some(prev) => {
            lemma_after_leave_ok(v, prev, id);
            lemma_leave_removes(v, prev, id);
            if prev != room@ {
                lemma_enter_keeps_others(v1, room@, prev, m);
            }
        },
        None => {},
    }
    lemma_enter_places(v1, room@, m);
    lemma_after_enter_ok(v1, room@, m);
    lemma_joined_room_is_told(w, id, room@, id);
}

/// A relayed signalling message only ever goes to a participant of the
/// sender's room.
pub proof fn lemma_signals_stay_in_room(
    v: Seq<RoomView>,
    current: Option<Seq<char>>,
    id: u128,
    target: u128,
    kind: SignalKind,
    d: DeliveryView,
)
    requires
        relay(v, current, id, target, kind).contains(d),
    ensures
        current matches Some(r) && in_room(v, r, d.0) && d == (
            target,
            NoticeView::Signal(kind, id),
        ),
{
    let s = relay(v, current, id, target, kind);
    let j = choose|j: int| 0 <= j < s.len() && s[j] == d;
}

/// After leaving, the participant is in no room it was in.
pub proof fn lemma_leave_leaves(
    config: AppConfig,
    v: Seq<RoomView>,
    id: u128,
    role: UserRole,
    room: Seq<char>,
)
    requires
        registry_ok(v),
    ensures
        ({
            let (w, cur, _) = step(config, v, id, role, Some(room), ClientMessage::Leave);
            cur is None && !in_room(w, room, id)
        }),
{
    lemma_leave_removes(v, room, id);
}


/// A step of participant `id` changes no other participant's membership of
/// any room.
pub proof fn lemma_step_keeps_others_membership(
    config: AppConfig,
    v: Seq<RoomView>,
    id: u128,
    role: UserRole,
    current: Option<Seq<char>>,
    msg: ClientMessage,
    r: Seq<char>,
    other: u128,
)
    requires
        registry_ok(v),
        other != id,
    ensures
        in_room(step(config, v, id, role, current, msg).0, r, other) == in_room(v, r, other),
{
    match current {
        Some(c) => {
            lemma_after_leave_ok(v, c, id);
            lemma_leave_keeps_membership(v, c, id, r, other);
        },
        None => {},
    }
    match msg {
        ClientMessage::Join { room, name, password } => {
            let v1 = after_leaving_current(v, current, id);
            if has_space(v1, room@) {
                lemma_enter_keeps_membership(v1, room@, (id, trim_spec(name@)), r, other);
            }
        },
        _ => {},
    }
}

/// The participant `id` is in no room other than `current`.
pub open spec fn located(v: Seq<RoomView>, id: u128, current: Option<Seq<char>>) -> bool {
    forall|r: Seq<char>| #[trigger] in_room(v, r, id) ==> current == Some(r)
}

proof fn lemma_nowhere_after_leaving_current(
    v: Seq<RoomView>,
    id: u128,
    current: Option<Seq<char>>,
    r: Seq<char>,
)
    requires
        registry_ok(v),
        located(v, id, current),
    ensures
        !in_room(after_leaving_current(v, current, id), r, id),
{
    if in_room(v, r, id) {
        assert(current == Some(r));
    }
    match current {
        Some(c) => {
            lemma_leave_removes(v, c, id);
            if r != c {
                lemma_leave_keeps_others(v, c, r, id);
            }
        },
        None => {},
    }
}

/// A participant is never in a room other than the one its connection
/// names: every step keeps that so.
pub proof fn lemma_step_keeps_located(
    config: AppConfig,
    v: Seq<RoomView>,
    id: u128,
    role: UserRole,
    current: Option<Seq<char>>,
    msg: ClientMessage,
)
    requires
        registry_ok(v),
        located(v, id, current),
    ensures
        ({
            let (w, cur, _) = step(config, v, id, role, current, msg);
            located(w, id, cur)
        }),
{
    let (w, cur, _) = step(config, v, id, role, current, msg);
    match msg {
        ClientMessage::Join { room, name, password } => {
            if join_refusal(config, role, room@, name@, password_given(password)) is None {
                let v1 = after_leaving_current(v, current, id);
                match current {
                    Some(c) => lemma_after_leave_ok(v, c, id),
                    None => {},
                }
                assert forall|r: Seq<char>| #[trigger] in_room(w, r, id) implies cur == Some(r) by {
                    lemma_nowhere_after_leaving_current(v, id, current, r);
                    if has_space(v1, room@) && r != room@ {
                        lemma_enter_keeps_others(v1, room@, r, (id, trim_spec(name@)));
                    }
                }
            }
        },
        ClientMessage::Leave => {
            assert forall|r: Seq<char>| #[trigger] in_room(w, r, id) implies cur == Some(r) by {
                lemma_nowhere_after_leaving_current(v, id, current, r);
            }
        },
        _ => {},
    }
}


/// No participant is in two rooms.
pub open spec fn one_room_each(v: Seq<RoomView>) -> bool {
    forall|p: u128, r1: Seq<char>, r2: Seq<char>|
        #![trigger in_room(v, r1, p), in_room(v, r2, p)]
        in_room(v, r1, p) && in_room(v, r2, p) ==> r1 == r2
}

/// Over all connections together: whichever connection takes a step, every
/// participant is still in at most one room afterwards, provided the stepping
/// participant is in no room but the one its connection names (which every
/// step keeps, `lemma_step_keeps_located`).
pub proof fn lemma_step_keeps_one_room_each(
    config: AppConfig,
    v: Seq<RoomView>,
    id: u128,
    role: UserRole,
    current: Option<Seq<char>>,
    msg: ClientMessage,
)
    requires
        registry_ok(v),
        one_room_each(v),
        located(v, id, current),
    ensures
        one_room_each(step(config, v, id, role, current, msg).0),
{
    let (w, cur, _) = step(config, v, id, role, current, msg);
    lemma_step_keeps_located(config, v, id, role, current, msg);
    assert forall|p: u128, r1: Seq<char>, r2: Seq<char>|
        in_room(w, r1, p) && in_room(w, r2, p) implies r1 == r2 by {
        if p == id {
            assert(cur == Some(r1) && cur == Some(r2));
        } else {
            lemma_step_keeps_others_membership(config, v, id, role, current, msg, r1, p);
            lemma_step_keeps_others_membership(config, v, id, role, current, msg, r2, p);
        }
    }
}

/// After leaving its room, or closing, a participant that was in no room but
/// the one its connection names is in no room at all.
pub proof fn lemma_leaving_leaves_no_room(v: Seq<RoomView>, id: u128, current: Option<Seq<char>>)
    requires
        registry_ok(v),
        located(v, id, current),
    ensures
        forall|r: Seq<char>| !(#[trigger] in_room(after_leaving_current(v, current, id), r, id)),
{
    assert forall|r: Seq<char>| !(#[trigger] in_room(after_leaving_current(v, current, id), r, id)) by {
        lemma_nowhere_after_leaving_current(v, id, current, r);
    }
}

proof fn lemma_members_notices_origin(
    v: Seq<RoomView>,
    ms: Seq<MemberView>,
    joiner: Option<(u128, Seq<char>)>,
    d: DeliveryView,
)
    requires
        members_notices(v, ms, joiner).contains(d),
    ensures
        notices_for(v, d.0, joiner).contains(d),
    decreases ms.len(),
{
    let prefix = members_notices(v, ms.drop_last(), joiner);
    let tail = notices_for(v, ms.last().0, joiner);
    let j = choose|j: int| 0 <= j < prefix.len() + tail.len() && (prefix + tail)[j] == d;
    if j < prefix.len() {
        assert(prefix[j] == d);
        lemma_members_notices_origin(v, ms.drop_last(), joiner, d);
    } else {
        assert(tail[j - prefix.len()] == d);
        assert(d.0 == ms.last().0);
    }
}

proof fn lemma_rooms_notices_origin(
    v: Seq<RoomView>,
    rs: Seq<RoomView>,
    joiner: Option<(u128, Seq<char>)>,
    d: DeliveryView,
)
    requires
        rooms_notices(v, rs, joiner).contains(d),
    ensures
        notices_for(v, d.0, joiner).contains(d),
    decreases rs.len(),
{
    let prefix = rooms_notices(v, rs.drop_last(), joiner);
    let tail = members_notices(v, rs.last().1, joiner);
    let j = choose|j: int| 0 <= j < prefix.len() + tail.len() && (prefix + tail)[j] == d;
    if j < prefix.len() {
        assert(prefix[j] == d);
        lemma_rooms_notices_origin(v, rs.drop_last(), joiner, d);
    } else {
        assert(tail[j - prefix.len()] == d);
        lemma_members_notices_origin(v, rs.last().1, joiner, d);
    }
}

/// An announcement holds no refusal.
pub proof fn lemma_announcement_refuses_nothing(
    v: Seq<RoomView>,
    joiner: Option<(u128, Seq<char>)>,
    p: u128,
    e: JoinError,
)
    ensures
        !announcement(v, joiner).contains((p, NoticeView::Failed(e))),
{
    if announcement(v, joiner).contains((p, NoticeView::Failed(e))) {
        lemma_rooms_notices_origin(v, v, joiner, (p, NoticeView::Failed(e)));
        let s = notices_for(v, p, joiner);
        let j = choose|j: int| 0 <= j < s.len() && s[j] == (p, NoticeView::Failed(e));
    }
}

/// "Peer joined" goes only to the joiner's room-mates: a participant that an
/// announcement for `joiner` entering `room` tells of a new peer is in that
/// room, is not the joiner, and is told of the joiner.
pub proof fn lemma_peer_joined_only_to_room_mates(
    v: Seq<RoomView>,
    joiner: u128,
    room: Seq<char>,
    p: u128,
    peer: u128,
)
    requires
        announcement(v, Some((joiner, room))).contains((p, NoticeView::PeerJoined(peer))),
    ensures
        in_room(v, room, p),
        p != joiner,
        peer == joiner,
{
    let d = (p, NoticeView::PeerJoined(peer));
    lemma_rooms_notices_origin(v, v, Some((joiner, room)), d);
    let s = notices_for(v, p, Some((joiner, room)));
    let j = choose|j: int| 0 <= j < s.len() && s[j] == d;
}

/// A join is refused for its display name exactly when the trimmed name is
/// empty or longer than 20 bytes in UTF-8, whatever its number of characters:
/// then nothing changes and the participant is told just that.
pub proof fn lemma_name_check(
    config: AppConfig,
    v: Seq<RoomView>,
    id: u128,
    role: UserRole,
    current: Option<Seq<char>>,
    room: String,
    name: String,
    password: Option<String>,
)
    ensures
        ({
            let bad = trim_spec(name@).len() == 0 || encode_utf8(trim_spec(name@)).len() > 20;
            let (w, cur, ds) = step(
                config,
                v,
                id,
                role,
                current,
                ClientMessage::Join { room, name, password },
            );
            &&& bad <==> ds.contains((id, NoticeView::Failed(JoinError::InvalidUsername)))
            &&& bad ==> w == v && cur == current && ds == seq![
                (id, NoticeView::Failed(JoinError::InvalidUsername)),
            ]
        }),
{
    let bad = trim_spec(name@).len() == 0 || encode_utf8(trim_spec(name@)).len() > 20;
    let msg = ClientMessage::Join { room, name, password };
    let (w, cur, ds) = step(config, v, id, role, current, msg);
    let f = (id, NoticeView::Failed(JoinError::InvalidUsername));
    if bad {
        assert(ds == seq![f]);
        assert(ds[0] == f);
    } else {
        match join_refusal(config, role, room@, name@, password_given(password)) {
            Some(e) => {
                assert(e != JoinError::InvalidUsername);
                assert(ds == seq![(id, NoticeView::Failed(e))]);
                if ds.contains(f) {
                    let j = choose|j: int| 0 <= j < ds.len() && ds[j] == f;
                }
            },
            None => {
                let v1 = after_leaving_current(v, current, id);
                if has_space(v1, room@) {
                    let v2 = after_enter(v1, room@, (id, trim_spec(name@)));
                    lemma_announcement_refuses_nothing(
                        v2,
                        Some((id, room@)),
                        id,
                        JoinError::InvalidUsername,
                    );
                } else {
                    let j2 = match current {
                        Some(r) => Some((id, r)),
                        None => None,
                    };
                    let a = announcement(v1, j2);
                    let first = seq![(id, NoticeView::Failed(JoinError::RoomFull))];
                    lemma_announcement_refuses_nothing(v1, j2, id, JoinError::InvalidUsername);
                    assert(ds == first + a);
                    if ds.contains(f) {
                        let j = choose|j: int| 0 <= j < ds.len() && ds[j] == f;
                        if j == 0 {
                            assert(ds[0] == first[0]);
                        } else {
                            assert(ds[j] == a[j - 1]);
                            assert(a.contains(f));
                        }
                    }
                }
            },
        }
    }
}

/// Offers, answers and ICE candidates of a participant in `room` reach a
/// target in the same room: exactly one signal of that kind from the sender,
/// and nothing else changes.
pub proof fn lemma_signals_reach_room_mates(
    config: AppConfig,
    v: Seq<RoomView>,
    id: u128,
    role: UserRole,
    room: Seq<char>,
    target: u128,
)
    requires
        in_room(v, room, target),
    ensures
        step(config, v, id, role, Some(room), ClientMessage::Offer { target }) == (
            v,
            Some(room),
            seq![(target, NoticeView::Signal(SignalKind::Offer, id))],
        ),
        step(config, v, id, role, Some(room), ClientMessage::Answer { target }) == (
            v,
            Some(room),
            seq![(target, NoticeView::Signal(SignalKind::Answer, id))],
        ),
        step(config, v, id, role, Some(room), ClientMessage::IceCandidate { target }) == (
            v,
            Some(room),
            seq![(target, NoticeView::Signal(SignalKind::Candidate, id))],
        ),
{
}

/// What an announcement for `joiner` entering `room` sends to a participant
/// listed once: the room state, then "you joined" if it is the joiner, or
/// "peer joined" with the joiner's id if it is in the joiner's room; nothing
/// more.
pub proof fn lemma_announcement_to_listed_once(
    v: Seq<RoomView>,
    joiner: u128,
    room: Seq<char>,
    p: u128,
)
    requires
        listed(v, p) == 1,
    ensures
        announcement(v, Some((joiner, room))).filter(to_recipient(p)) == if p == joiner {
            seq![(p, NoticeView::StateUpdate), (p, NoticeView::YouJoined(room))]
        } else if in_room(v, room, p) {
            seq![(p, NoticeView::StateUpdate), (p, NoticeView::PeerJoined(joiner))]
        } else {
            seq![(p, NoticeView::StateUpdate)]
        },
{
    let jn = Some((joiner, room));
    lemma_announcement_per_recipient(v, jn, p);
    let s1 = notices_for(v, p, jn);
    assert(repeated(s1, 0) == Seq::<DeliveryView>::empty());
    assert(repeated(s1, 1) == repeated(s1, 0) + s1);
    assert(repeated(s1, 1) =~= s1);
}

/// A signal from a participant in no room, or to a target outside the
/// sender's room, is dropped: nothing is delivered and nothing changes.
pub proof fn lemma_signals_outside_the_room_dropped(
    config: AppConfig,
    v: Seq<RoomView>,
    id: u128,
    role: UserRole,
    current: Option<Seq<char>>,
    target: u128,
)
    requires
        current matches Some(r) ==> !in_room(v, r, target),
    ensures
        step(config, v, id, role, current, ClientMessage::Offer { target }) == (
            v,
            current,
            Seq::<DeliveryView>::empty(),
        ),
        step(config, v, id, role, current, ClientMessage::Answer { target }) == (
            v,
            current,
            Seq::<DeliveryView>::empty(),
        ),
        step(config, v, id, role, current, ClientMessage::IceCandidate { target }) == (
            v,
            current,
            Seq::<DeliveryView>::empty(),
        ),
{
}

/// The room that the connection names, if any, holds the participant.
pub open spec fn named_room_holds(v: Seq<RoomView>, id: u128, current: Option<Seq<char>>) -> bool {
    current matches Some(r) ==> in_room(v, r, id)
}

/// The message is an accepted join into a room that turns out to be full:
/// the participant has then left its room, while its connection still names
/// that room.
pub open spec fn joins_full_room(
    config: AppConfig,
    v: Seq<RoomView>,
    id: u128,
    role: UserRole,
    current: Option<Seq<char>>,
    msg: ClientMessage,
) -> bool {
    match msg {
        ClientMessage::Join { room, name, password } => {
            &&& join_refusal(config, role, room@, name@, password_given(password)) is None
            &&& !has_space(after_leaving_current(v, current, id), room@)
        },
        _ => false,
    }
}

/// The room a connection names holds its participant, after every step but
/// a join into a full room.
pub proof fn lemma_step_keeps_named_room(
    config: AppConfig,
    v: Seq<RoomView>,
    id: u128,
    role: UserRole,
    current: Option<Seq<char>>,
    msg: ClientMessage,
)
    requires
        registry_ok(v),
        named_room_holds(v, id, current),
        !joins_full_room(config, v, id, role, current, msg),
    ensures
        ({
            let (w, cur, _) = step(config, v, id, role, current, msg);
            named_room_holds(w, id, cur)
        }),
{
    match msg {
        ClientMessage::Join { room, name, password } => {
            if join_refusal(config, role, room@, name@, password_given(password)) is None {
                let v1 = after_leaving_current(v, current, id);
                match current {
                    Some(c) => lemma_after_leave_ok(v, c, id),
                    None => {},
                }
                lemma_enter_places(v1, room@, (id, trim_spec(name@)));
            }
        },
        _ => {},
    }
}

/// A guest's connection names no room but the lobby, after every step, if it
/// did so before: guests can only join the lobby.
pub proof fn lemma_guest_stays_in_lobby(
    config: AppConfig,
    v: Seq<RoomView>,
    id: u128,
    current: Option<Seq<char>>,
    msg: ClientMessage,
)
    requires
        current matches Some(c) ==> c == LOBBY@,
    ensures
        ({
            let (_, cur, _) = step(config, v, id, UserRole::Guest, current, msg);
            cur matches Some(r) ==> r == LOBBY@
        }),
{
}

/// The role a connection gets: that of the session it presents (the role
/// name the login stored), or, without a valid one, the guest role where
/// accounts are configured and the standard role where they are not.
pub open spec fn connection_role_spec(config: AppConfig, session: Option<Seq<char>>) -> UserRole {
    match session {
        Some(s) => match role_named(s) {
            Some(role) => role,
            None => if config.users@.len() > 0 {
                UserRole::Guest
            } else {
                UserRole::Standard
            },
        },
        None => if config.users@.len() > 0 {
            UserRole::Guest
        } else {
            UserRole::Standard
        },
    }
}

/// The role of a new connection, from the session cookie's value.
pub fn connection_role(config: &AppConfig, session: &Option<String>) -> (r: UserRole)
    ensures
        r == connection_role_spec(*config, opt_view(*session)),
{
    let named = match session {
        Some(s) => UserRole::from_name(s.as_str()),
        None => None,
    };
    match named {
        Some(role) => role,
        None => if config.has_users() {
            UserRole::Guest
        } else {
            UserRole::Standard
        },
    }
}

/// The state of one WebSocket connection: its participant id, the role it
/// logged in with, and the room it is in.
#[derive(Debug)]
pub struct Session {
    pub id: u128,
    pub role: UserRole,
    pub room: Option<String>,
}

fn refusal(id: u128, e: JoinError) -> (r: Vec<Delivery>)
    ensures
        deliveries_view(r@) == seq![(id, NoticeView::Failed(e))],
{
    let mut out: Vec<Delivery> = Vec::new();
    out.push(Delivery { to: id, notice: Notice::Failed(e) });
    assert(deliveries_view(out@) =~= seq![(id, NoticeView::Failed(e))]);
    out
}

fn relay_to(
    registry: &RoomRegistry,
    room: &Option<String>,
    id: u128,
    target: u128,
    kind: SignalKind,
) -> (r: Vec<Delivery>)
    ensures
        deliveries_view(r@) == relay(registry@, opt_view(*room), id, target, kind),
{
    let mut out: Vec<Delivery> = Vec::new();
    match room {
        Some(r) => {
            if registry.contains_member(r.as_str(), target) {
                out.push(Delivery { to: target, notice: Notice::Signal(kind, id) });
            }
        },
        None => {},
    }
    assert(deliveries_view(out@) =~= relay(registry@, opt_view(*room), id, target, kind));
    out
}

impl Session {
    /// A new connection with this role, in no room.
    pub fn new(id: u128, role: UserRole) -> (r: Session)
        ensures
            r.id == id,
            r.role == role,
            r.room is None,
    {
        Session { id, role, room: None }
    }

    /// What a new connection triggers: the room state is announced to all.
    pub fn on_connect(registry: &RoomRegistry) -> (r: Vec<Delivery>)
        ensures
            deliveries_view(r@) == announcement(registry@, None),
    {
        announce(registry, &None)
    }

    /// Handles one message from the client.
    pub fn handle(
        &mut self,
        registry: &mut RoomRegistry,
        config: &AppConfig,
        msg: &ClientMessage,
    ) -> (r: Vec<Delivery>)
        ensures
            final(self).id == old(self).id,
            final(self).role == old(self).role,
            ({
                let (v, cur, ds) = step(
                    *config,
                    old(registry)@,
                    old(self).id,
                    old(self).role,
                    opt_view(old(self).room),
                    *msg,
                );
                &&& final(registry)@ == v
                &&& opt_view(final(self).room) == cur
                &&& deliveries_view(r@) == ds
            }),
    {
        match msg {
            ClientMessage::Join { room, name, password } => {
                let trimmed = trim(name.as_str());
                proof {
                    lemma_utf8_len_bounds(trimmed@);
                }
                // more characters than bytes allowed means more bytes too
                let chars = trimmed.as_str().unicode_len();
                if chars == 0 || chars > MAX_USERNAME_LEN || trimmed.as_str().len()
                    > MAX_USERNAME_LEN {
                    return refusal(self.id, JoinError::InvalidUsername);
                }
                assert(name_acceptable(trim_spec(name@)));
                let is_lobby = text_eq(room.as_str(), LOBBY);
                if self.role == UserRole::Guest && !is_lobby {
                    return refusal(self.id, JoinError::LobbyOnly);
                }
                match config.find_room(room.as_str()) {
                    None => {
                        if !is_lobby {
                            return refusal(self.id, JoinError::RoomDoesNotExist);
                        }
                    },
                    Some(rc) => {
                        match &rc.password_hash {
                            Some(h) => {
                                proof {
                                    reveal_strlit("");
                                }
                                let pw: &str = match password {
                                    Some(p) => p.as_str(),
                                    None => "",
                                };
                                assert(pw@ == password_given(*password));
                                assert(lookup_room(config.rooms@, room@) == Some(*rc));
                                if !verify_hash(h.as_str(), pw) {
                                    return refusal(self.id, JoinError::WrongRoomPassword);
                                }
                            },
                            None => {},
                        }
                    },
                }
                match &self.room {
                    Some(old_room) => registry.leave(old_room.as_str(), self.id),
                    None => {},
                }
                let mut out: Vec<Delivery> = Vec::new();
                if registry.enter(room.as_str(), Member { id: self.id, name: trimmed }) {
                    self.room = Some(room.clone());
                } else {
                    out.push(Delivery { to: self.id, notice: Notice::Failed(JoinError::RoomFull) });
                }
                let joiner = match &self.room {
                    Some(r) => Some((self.id, r.clone())),
                    None => None,
                };
                let mut announced = announce(registry, &joiner);
                out.append(&mut announced);
                out
            },
            ClientMessage::Leave => self.leave(registry),
            ClientMessage::Offer { target } => relay_to(
                registry,
                &self.room,
                self.id,
                *target,
                SignalKind::Offer,
            ),
            ClientMessage::Answer { target } => relay_to(
                registry,
                &self.room,
                self.id,
                *target,
                SignalKind::Answer,
            ),
            ClientMessage::IceCandidate { target } => relay_to(
                registry,
                &self.room,
                self.id,
                *target,
                SignalKind::Candidate,
            ),
        }
    }

    /// Leaves the current room, if any, and announces the new state; also what
    /// happens when the connection closes.
    pub fn leave(&mut self, registry: &mut RoomRegistry) -> (r: Vec<Delivery>)
        ensures
            final(self).id == old(self).id,
            final(self).role == old(self).role,
            final(self).room is None,
            final(registry)@ == after_leaving_current(
                old(registry)@,
                opt_view(old(self).room),
                old(self).id,
            ),
            match old(self).room {
                Some(room) => {
                    &&& final(registry)@ == after_leave(old(registry)@, room@, old(self).id)
                    &&& deliveries_view(r@) == announcement(final(registry)@, None)
                },
                None => {
                    &&& final(registry)@ == old(registry)@
                    &&& r@.len() == 0
                },
            },
    {
        match &self.room {
            Some(r) => {
                registry.leave(r.as_str(), self.id);
                self.room = None;
                announce(registry, &None)
            },
            None => Vec::new(),
        }
    }
}

/// Whether a text frame is short enough to be looked at.
pub fn frame_within_limit(text: &str) -> (r: bool)
    ensures
        r == (text.len() <= MAX_FRAME_BYTES),
{
    text.len() <= MAX_FRAME_BYTES
}

} // verus!
