//! The coordinator ("lobby"): the single authority over sessions and rooms.
//!
//! The coordinator is a pure state machine. Each operation takes one control
//! or chat message and returns the outbound deliveries it owes, in order; the
//! runtime performs them. The abstract state is a [`LobbyView`]: the set of
//! registered sessions and a map from room to its member list (in join
//! order). Every operation's effect on the view is given by a spec-level
//! transition function, so that laws about whole operation sequences can be
//! stated and proved over views alone.

use vstd::prelude::*;

use std::collections::HashMap;
use std::collections::HashSet;

use crate::ids::parse_conn_id;
use crate::ids::uuid_parse;
use crate::ids::uuid_string;
use crate::ids::uuid_text;
use crate::messages::ClientActorMessage;
use crate::messages::Connect;
use crate::messages::Disconnect;
use crate::messages::WsMessage;

verus! {

broadcast use vstd::std_specs::hash::group_hash_axioms;

/// The abstract coordinator state: which connections hold a session, and
/// which connections are members of which room, in join order. A room key is
/// present only while its member list is non-empty.
pub ghost struct LobbyView {
    pub sessions: Set<u128>,
    pub rooms: Map<u128, Seq<u128>>,
}

/// Structural well-formedness of a view: a room entry exists only while it
/// has members, and no connection is listed twice in one room.
pub open spec fn view_wf(v: LobbyView) -> bool {
    forall|r: u128| #[trigger] v.rooms.contains_key(r) ==> {
        &&& v.rooms[r].len() > 0
        &&& v.rooms[r].no_duplicates()
    }
}

/// The empty coordinator state.
pub open spec fn empty_view() -> LobbyView {
    LobbyView { sessions: Set::empty(), rooms: Map::empty() }
}

/// The members of `room`, or the empty sequence if the room does not exist.
pub open spec fn room_members(v: LobbyView, room: u128) -> Seq<u128> {
    if v.rooms.contains_key(room) {
        v.rooms[room]
    } else {
        Seq::empty()
    }
}

/// Text of the notice sent to the other members of a room when `id` joins.
pub open spec fn joined_text(id: u128) -> Seq<char> {
    uuid_text(id) + " just joined!"@
}

/// Text of the private greeting sent to `id` itself on joining.
pub open spec fn your_id_text(id: u128) -> Seq<char> {
    "your id is "@ + uuid_text(id)
}

/// Text of the notice sent to the remaining members when `id` disconnects.
pub open spec fn disconnected_text(id: u128) -> Seq<char> {
    uuid_text(id) + " disconnected."@
}

/// The recipient/payload pairs of a delivery list, in order.
pub open spec fn deliveries(out: Seq<WsMessage>) -> Seq<(u128, Seq<char>)> {
    out.map_values(|m: WsMessage| (m.to, m.text@))
}

/// The deliveries produced by pushing `text` to every member of `ms`, in
/// member order, skipping `except` and members without a session.
pub open spec fn fanout_except(
    sessions: Set<u128>,
    ms: Seq<u128>,
    except: u128,
    text: Seq<char>,
) -> Seq<(u128, Seq<char>)>
    decreases ms.len(),
{
    if ms.len() == 0 {
        Seq::empty()
    } else {
        let rest = fanout_except(sessions, ms.drop_last(), except, text);
        if ms.last() != except && sessions.contains(ms.last()) {
            rest.push((ms.last(), text))
        } else {
            rest
        }
    }
}

/// The deliveries produced by pushing `text` to every member of `ms`, in
/// member order, skipping members without a session.
pub open spec fn fanout_all(sessions: Set<u128>, ms: Seq<u128>, text: Seq<char>) -> Seq<
    (u128, Seq<char>),
>
    decreases ms.len(),
{
    if ms.len() == 0 {
        Seq::empty()
    } else {
        let rest = fanout_all(sessions, ms.drop_last(), text);
        if sessions.contains(ms.last()) {
            rest.push((ms.last(), text))
        } else {
            rest
        }
    }
}

/// The view after a connection registers: `id` joins `room` (created on
/// first join; joining twice leaves the member list unchanged) and gains a
/// session.
pub open spec fn connect_t(v: LobbyView, id: u128, room: u128) -> LobbyView {
    let ms = room_members(v, room);
    let ms2 = if ms.contains(id) {
        ms
    } else {
        ms.push(id)
    };
    LobbyView { sessions: v.sessions.insert(id), rooms: v.rooms.insert(room, ms2) }
}

/// The deliveries owed for a registration of `id` into `room` from state `v`:
/// a join notice to every other member that already holds a session, then the
/// private greeting to `id` itself.
pub open spec fn connect_notices(v: LobbyView, id: u128, room: u128) -> Seq<(u128, Seq<char>)> {
    let ms = room_members(v, room);
    let ms2 = if ms.contains(id) {
        ms
    } else {
        ms.push(id)
    };
    fanout_except(v.sessions, ms2, id, joined_text(id)).push((id, your_id_text(id)))
}

/// The view after a disconnect of `id` from `room`. A second disconnect of
/// the same id, or one naming an id that never registered, changes nothing.
/// An unknown room leaves the room map untouched. The room entry is dropped
/// once its member list would become empty.
pub open spec fn disconnect_t(v: LobbyView, id: u128, room: u128) -> LobbyView {
    if !v.sessions.contains(id) {
        v
    } else {
        let s2 = v.sessions.remove(id);
        if !v.rooms.contains_key(room) {
            LobbyView { sessions: s2, rooms: v.rooms }
        } else {
            let ms2 = v.rooms[room].remove_value(id);
            if ms2.len() == 0 {
                LobbyView { sessions: s2, rooms: v.rooms.remove(room) }
            } else {
                LobbyView { sessions: s2, rooms: v.rooms.insert(room, ms2) }
            }
        }
    }
}

/// The deliveries owed for a disconnect of `id` from `room` in state `v`: a
/// leave notice to every member of the room other than `id` that still holds
/// a session once `id`'s own is gone. A disconnect of an unregistered id, or
/// one naming an unknown room, owes nothing.
pub open spec fn disconnect_notices(v: LobbyView, id: u128, room: u128) -> Seq<
    (u128, Seq<char>),
> {
    if !v.sessions.contains(id) || !v.rooms.contains_key(room) {
        Seq::empty()
    } else {
        fanout_except(v.sessions.remove(id), v.rooms[room], id, disconnected_text(id))
    }
}

/// The index of the first space character of `text` at or after `from`, or
/// the length of `text` if there is none.
pub open spec fn first_space(text: Seq<char>, from: int) -> int
    decreases text.len() - from,
{
    if from < 0 || from >= text.len() {
        text.len() as int
    } else if text[from] == ' ' {
        from
    } else {
        first_space(text, from + 1)
    }
}

/// Whether a chat payload is a whisper: it opens with the marker `\w` and a
/// space. Anything else — including a bare `\w` with no space — is a
/// broadcast.
pub open spec fn is_whisper(text: Seq<char>) -> bool {
    text.len() >= 3 && text.subrange(0, 3) == "\\w "@
}

/// The target token of a whisper: the characters between the marker and the
/// next space (or the end of the payload).
pub open spec fn whisper_token(text: Seq<char>) -> Seq<char> {
    text.subrange(3, first_space(text, 3))
}

/// The deliveries owed for a chat payload `text` sent into `room` in state
/// `v`. A whisper goes verbatim to its target alone, whatever room the
/// target is in; a malformed or unknown target means nothing is owed. A
/// broadcast goes verbatim to every member of the room, the sender included;
/// an unknown room means nothing is owed.
pub open spec fn route_deliveries(v: LobbyView, room: u128, text: Seq<char>) -> Seq<
    (u128, Seq<char>),
> {
    if is_whisper(text) {
        match uuid_parse(whisper_token(text)) {
            Some(t) => if v.sessions.contains(t) {
                seq![(t, text)]
            } else {
                Seq::empty()
            },
            None => Seq::empty(),
        }
    } else if v.rooms.contains_key(room) {
        fanout_all(v.sessions, v.rooms[room], text)
    } else {
        Seq::empty()
    }
}

pub(crate) proof fn lemma_first_space_at(text: Seq<char>, from: int, j: int)
    requires
        0 <= from <= j <= text.len(),
        forall|k: int| from <= k < j ==> text[k] != ' ',
        j == text.len() || text[j] == ' ',
    ensures
        first_space(text, from) == j,
    decreases j - from,
{
    if from < j {
        lemma_first_space_at(text, from + 1, j);
    }
}

proof fn lemma_map_values_insert(m: Map<u128, Vec<u128>>, k: u128, v: Vec<u128>)
    ensures
        m.insert(k, v).map_values(|ms: Vec<u128>| ms@) == m.map_values(
            |ms: Vec<u128>| ms@,
        ).insert(k, v@),
{
    let f = |ms: Vec<u128>| ms@;
    assert(m.insert(k, v).map_values(f) =~= m.map_values(f).insert(k, f(v)));
}

proof fn lemma_map_values_remove(m: Map<u128, Vec<u128>>, k: u128)
    ensures
        m.remove(k).map_values(|ms: Vec<u128>| ms@) == m.map_values(
            |ms: Vec<u128>| ms@,
        ).remove(k),
{
    let f = |ms: Vec<u128>| ms@;
    assert(m.remove(k).map_values(f) =~= m.map_values(f).remove(k));
}

/// The coordinator. It owns the only copies of the session set and the room
/// map; connection handlers interact with it through messages alone.
pub struct Lobby {
    sessions: HashSet<u128>,
    rooms: HashMap<u128, Vec<u128>>,
}

impl View for Lobby {
    type V = LobbyView;

    closed spec fn view(&self) -> LobbyView {
        LobbyView {
            sessions: self.sessions@,
            rooms: self.rooms@.map_values(|ms: Vec<u128>| ms@),
        }
    }
}

impl Default for Lobby {
    /// A coordinator with no sessions and no rooms.
    fn default() -> (l: Lobby)
        ensures
            l@ == empty_view(),
            view_wf(l@),
    {
        let l = Lobby { sessions: HashSet::new(), rooms: HashMap::new() };
        proof {
            assert(l@.rooms =~= Map::<u128, Seq<u128>>::empty());
            assert(l@ == empty_view());
        }
        l
    }
}

impl Lobby {
    /// Structural invariant, established by `default` and preserved by every
    /// operation.
    pub open spec fn wf(self) -> bool {
        view_wf(self@)
    }

    /// How many connections currently hold a session.
    pub fn session_count(&self) -> (n: usize)
        ensures
            n == self@.sessions.len(),
    {
        self.sessions.len()
    }

    /// How many rooms currently exist.
    pub fn room_count(&self) -> (n: usize)
        ensures
            n == self@.rooms.len(),
    {
        proof {
            assert(self@.rooms.dom() =~= self.rooms@.dom());
        }
        self.rooms.len()
    }

    /// Whether `x` occurs in `v`.
    fn vec_contains(v: &Vec<u128>, x: u128) -> (b: bool)
        ensures
            b == v@.contains(x),
    {
        let n = v.len();
        let mut i: usize = 0;
        while i < n
            invariant
                i <= n,
                n == v@.len(),
                forall|k: int| 0 <= k < i ==> v@[k] != x,
            decreases n - i,
        {
            if v[i] == x {
                return true;
            }
            i += 1;
        }
        false
    }

    /// The index of the first occurrence of `x` in `v`, if any.
    fn vec_index_of(v: &Vec<u128>, x: u128) -> (r: Option<usize>)
        ensures
            match r {
                Some(i) => i < v@.len() && v@[i as int] == x && (forall|k: int|
                    0 <= k < i ==> v@[k] != x),
                None => !v@.contains(x),
            },
    {
        let n = v.len();
        let mut i: usize = 0;
        while i < n
            invariant
                i <= n,
                n == v@.len(),
                forall|k: int| 0 <= k < i ==> v@[k] != x,
            decreases n - i,
        {
            if v[i] == x {
                return Some(i);
            }
            i += 1;
        }
        None
    }

    /// A copy of the member list of `room`, or an empty list if the room
    /// does not exist.
    fn members_of(&self, room: u128) -> (ms: Vec<u128>)
        ensures
            ms@ == room_members(self@, room),
    {
        let mut ms: Vec<u128> = Vec::new();
        match self.rooms.get(&room) {
            Some(cur) => {
                let n = cur.len();
                let mut i: usize = 0;
                while i < n
                    invariant
                        i <= n,
                        n == cur@.len(),
                        ms@ == cur@.take(i as int),
                    decreases n - i,
                {
                    ms.push(cur[i]);
                    proof {
                        assert(cur@.take(i + 1 as int) =~= cur@.take(i as int).push(
                            cur@[i as int],
                        ));
                    }
                    i += 1;
                }
                proof {
                    assert(cur@.take(n as int) =~= cur@);
                }
                ms
            },
            None => ms,
        }
    }

    /// The delivery primitive: push `message` to `recipient_id` iff it holds
    /// a session. An unknown recipient is skipped, never an error.
    fn send_message(&self, message: &str, recipient_id: u128, out: &mut Vec<WsMessage>)
        ensures
            deliveries(final(out)@) == if self@.sessions.contains(recipient_id) {
                deliveries(old(out)@).push((recipient_id, message@))
            } else {
                deliveries(old(out)@)
            },
    {
        if self.sessions.contains(&recipient_id) {
            let m = WsMessage { to: recipient_id, text: message.to_string() };
            out.push(m);
            proof {
                assert(deliveries(out@) =~= deliveries(old(out)@).push(
                    (recipient_id, message@),
                ));
            }
        }
    }

    /// Connect: join `msg.self_id` to its room (created on first join),
    /// notify the members already there, register the session, and greet the
    /// caller with its own id.
    pub fn handle_connect(&mut self, msg: &Connect) -> (out: Vec<WsMessage>)
        requires
            old(self).wf(),
        ensures
            final(self).wf(),
            final(self)@ == connect_t(old(self)@, msg.self_id, msg.lobby_id),
            deliveries(out@) == connect_notices(old(self)@, msg.self_id, msg.lobby_id),
    {
        let id = msg.self_id;
        let room = msg.lobby_id;
        let mut members = self.members_of(room);
        if !Self::vec_contains(&members, id) {
            members.push(id);
        }
        let mut joined = uuid_string(id);
        joined.append(" just joined!");
        let mut out: Vec<WsMessage> = Vec::new();
        let n = members.len();
        let mut i: usize = 0;
        while i < n
            invariant
                i <= n,
                n == members@.len(),
                joined@ == joined_text(id),
                *self == *old(self),
                deliveries(out@) == fanout_except(
                    old(self)@.sessions,
                    members@.take(i as int),
                    id,
                    joined_text(id),
                ),
            decreases n - i,
        {
            let m = members[i];
            proof {
                let t = members@.take(i as int);
                let mi = members@[i as int];
                assert(members@.take(i as int + 1) =~= t.push(mi));
                assert(t.push(mi).drop_last() =~= t);
                assert(t.push(mi).last() == mi);
            }
            if m != id {
                self.send_message(joined.as_str(), m, &mut out);
            }
            i += 1;
        }
        proof {
            assert(members@.take(n as int) =~= members@);
        }
        let ghost ms2 = members@;
        let ghost rooms0 = self.rooms@;
        proof {
            lemma_map_values_insert(rooms0, room, members);
        }
        self.rooms.insert(room, members);
        self.sessions.insert(id);
        let mut greeting = "your id is ".to_string();
        greeting.append(uuid_string(id).as_str());
        self.send_message(greeting.as_str(), id, &mut out);
        proof {
            assert(self@ == connect_t(old(self)@, id, room));
            assert(deliveries(out@) == connect_notices(old(self)@, id, room));
            assert forall|r: u128| #[trigger] self@.rooms.contains_key(r) implies self@.rooms[r].len()
                > 0 && self@.rooms[r].no_duplicates() by {
                if r != room {
                    assert(old(self)@.rooms.contains_key(r));
                }
            }
        }
        out
    }

    /// Disconnect: drop `msg.id`'s session, notify the rest of its room, and
    /// remove it from the member list — deleting the room once it would be
    /// empty. A disconnect for an id with no session is a no-op (idempotent
    /// against duplicates), and an unknown room leaves the room map alone;
    /// neither is an error.
    pub fn handle_disconnect(&mut self, msg: &Disconnect) -> (out: Vec<WsMessage>)
        requires
            old(self).wf(),
        ensures
            final(self).wf(),
            final(self)@ == disconnect_t(old(self)@, msg.id, msg.room_id),
            deliveries(out@) == disconnect_notices(old(self)@, msg.id, msg.room_id),
    {
        let id = msg.id;
        let room = msg.room_id;
        let mut out: Vec<WsMessage> = Vec::new();
        if !self.sessions.contains(&id) {
            proof {
                assert(deliveries(out@) =~= Seq::<(u128, Seq<char>)>::empty());
            }
            return out;
        }
        self.sessions.remove(&id);
        if !self.rooms.contains_key(&room) {
            proof {
                assert(self@.rooms == old(self)@.rooms);
                assert(deliveries(out@) =~= Seq::<(u128, Seq<char>)>::empty());
            }
            return out;
        }
        let members = self.members_of(room);
        let ghost msv = members@;
        let mut text = uuid_string(id);
        text.append(" disconnected.");
        let n = members.len();
        let mut i: usize = 0;
        while i < n
            invariant
                i <= n,
                n == members@.len(),
                members@ == msv,
                text@ == disconnected_text(id),
                self.rooms == old(self).rooms,
                self.sessions@ == old(self)@.sessions.remove(id),
                deliveries(out@) == fanout_except(
                    old(self)@.sessions.remove(id),
                    msv.take(i as int),
                    id,
                    disconnected_text(id),
                ),
            decreases n - i,
        {
            let m = members[i];
            proof {
                let t = msv.take(i as int);
                let mi = msv[i as int];
                assert(msv.take(i as int + 1) =~= t.push(mi));
                assert(t.push(mi).drop_last() =~= t);
                assert(t.push(mi).last() == mi);
            }
            if m != id {
                self.send_message(text.as_str(), m, &mut out);
            }
            i += 1;
        }
        proof {
            assert(msv.take(n as int) =~= msv);
        }
        match Self::vec_index_of(&members, id) {
            Some(idx) => {
                proof {
                    msv.index_of_first_ensures(id);
                    let fi = msv.index_of_first(id).unwrap();
                    assert(fi == idx as int);
                    msv.remove_ensures(idx as int);
                    assert(msv.remove_value(id) == msv.remove(idx as int));
                }
                let mut ms2 = members;
                ms2.remove(idx);
                proof {
                    assert forall|a: int, b: int|
                        0 <= a < ms2@.len() && 0 <= b < ms2@.len() && a != b implies ms2@[a]
                        != ms2@[b] by {
                        assert(old(self)@.rooms[room].no_duplicates());
                    }
                }
                if ms2.len() == 0 {
                    proof {
                        lemma_map_values_remove(self.rooms@, room);
                    }
                    self.rooms.remove(&room);
                } else {
                    proof {
                        lemma_map_values_insert(self.rooms@, room, ms2);
                    }
                    self.rooms.insert(room, ms2);
                }
            },
            None => {
                proof {
                    msv.index_of_first_ensures(id);
                    assert(msv.remove_value(id) == msv);
                    assert(old(self)@.rooms.insert(room, msv) =~= old(self)@.rooms);
                }
            },
        }
        proof {
            assert(self@ == disconnect_t(old(self)@, id, room));
        }
        out
    }

    /// Route: decide who is owed `msg.msg`. A payload opening with `\w` and
    /// a space is a whisper: the token up to the next space is parsed as a
    /// connection id, and on success the whole original text goes to that
    /// one connection, whatever room it is in. A malformed or unknown target
    /// is dropped silently (the sender is not notified). Any other payload
    /// is a broadcast to every member of the sender's room, the sender
    /// included; an unknown room is a no-op.
    pub fn handle_message(&self, msg: &ClientActorMessage) -> (out: Vec<WsMessage>)
        ensures
            deliveries(out@) == route_deliveries(self@, msg.room_id, msg.msg@),
    {
        let mut out: Vec<WsMessage> = Vec::new();
        let s = msg.msg.as_str();
        let n = s.unicode_len();
        let whisper = n >= 3 && s.get_char(0) == '\\' && s.get_char(1) == 'w' && s.get_char(2)
            == ' ';
        proof {
            reveal_strlit("\\w ");
            if n >= 3 {
                let pre = msg.msg@.subrange(0, 3);
                assert(pre[0] == msg.msg@[0] && pre[1] == msg.msg@[1] && pre[2] == msg.msg@[2]);
                if whisper {
                    assert(pre =~= "\\w "@);
                }
            }
            assert(whisper == is_whisper(msg.msg@));
        }
        if whisper {
            let mut j: usize = 3;
            while j < n && s.get_char(j) != ' '
                invariant
                    3 <= j <= n,
                    n == s@.len(),
                    forall|k: int| 3 <= k < j ==> s@[k] != ' ',
                decreases n - j,
            {
                j += 1;
            }
            proof {
                lemma_first_space_at(s@, 3, j as int);
            }
            let token = s.substring_char(3, j);
            match parse_conn_id(token) {
                Some(target) => {
                    self.send_message(s, target, &mut out);
                    proof {
                        if self@.sessions.contains(target) {
                            assert(deliveries(out@) =~= seq![(target, msg.msg@)]);
                        } else {
                            assert(deliveries(out@) =~= Seq::<(u128, Seq<char>)>::empty());
                        }
                    }
                },
                None => {
                    proof {
                        assert(deliveries(out@) =~= Seq::<(u128, Seq<char>)>::empty());
                    }
                },
            }
        } else {
            match self.rooms.get(&msg.room_id) {
                Some(cur) => {
                    let m = cur.len();
                    let mut i: usize = 0;
                    while i < m
                        invariant
                            i <= m,
                            m == cur@.len(),
                            s@ == msg.msg@,
                            cur@ == self@.rooms[msg.room_id],
                            self@.rooms.contains_key(msg.room_id),
                            deliveries(out@) == fanout_all(
                                self@.sessions,
                                cur@.take(i as int),
                                msg.msg@,
                            ),
                        decreases m - i,
                    {
                        proof {
                            let t = cur@.take(i as int);
                            let mi = cur@[i as int];
                            assert(cur@.take(i as int + 1) =~= t.push(mi));
                            assert(t.push(mi).drop_last() =~= t);
                            assert(t.push(mi).last() == mi);
                        }
                        self.send_message(s, cur[i], &mut out);
                        i += 1;
                    }
                    proof {
                        assert(cur@.take(m as int) =~= cur@);
                    }
                },
                None => {
                    proof {
                        assert(deliveries(out@) =~= Seq::<(u128, Seq<char>)>::empty());
                    }
                },
            }
        }
        out
    }
}

} // verus!
