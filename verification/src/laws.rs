//! Laws of the coordinator, stated and proved over [`LobbyView`]s.
//!
//! Every exec operation of [`crate::lobby::Lobby`] ensures that its effect on
//! the view equals one of the spec transitions (`connect_t`, `disconnect_t`)
//! and that its deliveries equal one of the spec delivery lists
//! (`connect_notices`, `disconnect_notices`, `route_deliveries`). The proof
//! functions here therefore speak about arbitrary runs of the real code.

use vstd::prelude::*;

use crate::ids::uuid_parse;
use crate::lobby::connect_notices;
use crate::lobby::connect_t;
use crate::lobby::disconnect_notices;
use crate::lobby::disconnect_t;
use crate::lobby::disconnected_text;
use crate::lobby::fanout_all;
use crate::lobby::fanout_except;
use crate::lobby::is_whisper;
use crate::lobby::joined_text;
use crate::lobby::room_members;
use crate::lobby::route_deliveries;
use crate::lobby::view_wf;
use crate::lobby::whisper_token;
use crate::lobby::your_id_text;
use crate::lobby::LobbyView;

verus! {

broadcast use vstd::set::group_set_axioms;

/// One control operation aimed at one fixed room.
pub enum LobbyOp {
    Connect { id: u128 },
    Disconnect { id: u128 },
}

/// The connection id an operation speaks of.
pub open spec fn op_id(op: LobbyOp) -> u128 {
    match op {
        LobbyOp::Connect { id } => id,
        LobbyOp::Disconnect { id } => id,
    }
}

/// The view after one operation on `room`.
pub open spec fn apply_op(v: LobbyView, room: u128, op: LobbyOp) -> LobbyView {
    match op {
        LobbyOp::Connect { id } => connect_t(v, id, room),
        LobbyOp::Disconnect { id } => disconnect_t(v, id, room),
    }
}

/// The view after a whole sequence of operations on `room`, first to last.
pub open spec fn apply_ops(v: LobbyView, room: u128, ops: Seq<LobbyOp>) -> LobbyView
    decreases ops.len(),
{
    if ops.len() == 0 {
        v
    } else {
        apply_op(apply_ops(v, room, ops.drop_last()), room, ops.last())
    }
}

/// The ids that `ops` has connected and not since disconnected.
pub open spec fn active_after(ops: Seq<LobbyOp>) -> Set<u128>
    decreases ops.len(),
{
    if ops.len() == 0 {
        Set::empty()
    } else {
        match ops.last() {
            LobbyOp::Connect { id } => active_after(ops.drop_last()).insert(id),
            LobbyOp::Disconnect { id } => active_after(ops.drop_last()).remove(id),
        }
    }
}

/// Removing one slot of a duplicate-free sequence removes exactly that
/// element from its set of values.
proof fn lemma_remove_to_set(ms: Seq<u128>, i: int)
    requires
        0 <= i < ms.len(),
        ms.no_duplicates(),
    ensures
        ms.remove(i).to_set() == ms.to_set().remove(ms[i]),
{
    ms.remove_ensures(i);
    let r = ms.remove(i);
    assert forall|x: u128| r.to_set().contains(x) implies ms.to_set().remove(
        ms[i],
    ).contains(x) by {
        let j = choose|j: int| 0 <= j < r.len() && r[j] == x;
        if j < i {
            assert(ms[j] == x);
        } else {
            assert(ms[j + 1] == x);
        }
    }
    assert forall|x: u128| ms.to_set().remove(ms[i]).contains(x) implies r.to_set().contains(
        x,
    ) by {
        let j = choose|j: int| 0 <= j < ms.len() && ms[j] == x;
        if j < i {
            assert(r[j] == x);
        } else {
            assert(r[j - 1] == x);
        }
    }
    assert(r.to_set() =~= ms.to_set().remove(ms[i]));
}

/// Appending an element to a sequence adds exactly it to the set of values.
proof fn lemma_push_to_set(ms: Seq<u128>, x: u128)
    ensures
        ms.push(x).to_set() == ms.to_set().insert(x),
{
    assert forall|y: u128| ms.push(x).to_set().contains(y) implies ms.to_set().insert(
        x,
    ).contains(y) by {
        let j = choose|j: int| 0 <= j < ms.push(x).len() && ms.push(x)[j] == y;
        if j < ms.len() {
            assert(ms[j] == y);
        }
    }
    assert forall|y: u128| ms.to_set().insert(x).contains(y) implies ms.push(
        x,
    ).to_set().contains(y) by {
        if y == x {
            assert(ms.push(x)[ms.len() as int] == y);
        } else {
            let j = choose|j: int| 0 <= j < ms.len() && ms[j] == y;
            assert(ms.push(x)[j] == y);
        }
    }
    assert(ms.push(x).to_set() =~= ms.to_set().insert(x));
}

/// The room-lifecycle law. Starting from any well-formed state in which
/// `room` does not exist and none of the ids that `ops` will name holds a
/// session, run any sequence of Connect/Disconnect operations on `room`.
/// Afterwards the sessions are exactly the initial ones plus the ids still
/// connected; while any id is still connected the room entry holds exactly
/// those ids (each once) and no other room has changed; and once none is —
/// in particular, once every connected id has disconnected — the room entry
/// no longer exists and the session set is back to where it began.
pub proof fn lemma_room_lifecycle(v0: LobbyView, room: u128, ops: Seq<LobbyOp>)
    requires
        view_wf(v0),
        !v0.rooms.contains_key(room),
        forall|i: int| 0 <= i < ops.len() ==> !v0.sessions.contains(op_id(#[trigger] ops[i])),
    ensures
        ({
            let v = apply_ops(v0, room, ops);
            let a = active_after(ops);
            &&& view_wf(v)
            &&& v.sessions == v0.sessions.union(a)
            &&& a.finite()
            &&& if a.is_empty() {
                v.rooms == v0.rooms
            } else {
                &&& v.rooms.contains_key(room)
                &&& v.rooms[room].to_set() == a
                &&& v.rooms[room].no_duplicates()
                &&& v.rooms.remove(room) == v0.rooms
            }
        }),
    decreases ops.len(),
{
    if ops.len() == 0 {
        assert(v0.sessions.union(Set::empty()) =~= v0.sessions);
    } else {
        let pre = ops.drop_last();
        assert(forall|i: int|
            0 <= i < pre.len() ==> !v0.sessions.contains(op_id(#[trigger] pre[i])));
        lemma_room_lifecycle(v0, room, pre);
        let v1 = apply_ops(v0, room, pre);
        let a1 = active_after(pre);
        let v = apply_ops(v0, room, ops);
        let a = active_after(ops);
        match ops.last() {
            LobbyOp::Connect { id } => {
                assert(!v0.sessions.contains(id));
                let ms = room_members(v1, room);
                let ms2 = if ms.contains(id) {
                    ms
                } else {
                    ms.push(id)
                };
                assert(v.sessions =~= v0.sessions.union(a1.insert(id)));
                if a1.is_empty() {
                    assert(ms =~= Seq::<u128>::empty());
                    lemma_push_to_set(ms, id);
                    assert(ms.to_set() =~= Set::<u128>::empty());
                    assert(ms2.to_set() =~= a1.insert(id));
                    assert(v.rooms.remove(room) =~= v0.rooms);
                } else {
                    assert(ms.to_set() == a1);
                    if ms.contains(id) {
                        assert(a1.contains(id));
                        assert(ms2.to_set() =~= a1.insert(id));
                    } else {
                        lemma_push_to_set(ms, id);
                        assert(ms2.to_set() =~= ms.to_set().insert(id));
                        assert(ms2.no_duplicates());
                    }
                    assert(v.rooms.remove(room) =~= v0.rooms);
                }
                assert forall|r: u128| #[trigger] v.rooms.contains_key(r) implies v.rooms[r].len()
                    > 0 && v.rooms[r].no_duplicates() by {
                    if r != room {
                        assert(v1.rooms.contains_key(r));
                    }
                }
            },
            LobbyOp::Disconnect { id } => {
                assert(!v0.sessions.contains(id));
                if a1.contains(id) {
                    assert(v1.sessions.contains(id));
                    assert(!a1.is_empty());
                    let ms = v1.rooms[room];
                    assert(ms.to_set() == a1);
                    assert(ms.contains(id));
                    ms.index_of_first_ensures(id);
                    let i = ms.index_of_first(id).unwrap();
                    let ms2 = ms.remove_value(id);
                    assert(ms2 == ms.remove(i));
                    lemma_remove_to_set(ms, i);
                    assert(ms2.to_set() == a1.remove(id));
                    ms.remove_ensures(i);
                    assert(ms2.no_duplicates());
                    assert(v.sessions =~= v0.sessions.union(a1.remove(id)));
                    if ms2.len() == 0 {
                        assert(ms2.to_set() =~= Set::<u128>::empty());
                        assert(a.is_empty());
                        assert(v.rooms == v1.rooms.remove(room));
                        assert(v.rooms =~= v0.rooms);
                    } else {
                        assert(ms2.to_set().contains(ms2[0]));
                        assert(!a.is_empty());
                        assert(v.rooms.remove(room) =~= v0.rooms);
                    }
                    assert forall|r: u128| #[trigger] v.rooms.contains_key(
                        r,
                    ) implies v.rooms[r].len() > 0 && v.rooms[r].no_duplicates() by {
                        if r != room {
                            assert(v1.rooms.contains_key(r));
                        }
                    }
                } else {
                    assert(!v1.sessions.contains(id)) by {
                        assert(v1.sessions == v0.sessions.union(a1));
                    }
                    assert(v == v1);
                    assert(a =~= a1);
                    assert(v.sessions == v0.sessions.union(a)) by {
                        assert(v0.sessions.union(a1) =~= v0.sessions.union(a));
                    }
                }
            },
        }
    }
}

/// After every connected id has disconnected again, nothing is left: the
/// room entry is gone (as it never existed before) and the session set is
/// exactly the initial one.
pub proof fn lemma_room_drained(v0: LobbyView, room: u128, ops: Seq<LobbyOp>)
    requires
        view_wf(v0),
        !v0.rooms.contains_key(room),
        forall|i: int| 0 <= i < ops.len() ==> !v0.sessions.contains(op_id(#[trigger] ops[i])),
        active_after(ops).is_empty(),
    ensures
        apply_ops(v0, room, ops).rooms == v0.rooms,
        apply_ops(v0, room, ops).sessions == v0.sessions,
{
    lemma_room_lifecycle(v0, room, ops);
    assert(v0.sessions.union(active_after(ops)) =~= v0.sessions);
}

/// Unfolding step for `fanout_except` over an appended member.
proof fn lemma_fanout_except_push(
    sessions: Set<u128>,
    ms: Seq<u128>,
    x: u128,
    except: u128,
    text: Seq<char>,
)
    ensures
        fanout_except(sessions, ms.push(x), except, text) == if x != except
            && sessions.contains(x) {
            fanout_except(sessions, ms, except, text).push((x, text))
        } else {
            fanout_except(sessions, ms, except, text)
        },
{
    assert(ms.push(x).drop_last() =~= ms);
    assert(ms.push(x).last() == x);
}

/// Join-notice law. From a state where the room does not exist and neither
/// id holds a session: the first connection is greeted with its own id and
/// nothing else (there is nobody to notify); after the second connection,
/// the earlier member is told of the new arrival and the new arrival is
/// greeted with its own id — and receives nothing about the earlier join.
pub proof fn lemma_second_join_notices(v0: LobbyView, a: u128, b: u128, room: u128)
    requires
        !v0.rooms.contains_key(room),
        !v0.sessions.contains(a),
        !v0.sessions.contains(b),
        a != b,
    ensures
        connect_notices(v0, a, room) == seq![(a, your_id_text(a))],
        connect_notices(connect_t(v0, a, room), b, room) == seq![
            (a, joined_text(b)),
            (b, your_id_text(b)),
        ],
        forall|t: Seq<char>|
            connect_notices(connect_t(v0, a, room), b, room).contains((b, t)) ==> t
                == your_id_text(b),
{
    let e = Seq::<u128>::empty();
    assert(room_members(v0, room) == e);
    assert(!e.contains(a));
    let ms1 = e.push(a);
    assert(fanout_except(v0.sessions, e, a, joined_text(a)) == Seq::<(u128, Seq<char>)>::empty());
    lemma_fanout_except_push(v0.sessions, e, a, a, joined_text(a));
    assert(connect_notices(v0, a, room) =~= seq![(a, your_id_text(a))]);

    let v1 = connect_t(v0, a, room);
    assert(v1.rooms.contains_key(room) && v1.rooms[room] == ms1);
    assert(forall|j: int| 0 <= j < ms1.len() ==> ms1[j] != b);
    assert(!ms1.contains(b));
    let ms2 = ms1.push(b);
    assert(v1.sessions.contains(a));
    assert(fanout_except(v1.sessions, e, b, joined_text(b)) == Seq::<(u128, Seq<char>)>::empty());
    lemma_fanout_except_push(v1.sessions, e, a, b, joined_text(b));
    assert(fanout_except(v1.sessions, ms1, b, joined_text(b)) =~= seq![(a, joined_text(b))]);
    lemma_fanout_except_push(v1.sessions, ms1, b, b, joined_text(b));
    assert(connect_notices(v1, b, room) =~= seq![(a, joined_text(b)), (b, your_id_text(b))]);
    assert forall|t: Seq<char>|
        connect_notices(v1, b, room).contains((b, t)) implies t == your_id_text(b) by {
        let n = connect_notices(v1, b, room);
        let j = choose|j: int| 0 <= j < n.len() && n[j] == (b, t);
    }
}

/// Broadcast fan-out over a member list all of whom hold sessions is the
/// member list itself, paired with the payload.
proof fn lemma_fanout_all_full(sessions: Set<u128>, ms: Seq<u128>, text: Seq<char>)
    requires
        forall|i: int| 0 <= i < ms.len() ==> sessions.contains(#[trigger] ms[i]),
    ensures
        fanout_all(sessions, ms, text) == ms.map_values(|m: u128| (m, text)),
    decreases ms.len(),
{
    let f = |m: u128| (m, text);
    if ms.len() == 0 {
        assert(fanout_all(sessions, ms, text) =~= ms.map_values(f));
    } else {
        lemma_fanout_all_full(sessions, ms.drop_last(), text);
        assert(sessions.contains(ms.last()));
        assert(ms.drop_last().map_values(f).push(f(ms.last())) =~= ms.map_values(f));
    }
}

/// Broadcast law: a payload that is not a whisper, sent into an existing
/// room all of whose members hold sessions, is delivered verbatim to every
/// member in member order — the sender, being a member, receives its own
/// echo. Under a well-formed view the member list is duplicate-free, so
/// each member receives it exactly once.
pub proof fn lemma_broadcast_echoes_to_all(v: LobbyView, room: u128, text: Seq<char>)
    requires
        !is_whisper(text),
        v.rooms.contains_key(room),
        forall|i: int|
            0 <= i < v.rooms[room].len() ==> v.sessions.contains(#[trigger] v.rooms[room][i]),
    ensures
        route_deliveries(v, room, text) == v.rooms[room].map_values(|m: u128| (m, text)),
{
    lemma_fanout_all_full(v.sessions, v.rooms[room], text);
}

/// Whisper law: a payload of the form `\w <token> <body>` whose token names
/// a connection that holds a session is delivered, verbatim and in its
/// entirety, to that one connection and to nobody else — whatever room the
/// sender named, and whether or not the two share one.
pub proof fn lemma_whisper_reaches_target_only(
    v: LobbyView,
    room: u128,
    tok: Seq<char>,
    body: Seq<char>,
    target: u128,
)
    requires
        uuid_parse(tok) == Some(target),
        v.sessions.contains(target),
        tok.len() > 0,
        forall|k: int| 0 <= k < tok.len() ==> tok[k] != ' ',
    ensures
        route_deliveries(v, room, "\\w "@ + tok + " "@ + body) == seq![
            (target, "\\w "@ + tok + " "@ + body),
        ],
{
    let text = "\\w "@ + tok + " "@ + body;
    reveal_strlit("\\w ");
    reveal_strlit(" ");
    assert(text.len() == 4 + tok.len() + body.len());
    assert(text.subrange(0, 3) =~= "\\w "@);
    assert(is_whisper(text));
    let sp = 3 + tok.len() as int;
    assert(forall|k: int| 3 <= k < sp ==> text[k] == tok[k - 3]);
    assert(text[sp] == ' ');
    crate::lobby::lemma_first_space_at(text, 3, sp);
    assert(whisper_token(text) =~= tok);
    assert(route_deliveries(v, room, text) =~= seq![(target, text)]);
}

/// Leave-notice law: in a room whose members are exactly `{a, b}` (both
/// with sessions), a disconnect of `a` notifies `b` exactly once — with the
/// departure notice and nothing else — and leaves the room containing `b`
/// alone.
pub proof fn lemma_disconnect_notice(v: LobbyView, a: u128, b: u128, room: u128)
    requires
        view_wf(v),
        v.sessions.contains(a),
        v.sessions.contains(b),
        a != b,
        v.rooms.contains_key(room),
        v.rooms[room].to_set() == set![a, b],
    ensures
        disconnect_notices(v, a, room) == seq![(b, disconnected_text(a))],
        disconnect_t(v, a, room).rooms.contains_key(room),
        disconnect_t(v, a, room).rooms[room] == seq![b],
{
    let ms = v.rooms[room];
    let s2 = v.sessions.remove(a);
    let txt = disconnected_text(a);
    assert(set![a, b].len() == 2);
    ms.unique_seq_to_set();
    assert(ms.len() == 2);
    assert(ms.contains(ms[0]) && ms.contains(ms[1]));
    assert(ms.to_set().contains(ms[0]) && ms.to_set().contains(ms[1]));
    assert(ms[0] != ms[1]);
    ms.index_of_first_ensures(a);
    let e = Seq::<u128>::empty();
    assert(fanout_except(s2, e, a, txt) == Seq::<(u128, Seq<char>)>::empty());
    assert(s2.contains(b));
    if ms[0] == a {
        assert(ms =~= e.push(a).push(b));
        lemma_fanout_except_push(s2, e, a, a, txt);
        lemma_fanout_except_push(s2, e.push(a), b, a, txt);
        assert(fanout_except(s2, ms, a, txt) =~= seq![(b, txt)]);
        assert(ms.index_of_first(a) == Some(0int));
        ms.remove_ensures(0int);
        assert(ms.remove_value(a) =~= seq![b]);
    } else {
        assert(ms[1] == a && ms[0] == b);
        assert(ms =~= e.push(b).push(a));
        lemma_fanout_except_push(s2, e, b, a, txt);
        lemma_fanout_except_push(s2, e.push(b), a, a, txt);
        assert(fanout_except(s2, ms, a, txt) =~= seq![(b, txt)]);
        assert(ms.index_of_first(a) == Some(1int));
        ms.remove_ensures(1int);
        assert(ms.remove_value(a) =~= seq![b]);
    }
}

/// Idempotence law: a disconnect for an id that holds no session — in
/// particular, a second disconnect for an id already removed — changes
/// nothing and produces no notification, whatever room it names.
pub proof fn lemma_disconnect_idempotent(v: LobbyView, id: u128, room: u128, room2: u128)
    ensures
        !v.sessions.contains(id) ==> disconnect_t(v, id, room2) == v,
        !v.sessions.contains(id) ==> disconnect_notices(v, id, room2) == Seq::<
            (u128, Seq<char>),
        >::empty(),
        disconnect_t(disconnect_t(v, id, room), id, room2) == disconnect_t(v, id, room),
        disconnect_notices(disconnect_t(v, id, room), id, room2) == Seq::<
            (u128, Seq<char>),
        >::empty(),
{
    assert(!disconnect_t(v, id, room).sessions.contains(id));
}

/// Unknown-room law: a chat payload or a disconnect naming a room that does
/// not exist owes no delivery and leaves the room map untouched. (That the
/// coordinator survives such messages at all is carried by the operations
/// themselves: they are total, verified functions — they cannot panic.)
pub proof fn lemma_unknown_room_is_noop(v: LobbyView, id: u128, room: u128, text: Seq<char>)
    requires
        !v.rooms.contains_key(room),
    ensures
        !is_whisper(text) ==> route_deliveries(v, room, text) == Seq::<(u128, Seq<char>)>::empty(),
        disconnect_t(v, id, room).rooms == v.rooms,
        disconnect_notices(v, id, room) == Seq::<(u128, Seq<char>)>::empty(),
{
}

} // verus!
