//! What holds of the registry whatever sequence of events reaches it.

use vstd::prelude::*;
use crate::chat::message::frame_text;
use crate::chat::registry::{
    lemma_add_pending_wf, lemma_empty_wf, lemma_login_wf, lemma_terminate_wf, ClientView,
    ServerView,
};
use crate::chat::registry::ids_of;
use crate::chat::{replay_text, Broadcast};
use crate::repository::{DBError, MessageData};

verus! {

/// The end of a connection removes that connection from the room it named
/// and nobody else: the other members of the room stay, with their names,
/// and every other room and the pending pool are as they were.
pub proof fn terminate_removes_only_that_member<S>(v: ServerView<S>, id: u32, room: Seq<char>)
    requires
        v.wf(),
    ensures
        v.terminate(id, room).members(room) == v.members(room).remove(id),
        forall|other: Seq<char>|
            other != room ==> #[trigger] v.terminate(id, room).members(other) == v.members(other),
        v.terminate(id, room).connections.dom() == v.connections.dom(),
        v.terminate(id, room).init_pool == v.init_pool,
        forall|j: u32|
            v.is_member(room, j) && j != id ==> #[trigger] v.terminate(id, room).is_member(room, j)
                && v.terminate(id, room).user_names.contains_key(j) && v.terminate(
                id,
                room,
            ).user_names[j] == v.user_names[j],
        !v.terminate(id, room).is_member(room, id),
{
    let w = v.terminate(id, room);
    assert(w.members(room) =~= v.members(room).remove(id));
    assert(w.connections.dom() =~= v.connections.dom());
    assert forall|j: u32| v.is_member(room, j) && j != id implies #[trigger] w.is_member(room, j)
        && w.user_names.contains_key(j) && w.user_names[j] == v.user_names[j] by {}
}

/// A connection that ends twice is removed once: the second end changes
/// nothing.
pub proof fn terminate_is_idempotent<S>(v: ServerView<S>, id: u32, room: Seq<char>)
    ensures
        v.terminate(id, room).terminate(id, room) == v.terminate(id, room),
{
}

/// Two connections that end leave the same registry in either order.
pub proof fn terminate_commutes<S>(
    v: ServerView<S>,
    a: u32,
    room_a: Seq<char>,
    b: u32,
    room_b: Seq<char>,
)
    requires
        v.wf(),
    ensures
        v.terminate(a, room_a).terminate(b, room_b) == v.terminate(b, room_b).terminate(a, room_a),
{
    let ab = v.terminate(a, room_a).terminate(b, room_b);
    let ba = v.terminate(b, room_b).terminate(a, room_a);
    if a == b && room_a != room_b {
        if v.is_member(room_a, a) {
            assert(!v.is_member(room_b, b));
        }
    }
    assert(ab.connections =~~= ba.connections);
    assert(ab.user_names =~= ba.user_names);
}

/// A chat message goes to every other member of the room it was sent into:
/// never to its sender, never to a connection that is still pending, and
/// never to a member of another room.
pub proof fn broadcast_stays_in_room<S>(v: ServerView<S>, room: Seq<char>, sender: u32, id: u32)
    requires
        v.wf(),
    ensures
        v.recipients(room, sender).contains(id) <==> v.is_member(room, id) && id != sender,
        !v.recipients(room, sender).contains(sender),
        v.recipients(room, sender).contains(id) ==> !v.init_pool.contains_key(id),
        v.recipients(room, sender).contains(id) ==> forall|other: Seq<char>|
            other != room ==> !#[trigger] v.is_member(other, id),
{
    if v.recipients(room, sender).contains(id) {
        assert(v.is_member(room, id));
        assert forall|other: Seq<char>| other != room implies !#[trigger] v.is_member(
            other,
            id,
        ) by {
            if v.is_member(other, id) {
                assert(v.is_member(room, id));
            }
        }
    }
}

/// A login whose token the store does not hold valid, because it expired or
/// was issued for another room, makes nobody a member: every room and every
/// display name stay as they were, and the connection is no longer pending.
pub proof fn invalid_login_never_joins<S>(
    v: ServerView<S>,
    id: u32,
    room: Seq<char>,
    name: Seq<char>,
)
    requires
        v.wf(),
    ensures
        v.login(id, room, name, Ok(false)).connections == v.connections,
        v.login(id, room, name, Ok(false)).user_names == v.user_names,
        !v.login(id, room, name, Ok(false)).init_pool.contains_key(id),
        v.init_pool.contains_key(id) ==> !v.login(id, room, name, Ok(false)).joined(id),
{
    let w = v.login(id, room, name, Ok(false));
    if v.init_pool.contains_key(id) && w.joined(id) {
        let r = choose|r: Seq<char>| w.is_member(r, id);
        assert(v.is_member(r, id));
    }
}

/// A login whose token the store could not check changes nothing.
pub proof fn failed_validation_changes_nothing<S>(
    v: ServerView<S>,
    id: u32,
    room: Seq<char>,
    name: Seq<char>,
    error: DBError,
)
    ensures
        v.login(id, room, name, Err(error)) == v,
{
}

/// A pending connection that logs in with a valid token joins the room it
/// named, and only that room, under the name it gave; it keeps its record
/// but for the room name, leaves the pending pool, and everybody who was a
/// member of some room still is.
pub proof fn valid_login_joins<S>(v: ServerView<S>, id: u32, room: Seq<char>, name: Seq<char>)
    requires
        v.wf(),
        v.init_pool.contains_key(id),
    ensures
        v.login(id, room, name, Ok(true)).is_member(room, id),
        v.login(id, room, name, Ok(true)).connections[room][id] == (ClientView {
            room_name: room,
            ..v.init_pool[id]
        }),
        v.login(id, room, name, Ok(true)).user_names[id] == name,
        !v.login(id, room, name, Ok(true)).init_pool.contains_key(id),
        forall|other: Seq<char>|
            other != room ==> !#[trigger] v.login(id, room, name, Ok(true)).is_member(other, id),
        forall|r: Seq<char>, j: u32| #[trigger]
            v.is_member(r, j) ==> v.login(id, room, name, Ok(true)).is_member(r, j) && v.login(
                id,
                room,
                name,
                Ok(true),
            ).connections[r][j] == v.connections[r][j],
{
    let w = v.login(id, room, name, Ok(true));
    lemma_login_wf(v, id, room, name, Ok(true));
    assert(w.is_member(room, id));
    assert forall|other: Seq<char>| other != room implies !#[trigger] w.is_member(other, id) by {
        if w.is_member(other, id) {
            assert(w.is_member(room, id));
        }
    }
    assert forall|r: Seq<char>, j: u32| #[trigger] v.is_member(r, j) implies w.is_member(r, j)
        && w.connections[r][j] == v.connections[r][j] by {
        assert(v.user_names.contains_key(j));
    }
}

/// A connection that logs in and then ends leaves the room's other members
/// and every display name as they were before it came.
pub proof fn login_then_terminate_leaves_no_trace<S>(
    v: ServerView<S>,
    id: u32,
    room: Seq<char>,
    name: Seq<char>,
)
    requires
        v.wf(),
        v.init_pool.contains_key(id),
    ensures
        v.login(id, room, name, Ok(true)).terminate(id, room).members(room) == v.members(room),
        v.login(id, room, name, Ok(true)).terminate(id, room).user_names == v.user_names,
        forall|other: Seq<char>|
            other != room ==> #[trigger] v.login(id, room, name, Ok(true)).terminate(
                id,
                room,
            ).members(other) == v.members(other),
{
    let w = v.login(id, room, name, Ok(true)).terminate(id, room);
    assert(!v.user_names.contains_key(id));
    assert(!v.is_member(room, id));
    assert(w.members(room) =~= v.members(room));
    assert(w.user_names =~= v.user_names);
}

/// Replay keeps the store's order: the replay of one page followed by
/// another is the replay of the first followed by the replay of the second.
pub proof fn replay_keeps_order(first: Seq<MessageData>, second: Seq<MessageData>)
    ensures
        replay_text(first + second) == replay_text(first) + replay_text(second),
{
    assert(replay_text(first + second) =~= replay_text(first) + replay_text(second));
}

/// The replay has one frame per message of the page, at the message's own
/// place: none is added, dropped, merged or moved.
pub proof fn replay_is_one_frame_per_message(history: Seq<MessageData>)
    ensures
        replay_text(history).len() == history.len(),
        forall|i: int|
            0 <= i < history.len() ==> #[trigger] replay_text(history)[i] == frame_text(
                history[i].user_name@,
                history[i].message@,
            ),
{
}

/// A fan-out reaches each other member of the room exactly once, with the
/// frame of the sender's name and text: a connection is among the recipients
/// if and only if it is a member of the room and not the sender, and no
/// connection is among them twice.
pub proof fn fan_out_reaches_each_other_member_once<S>(
    plan: Broadcast<S>,
    v: ServerView<S>,
    room: Seq<char>,
    sender: u32,
    user_name: Seq<char>,
    text: Seq<char>,
)
    requires
        v.wf(),
        plan.delivers(v, room, sender, user_name, text),
    ensures
        plan.frame@ == frame_text(user_name, text),
        forall|id: u32|
            (v.is_member(room, id) && id != sender) <==> exists|i: int|
                0 <= i < plan.recipients@.len() && (#[trigger] plan.recipients@[i]).connection_id
                    == id,
        forall|i: int, j: int|
            0 <= i < plan.recipients@.len() && 0 <= j < plan.recipients@.len() && (
            #[trigger] plan.recipients@[i]).connection_id == (
            #[trigger] plan.recipients@[j]).connection_id ==> i == j,
        forall|i: int|
            0 <= i < plan.recipients@.len() ==> !v.init_pool.contains_key(
                (#[trigger] plan.recipients@[i]).connection_id,
            ),
{
    let ids = ids_of(plan.recipients@);
    assert forall|id: u32| (v.is_member(room, id) && id != sender) <==> exists|i: int|
        0 <= i < plan.recipients@.len() && (#[trigger] plan.recipients@[i]).connection_id
            == id by {
        if v.is_member(room, id) && id != sender {
            assert(v.recipients(room, sender).contains(id));
            assert(ids.to_set().contains(id));
            assert(ids.contains(id));
            let i = choose|i: int| 0 <= i < ids.len() && ids[i] == id;
            assert(plan.recipients@[i].connection_id == id);
        }
        if exists|i: int|
            0 <= i < plan.recipients@.len() && (#[trigger] plan.recipients@[i]).connection_id
                == id {
            let i = choose|i: int|
                0 <= i < plan.recipients@.len() && (#[trigger] plan.recipients@[i]).connection_id
                    == id;
            assert(ids[i] == id);
            assert(ids.contains(id));
            assert(ids.to_set().contains(id));
        }
    }
    assert forall|i: int, j: int|
        0 <= i < plan.recipients@.len() && 0 <= j < plan.recipients@.len() && (
        #[trigger] plan.recipients@[i]).connection_id == (
        #[trigger] plan.recipients@[j]).connection_id implies i == j by {
        assert(ids[i] == ids[j]);
    }
    assert forall|i: int| 0 <= i < plan.recipients@.len() implies !v.init_pool.contains_key(
        (#[trigger] plan.recipients@[i]).connection_id,
    ) by {
        assert(ids[i] == plan.recipients@[i].connection_id);
        assert(ids.contains(ids[i]));
        assert(ids.to_set().contains(ids[i]));
        assert(v.is_member(room, ids[i]));
    }
}

/// The tokens a store holds valid, each with the room it was issued for.
pub type Tokens = Set<(Seq<char>, Seq<char>)>;

/// What a token store that keeps its word says of a token presented for a
/// room.
pub open spec fn says(tokens: Tokens, token: Seq<char>, room: Seq<char>) -> Result<bool, DBError> {
    Ok(tokens.contains((token, room)))
}

/// The valid tokens after one that was presented for a room was deleted.
pub open spec fn spent(tokens: Tokens, token: Seq<char>, room: Seq<char>) -> Tokens {
    tokens.remove((token, room))
}

/// A token is good for one login. Against a token store that keeps its word
/// and deletes what it is asked to delete, of two logins in a row that
/// present the same token for the same room the second never joins: it
/// changes no room and no display name.
pub proof fn token_is_single_use<S>(
    v: ServerView<S>,
    tokens: Tokens,
    token: Seq<char>,
    room: Seq<char>,
    first: u32,
    first_name: Seq<char>,
    second: u32,
    second_name: Seq<char>,
)
    requires
        v.wf(),
    ensures
        says(spent(tokens, token, room), token, room) == Ok::<bool, DBError>(false),
        ({
            let once = v.login(first, room, first_name, says(tokens, token, room));
            let twice = once.login(
                second,
                room,
                second_name,
                says(spent(tokens, token, room), token, room),
            );
            twice.connections == once.connections && twice.user_names == once.user_names
        }),
{
}

/// One thing that happens to the registry: the registrar files a new
/// connection, or the dispatcher applies a login, with what the token store
/// said of its token, or the end of a connection.
pub enum Step<S> {
    Register { client: ClientView<S> },
    Login { id: u32, room: Seq<char>, name: Seq<char>, validity: Result<bool, DBError> },
    Terminate { id: u32, room: Seq<char> },
}

/// The registry after one step.
pub open spec fn after<S>(v: ServerView<S>, step: Step<S>) -> ServerView<S> {
    match step {
        Step::Register { client } => v.add_pending(client),
        Step::Login { id, room, name, validity } => v.login(id, room, name, validity),
        Step::Terminate { id, room } => v.terminate(id, room),
    }
}

/// The registry after a sequence of steps, applied in order.
pub open spec fn after_all<S>(v: ServerView<S>, steps: Seq<Step<S>>) -> ServerView<S>
    decreases steps.len(),
{
    if steps.len() == 0 {
        v
    } else {
        after(after_all(v, steps.drop_last()), steps.last())
    }
}

/// Whatever happens, in whatever order, the registry stays well formed: no
/// connection is ever in two places, and the members are exactly the
/// connections with a display name.
pub proof fn every_reachable_registry_is_well_formed<S>(steps: Seq<Step<S>>)
    ensures
        after_all(ServerView::<S>::empty(), steps).wf(),
    decreases steps.len(),
{
    if steps.len() == 0 {
        lemma_empty_wf::<S>();
    } else {
        every_reachable_registry_is_well_formed(steps.drop_last());
        let v = after_all(ServerView::<S>::empty(), steps.drop_last());
        match steps.last() {
            Step::Register { client } => lemma_add_pending_wf(v, client),
            Step::Login { id, room, name, validity } => lemma_login_wf(
                v,
                id,
                room,
                name,
                validity,
            ),
            Step::Terminate { id, room } => lemma_terminate_wf(v, id, room),
        }
    }
}

/// The registry after a sequence of connections ended, each naming a room.
pub open spec fn ended<S>(v: ServerView<S>, ends: Seq<(u32, Seq<char>)>) -> ServerView<S>
    decreases ends.len(),
{
    if ends.len() == 0 {
        v
    } else {
        ended(v, ends.drop_last()).terminate(ends.last().0, ends.last().1)
    }
}

/// The connections that ended naming `room`.
pub open spec fn enders(ends: Seq<(u32, Seq<char>)>, room: Seq<char>) -> Set<u32> {
    Set::new(|id: u32| ends.contains((id, room)))
}

/// However many connections end, and in whatever order, a room loses
/// exactly the members that ended naming it: the room's members afterwards
/// depend on which connections ended there, not on when. The pending pool
/// is untouched.
pub proof fn ends_remove_exactly_their_members<S>(
    v: ServerView<S>,
    ends: Seq<(u32, Seq<char>)>,
    room: Seq<char>,
)
    requires
        v.wf(),
    ensures
        ended(v, ends).wf(),
        ended(v, ends).members(room) == v.members(room).remove_keys(enders(ends, room)),
        ended(v, ends).init_pool == v.init_pool,
    decreases ends.len(),
{
    if ends.len() == 0 {
        assert(enders(ends, room) =~= Set::<u32>::empty());
        assert(v.members(room).remove_keys(enders(ends, room)) =~= v.members(room));
    } else {
        let earlier = ends.drop_last();
        let (id, named) = ends.last();
        ends_remove_exactly_their_members(v, earlier, room);
        let w = ended(v, earlier);
        lemma_terminate_wf(w, id, named);
        terminate_removes_only_that_member(w, id, named);
        assert forall|k: u32| enders(ends, room).contains(k) <==> (enders(earlier, room).contains(
            k,
        ) || (k == id && named == room)) by {
            if enders(ends, room).contains(k) {
                let i = choose|i: int| 0 <= i < ends.len() && ends[i] == (k, room);
                if i < earlier.len() {
                    assert(earlier[i] == (k, room));
                }
            }
            if enders(earlier, room).contains(k) {
                let i = choose|i: int| 0 <= i < earlier.len() && earlier[i] == (k, room);
                assert(ends[i] == (k, room));
            }
            if k == id && named == room {
                assert(ends[ends.len() - 1] == (k, room));
            }
        }
        if named == room {
            assert(enders(ends, room) =~= enders(earlier, room).insert(id));
            assert(w.members(room).remove(id) =~= v.members(room).remove_keys(
                enders(ends, room),
            ));
        } else {
            assert(enders(ends, room) =~= enders(earlier, room));
        }
    }
}

} // verus!
