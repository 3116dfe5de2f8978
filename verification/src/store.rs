//! The entity store: the relational rows, their invariants, and the write
//! pipeline (profile, follow, message and response creation).
//!
//! Writes that span two rows (a message plus its broadcast or response link)
//! are atomic: either both rows are appended, or the store is left exactly as
//! it was.

use vstd::prelude::*;

use crate::colview::{clone_opt_bytes, clone_opt_string, opt_bytes_view, opt_id_view, opt_str_view};
use crate::follow::{Follow, FollowView};
use crate::message::{
    MessageBroadcast, MessageBroadcastView, MessageQueryResult, MessageResponse,
    MessageResponseView, MessageView,
};
use crate::profile::{ProfileQueryResult, ProfileView};

verus! {

/// The id of a freshly inserted row.
#[derive(Clone, Copy, PartialEq, Eq, Structural, Debug)]
pub struct EntityId {
    pub id: i64,
}

/// Why a write was refused. `MissingReference` plays the part of a
/// foreign-key violation: a row named another row that does not exist.
/// `CapacityExhausted` means the id sequence or the row clock has no room
/// left for another insert.
#[derive(Clone, Copy, PartialEq, Eq, Structural, Debug)]
pub enum StoreError {
    MissingReference,
    CapacityExhausted,
}

/// Mathematical state of the entity store.
pub ghost struct StoreView {
    pub profiles: Seq<ProfileView>,
    pub messages: Seq<MessageView>,
    pub follows: Seq<FollowView>,
    pub broadcasts: Seq<MessageBroadcastView>,
    pub responses: Seq<MessageResponseView>,
    pub next_id: int,
    pub clock: int,
}

/// There is a profile row with this id.
pub open spec fn has_profile(ps: Seq<ProfileView>, id: int) -> bool {
    exists|j: int| 0 <= j < ps.len() && (#[trigger] ps[j]).id == id
}

/// The profile row with this id, when there is one. Deterministic whenever
/// profile ids are unique, as the store invariant guarantees.
pub open spec fn profile_by_id(ps: Seq<ProfileView>, id: int) -> Option<ProfileView> {
    if has_profile(ps, id) {
        Some(ps[choose|j: int| 0 <= j < ps.len() && (#[trigger] ps[j]).id == id])
    } else {
        None
    }
}

/// There is a message row with this id.
pub open spec fn has_message(ms: Seq<MessageView>, id: int) -> bool {
    exists|j: int| 0 <= j < ms.len() && (#[trigger] ms[j]).id == id
}

/// The message row with this id, when there is one.
pub open spec fn message_by_id(ms: Seq<MessageView>, id: int) -> Option<MessageView> {
    if has_message(ms, id) {
        Some(ms[choose|j: int| 0 <= j < ms.len() && (#[trigger] ms[j]).id == id])
    } else {
        None
    }
}

/// The viewer follows this author.
pub open spec fn has_follow(fs: Seq<FollowView>, follower: int, following: int) -> bool {
    exists|j: int|
        0 <= j < fs.len() && (#[trigger] fs[j]).follower_id == follower
            && fs[j].following_id == following
}

/// There is a broadcast link row whose main message is this one.
pub open spec fn has_broadcast_for_main(bs: Seq<MessageBroadcastView>, main_id: int) -> bool {
    exists|j: int| 0 <= j < bs.len() && (#[trigger] bs[j]).main_msg_id == main_id
}

/// The broadcast link row whose main message is this one, when there is one.
/// Deterministic whenever each message has at most one outgoing link, as the
/// store invariant guarantees.
pub open spec fn broadcast_by_main(bs: Seq<MessageBroadcastView>, main_id: int) -> Option<
    MessageBroadcastView,
> {
    if has_broadcast_for_main(bs, main_id) {
        Some(bs[choose|j: int| 0 <= j < bs.len() && (#[trigger] bs[j]).main_msg_id == main_id])
    } else {
        None
    }
}

/// There is a broadcast link row with this id.
pub open spec fn has_broadcast(bs: Seq<MessageBroadcastView>, id: int) -> bool {
    exists|j: int| 0 <= j < bs.len() && (#[trigger] bs[j]).id == id
}

/// The broadcast link row with this id, when there is one.
pub open spec fn broadcast_by_id(bs: Seq<MessageBroadcastView>, id: int) -> Option<
    MessageBroadcastView,
> {
    if has_broadcast(bs, id) {
        Some(bs[choose|j: int| 0 <= j < bs.len() && (#[trigger] bs[j]).id == id])
    } else {
        None
    }
}

/// Invariants of the profile table: fresh bounded ids, unique ids, rows
/// stamped before the clock.
pub open spec fn profiles_wf(s: StoreView) -> bool {
    &&& forall|i: int|
        0 <= i < s.profiles.len() ==> 0 < (#[trigger] s.profiles[i]).id < s.next_id
    &&& forall|i: int, j: int|
        0 <= i < j < s.profiles.len() ==> (#[trigger] s.profiles[i]).id != (
        #[trigger] s.profiles[j]).id
    &&& forall|i: int| 0 <= i < s.profiles.len() ==> (#[trigger] s.profiles[i]).updated_at < s.clock
}

/// Invariants of the message table: fresh bounded unique ids, an author that
/// exists, and rows strictly ordered by `updated_at` — the store's clock
/// ticks on every insert, so later rows are strictly newer.
pub open spec fn messages_wf(s: StoreView) -> bool {
    &&& forall|i: int|
        0 <= i < s.messages.len() ==> 0 < (#[trigger] s.messages[i]).id < s.next_id
    &&& forall|i: int, j: int|
        0 <= i < j < s.messages.len() ==> (#[trigger] s.messages[i]).id != (
        #[trigger] s.messages[j]).id
    &&& forall|i: int, j: int|
        0 <= i < j < s.messages.len() ==> (#[trigger] s.messages[i]).updated_at < (
        #[trigger] s.messages[j]).updated_at
    &&& forall|i: int| 0 <= i < s.messages.len() ==> (#[trigger] s.messages[i]).updated_at < s.clock
    &&& forall|i: int|
        0 <= i < s.messages.len() ==> has_profile(s.profiles, (#[trigger] s.messages[i]).user_id)
}

/// Invariants of the follow table: fresh bounded ids and endpoints that
/// exist.
pub open spec fn follows_wf(s: StoreView) -> bool {
    &&& forall|i: int| 0 <= i < s.follows.len() ==> 0 < (#[trigger] s.follows[i]).id < s.next_id
    &&& forall|i: int|
        0 <= i < s.follows.len() ==> has_profile(s.profiles, (#[trigger] s.follows[i]).follower_id)
    &&& forall|i: int|
        0 <= i < s.follows.len() ==> has_profile(s.profiles, (#[trigger] s.follows[i]).following_id)
}

/// Invariants of the broadcast link table: fresh bounded unique ids, at most
/// one outgoing link per main message, and both endpoints existing.
pub open spec fn broadcasts_wf(s: StoreView) -> bool {
    &&& forall|i: int|
        0 <= i < s.broadcasts.len() ==> 0 < (#[trigger] s.broadcasts[i]).id < s.next_id
    &&& forall|i: int, j: int|
        0 <= i < j < s.broadcasts.len() ==> (#[trigger] s.broadcasts[i]).id != (
        #[trigger] s.broadcasts[j]).id
    &&& forall|i: int, j: int|
        0 <= i < j < s.broadcasts.len() ==> (#[trigger] s.broadcasts[i]).main_msg_id != (
        #[trigger] s.broadcasts[j]).main_msg_id
    &&& forall|i: int|
        0 <= i < s.broadcasts.len() ==> has_message(
            s.messages,
            (#[trigger] s.broadcasts[i]).main_msg_id,
        )
    &&& forall|i: int|
        0 <= i < s.broadcasts.len() ==> has_message(
            s.messages,
            (#[trigger] s.broadcasts[i]).broadcasting_msg_id,
        )
}

/// Invariants of the response link table: fresh bounded ids and both
/// endpoints existing.
pub open spec fn responses_wf(s: StoreView) -> bool {
    &&& forall|i: int| 0 <= i < s.responses.len() ==> 0 < (#[trigger] s.responses[i]).id < s.next_id
    &&& forall|i: int|
        0 <= i < s.responses.len() ==> has_message(
            s.messages,
            (#[trigger] s.responses[i]).original_msg_id,
        )
    &&& forall|i: int|
        0 <= i < s.responses.len() ==> has_message(
            s.messages,
            (#[trigger] s.responses[i]).responding_msg_id,
        )
}

/// The store invariant: every table is well formed.
pub open spec fn store_wf(s: StoreView) -> bool {
    &&& s.next_id >= 1
    &&& s.clock >= 0
    &&& profiles_wf(s)
    &&& messages_wf(s)
    &&& follows_wf(s)
    &&& broadcasts_wf(s)
    &&& responses_wf(s)
}

/// The id sequence and the clock can serve `k` more ids in one insert.
pub open spec fn room_for(s: StoreView, k: int) -> bool {
    s.next_id + k <= i64::MAX && s.clock + 1 <= i64::MAX
}

/// The in-memory entity store. One id sequence serves every table, and a
/// logical clock stamps each inserted row, so `updated_at` strictly increases
/// across inserts.
pub struct EntityStore {
    pub profiles: Vec<ProfileQueryResult>,
    pub messages: Vec<MessageQueryResult>,
    pub follows: Vec<Follow>,
    pub message_broadcasts: Vec<MessageBroadcast>,
    pub message_responses: Vec<MessageResponse>,
    pub next_id: i64,
    pub clock: i64,
}

impl View for EntityStore {
    type V = StoreView;

    open spec fn view(&self) -> StoreView {
        StoreView {
            profiles: self.profiles@.map_values(|p: ProfileQueryResult| p@),
            messages: self.messages@.map_values(|m: MessageQueryResult| m@),
            follows: self.follows@.map_values(|f: Follow| f@),
            broadcasts: self.message_broadcasts@.map_values(|b: MessageBroadcast| b@),
            responses: self.message_responses@.map_values(|r: MessageResponse| r@),
            next_id: self.next_id as int,
            clock: self.clock as int,
        }
    }
}

/// An empty store whose id sequence starts at `first_id`.
pub open spec fn empty_store(first_id: int) -> StoreView {
    StoreView {
        profiles: Seq::empty(),
        messages: Seq::empty(),
        follows: Seq::empty(),
        broadcasts: Seq::empty(),
        responses: Seq::empty(),
        next_id: first_id,
        clock: 0,
    }
}

/// The store after a profile insert: one profile row appended, stamped with
/// the clock, and the counters advanced.
pub open spec fn after_insert_profile(
    s: StoreView,
    user_name: Seq<char>,
    full_name: Seq<char>,
    description: Seq<char>,
    region: Option<Seq<char>>,
    main_url: Option<Seq<char>>,
    avatar: Option<Seq<u8>>,
) -> StoreView {
    StoreView {
        profiles: s.profiles.push(
            ProfileView {
                id: s.next_id,
                created_at: s.clock,
                updated_at: s.clock,
                user_name,
                full_name,
                description,
                region,
                main_url,
                avatar,
            },
        ),
        next_id: s.next_id + 1,
        clock: s.clock + 1,
        ..s
    }
}

/// The store after a follow insert: one follow edge appended and the
/// counters advanced.
pub open spec fn after_insert_follow(s: StoreView, follower_id: int, following_id: int) -> StoreView {
    StoreView {
        follows: s.follows.push(
            FollowView {
                id: s.next_id,
                created_at: s.clock,
                updated_at: s.clock,
                follower_id,
                following_id,
            },
        ),
        next_id: s.next_id + 1,
        clock: s.clock + 1,
        ..s
    }
}

/// The message row a message insert appends.
pub open spec fn new_message_row(s: StoreView, user_id: int, body: Seq<char>) -> MessageView {
    MessageView {
        id: s.next_id,
        created_at: s.clock,
        updated_at: s.clock,
        user_id,
        body: Some(body),
        image: None,
        likes: 0,
    }
}

/// The store after a message insert: the message row appended and, when a
/// broadcast target was named, the link row appended in the same unit of
/// work.
pub open spec fn after_insert_message(
    s: StoreView,
    user_id: int,
    body: Seq<char>,
    broadcasting_msg_id: Option<int>,
) -> StoreView {
    match broadcasting_msg_id {
        None => StoreView {
            messages: s.messages.push(new_message_row(s, user_id, body)),
            next_id: s.next_id + 1,
            clock: s.clock + 1,
            ..s
        },
        Some(target) => StoreView {
            messages: s.messages.push(new_message_row(s, user_id, body)),
            broadcasts: s.broadcasts.push(
                MessageBroadcastView {
                    id: s.next_id + 1,
                    main_msg_id: s.next_id,
                    broadcasting_msg_id: target,
                },
            ),
            next_id: s.next_id + 2,
            clock: s.clock + 1,
            ..s
        },
    }
}

/// The store after a response insert: the message row and its response link
/// appended in the same unit of work.
pub open spec fn after_insert_response(
    s: StoreView,
    user_id: int,
    body: Seq<char>,
    original_msg_id: int,
) -> StoreView {
    StoreView {
        messages: s.messages.push(new_message_row(s, user_id, body)),
        responses: s.responses.push(
            MessageResponseView {
                id: s.next_id + 1,
                original_msg_id,
                responding_msg_id: s.next_id,
            },
        ),
        next_id: s.next_id + 2,
        clock: s.clock + 1,
        ..s
    }
}

/// Both rows a message insert names exist: the author's profile and, when a
/// broadcast target was named, the target message.
pub open spec fn message_refs_ok(s: StoreView, user_id: int, broadcasting_msg_id: Option<int>) -> bool {
    &&& has_profile(s.profiles, user_id)
    &&& (broadcasting_msg_id matches Some(t) ==> has_message(s.messages, t))
}

/// How many ids a message insert consumes.
pub open spec fn ids_needed(broadcasting_msg_id: Option<int>) -> int {
    if broadcasting_msg_id is Some {
        2
    } else {
        1
    }
}

/// A message insert succeeds exactly when its references exist and the
/// counters have room.
pub open spec fn can_insert_message(
    s: StoreView,
    user_id: int,
    broadcasting_msg_id: Option<int>,
) -> bool {
    message_refs_ok(s, user_id, broadcasting_msg_id) && room_for(s, ids_needed(broadcasting_msg_id))
}

/// Both rows a response insert names exist.
pub open spec fn response_refs_ok(s: StoreView, user_id: int, original_msg_id: int) -> bool {
    has_profile(s.profiles, user_id) && has_message(s.messages, original_msg_id)
}

/// A response insert succeeds exactly when its references exist and the
/// counters have room.
pub open spec fn can_insert_response(s: StoreView, user_id: int, original_msg_id: int) -> bool {
    response_refs_ok(s, user_id, original_msg_id) && room_for(s, 2)
}

/// The follow edges with this follower, in store order.
pub open spec fn follows_of(fs: Seq<FollowView>, follower: int) -> Seq<FollowView>
    decreases fs.len(),
{
    if fs.len() == 0 {
        Seq::empty()
    } else {
        follows_of(fs.drop_last(), follower) + (if fs.last().follower_id == follower {
            seq![fs.last()]
        } else {
            Seq::empty()
        })
    }
}

pub(crate) proof fn lemma_map_values_push<A, B>(s: Seq<A>, f: spec_fn(A) -> B, x: A)
    ensures
        s.push(x).map_values(f) == s.map_values(f).push(f(x)),
{
    assert(s.push(x).map_values(f) =~= s.map_values(f).push(f(x)));
}

/// Pushing rows never removes a profile: existence is preserved.
proof fn lemma_has_profile_push(ps: Seq<ProfileView>, p: ProfileView, id: int)
    requires
        has_profile(ps, id),
    ensures
        has_profile(ps.push(p), id),
{
    let j = choose|j: int| 0 <= j < ps.len() && (#[trigger] ps[j]).id == id;
    assert(ps.push(p)[j].id == id);
}

/// Pushing rows never removes a message: existence is preserved.
proof fn lemma_has_message_push(ms: Seq<MessageView>, m: MessageView, id: int)
    requires
        has_message(ms, id),
    ensures
        has_message(ms.push(m), id),
{
    let j = choose|j: int| 0 <= j < ms.len() && (#[trigger] ms[j]).id == id;
    assert(ms.push(m)[j].id == id);
}

/// A profile insert preserves the store invariant.
pub proof fn lemma_after_insert_profile_wf(
    s: StoreView,
    user_name: Seq<char>,
    full_name: Seq<char>,
    description: Seq<char>,
    region: Option<Seq<char>>,
    main_url: Option<Seq<char>>,
    avatar: Option<Seq<u8>>,
)
    requires
        store_wf(s),
    ensures
        store_wf(after_insert_profile(s, user_name, full_name, description, region, main_url, avatar)),
{
    let s2 = after_insert_profile(s, user_name, full_name, description, region, main_url, avatar);
    assert forall|i: int|
        0 <= i < s2.messages.len() implies has_profile(
        s2.profiles,
        (#[trigger] s2.messages[i]).user_id,
    ) by {
        lemma_has_profile_push(s.profiles, s2.profiles.last(), s.messages[i].user_id);
    }
    assert forall|i: int|
        0 <= i < s2.follows.len() implies has_profile(
        s2.profiles,
        (#[trigger] s2.follows[i]).follower_id,
    ) by {
        lemma_has_profile_push(s.profiles, s2.profiles.last(), s.follows[i].follower_id);
    }
    assert forall|i: int|
        0 <= i < s2.follows.len() implies has_profile(
        s2.profiles,
        (#[trigger] s2.follows[i]).following_id,
    ) by {
        lemma_has_profile_push(s.profiles, s2.profiles.last(), s.follows[i].following_id);
    }
}

/// A follow insert preserves the store invariant.
pub proof fn lemma_after_insert_follow_wf(s: StoreView, follower_id: int, following_id: int)
    requires
        store_wf(s),
        has_profile(s.profiles, follower_id),
        has_profile(s.profiles, following_id),
    ensures
        store_wf(after_insert_follow(s, follower_id, following_id)),
{
}

/// A message insert preserves the store invariant.
pub proof fn lemma_after_insert_message_wf(
    s: StoreView,
    user_id: int,
    body: Seq<char>,
    broadcasting_msg_id: Option<int>,
)
    requires
        store_wf(s),
        message_refs_ok(s, user_id, broadcasting_msg_id),
    ensures
        store_wf(after_insert_message(s, user_id, body, broadcasting_msg_id)),
{
    let s2 = after_insert_message(s, user_id, body, broadcasting_msg_id);
    let msg = new_message_row(s, user_id, body);
    assert forall|i: int|
        0 <= i < s2.messages.len() implies has_profile(
        s2.profiles,
        (#[trigger] s2.messages[i]).user_id,
    ) by {
        if i < s.messages.len() {
            assert(has_profile(s.profiles, s.messages[i].user_id));
        } else {
            assert(s2.messages[i] == msg);
        }
    }
    assert forall|i: int|
        0 <= i < s2.broadcasts.len() implies has_message(
        s2.messages,
        (#[trigger] s2.broadcasts[i]).main_msg_id,
    ) by {
        if i < s.broadcasts.len() {
            lemma_has_message_push(s.messages, msg, s.broadcasts[i].main_msg_id);
        } else {
            assert(s2.broadcasts[i].main_msg_id == msg.id);
            assert(s2.messages[s.messages.len() as int] == msg);
        }
    }
    assert forall|i: int|
        0 <= i < s2.broadcasts.len() implies has_message(
        s2.messages,
        (#[trigger] s2.broadcasts[i]).broadcasting_msg_id,
    ) by {
        if i < s.broadcasts.len() {
            lemma_has_message_push(s.messages, msg, s.broadcasts[i].broadcasting_msg_id);
        } else {
            let t = broadcasting_msg_id->0;
            lemma_has_message_push(s.messages, msg, t);
        }
    }
    assert forall|i: int|
        0 <= i < s2.responses.len() implies has_message(
        s2.messages,
        (#[trigger] s2.responses[i]).original_msg_id,
    ) by {
        lemma_has_message_push(s.messages, msg, s.responses[i].original_msg_id);
    }
    assert forall|i: int|
        0 <= i < s2.responses.len() implies has_message(
        s2.messages,
        (#[trigger] s2.responses[i]).responding_msg_id,
    ) by {
        lemma_has_message_push(s.messages, msg, s.responses[i].responding_msg_id);
    }
    if broadcasting_msg_id is Some {
        assert forall|i: int, j: int|
            0 <= i < j < s2.broadcasts.len() implies (#[trigger] s2.broadcasts[i]).main_msg_id != (
            #[trigger] s2.broadcasts[j]).main_msg_id by {
            if j == s.broadcasts.len() {
                let old_main = s.broadcasts[i].main_msg_id;
                let k = choose|k: int|
                    0 <= k < s.messages.len() && (#[trigger] s.messages[k]).id == old_main;
                assert(s.messages[k].id < s.next_id);
            }
        }
    }
}

/// A response insert preserves the store invariant.
pub proof fn lemma_after_insert_response_wf(
    s: StoreView,
    user_id: int,
    body: Seq<char>,
    original_msg_id: int,
)
    requires
        store_wf(s),
        response_refs_ok(s, user_id, original_msg_id),
    ensures
        store_wf(after_insert_response(s, user_id, body, original_msg_id)),
{
    let s2 = after_insert_response(s, user_id, body, original_msg_id);
    let msg = new_message_row(s, user_id, body);
    assert forall|i: int|
        0 <= i < s2.messages.len() implies has_profile(
        s2.profiles,
        (#[trigger] s2.messages[i]).user_id,
    ) by {
        if i < s.messages.len() {
            assert(has_profile(s.profiles, s.messages[i].user_id));
        } else {
            assert(s2.messages[i] == msg);
        }
    }
    assert forall|i: int|
        0 <= i < s2.broadcasts.len() implies has_message(
        s2.messages,
        (#[trigger] s2.broadcasts[i]).main_msg_id,
    ) by {
        lemma_has_message_push(s.messages, msg, s.broadcasts[i].main_msg_id);
    }
    assert forall|i: int|
        0 <= i < s2.broadcasts.len() implies has_message(
        s2.messages,
        (#[trigger] s2.broadcasts[i]).broadcasting_msg_id,
    ) by {
        lemma_has_message_push(s.messages, msg, s.broadcasts[i].broadcasting_msg_id);
    }
    assert forall|i: int|
        0 <= i < s2.responses.len() implies has_message(
        s2.messages,
        (#[trigger] s2.responses[i]).original_msg_id,
    ) by {
        if i < s.responses.len() {
            lemma_has_message_push(s.messages, msg, s.responses[i].original_msg_id);
        } else {
            lemma_has_message_push(s.messages, msg, original_msg_id);
        }
    }
    assert forall|i: int|
        0 <= i < s2.responses.len() implies has_message(
        s2.messages,
        (#[trigger] s2.responses[i]).responding_msg_id,
    ) by {
        if i < s.responses.len() {
            lemma_has_message_push(s.messages, msg, s.responses[i].responding_msg_id);
        } else {
            assert(s2.messages[s.messages.len() as int] == msg);
        }
    }
}

impl EntityStore {
    /// The store invariant, at the executable type.
    pub open spec fn wf(&self) -> bool {
        store_wf(self@)
    }

    /// An empty store whose id sequence starts at 1.
    pub fn new() -> (r: EntityStore)
        ensures
            r.wf(),
            r@ == empty_store(1),
    {
        EntityStore::with_first_id(1)
    }

    /// An empty store whose id sequence starts at `first_id`, as a relational
    /// store's sequences may.
    pub fn with_first_id(first_id: i64) -> (r: EntityStore)
        requires
            first_id >= 1,
        ensures
            r.wf(),
            r@ == empty_store(first_id as int),
    {
        let r = EntityStore {
            profiles: Vec::new(),
            messages: Vec::new(),
            follows: Vec::new(),
            message_broadcasts: Vec::new(),
            message_responses: Vec::new(),
            next_id: first_id,
            clock: 0,
        };
        proof {
            assert(r@.profiles =~= empty_store(first_id as int).profiles);
            assert(r@.messages =~= empty_store(first_id as int).messages);
            assert(r@.follows =~= empty_store(first_id as int).follows);
            assert(r@.broadcasts =~= empty_store(first_id as int).broadcasts);
            assert(r@.responses =~= empty_store(first_id as int).responses);
        }
        r
    }

    /// Whether a profile row with this id exists.
    pub fn profile_exists(&self, id: i64) -> (r: bool)
        ensures
            r == has_profile(self@.profiles, id as int),
    {
        let mut i: usize = 0;
        while i < self.profiles.len()
            invariant
                i <= self.profiles.len(),
                forall|j: int| 0 <= j < i ==> (#[trigger] self@.profiles[j]).id != id as int,
            decreases self.profiles.len() - i,
        {
            if self.profiles[i].id == id {
                assert(self@.profiles[i as int].id == id as int);
                return true;
            }
            i = i + 1;
        }
        false
    }

    /// Whether a message row with this id exists.
    pub fn message_exists(&self, id: i64) -> (r: bool)
        ensures
            r == has_message(self@.messages, id as int),
    {
        let mut i: usize = 0;
        while i < self.messages.len()
            invariant
                i <= self.messages.len(),
                forall|j: int| 0 <= j < i ==> (#[trigger] self@.messages[j]).id != id as int,
            decreases self.messages.len() - i,
        {
            if self.messages[i].id == id {
                assert(self@.messages[i as int].id == id as int);
                return true;
            }
            i = i + 1;
        }
        false
    }

    /// Inserts a profile row. Succeeds exactly when the counters have room,
    /// returning the fresh id; a refused insert leaves the store untouched.
    pub fn insert_profile(
        &mut self,
        user_name: String,
        full_name: String,
        description: String,
        region: Option<String>,
        main_url: Option<String>,
        avatar: Option<Vec<u8>>,
    ) -> (r: Result<EntityId, StoreError>)
        requires
            old(self).wf(),
        ensures
            final(self).wf(),
            r is Ok <==> room_for(old(self)@, 1),
            r matches Ok(e) ==> e == (EntityId { id: old(self).next_id }) && final(self)@
                == after_insert_profile(
                old(self)@,
                user_name@,
                full_name@,
                description@,
                opt_str_view(region),
                opt_str_view(main_url),
                opt_bytes_view(avatar),
            ),
            r is Err ==> *final(self) == *old(self) && r == Err::<EntityId, StoreError>(
                StoreError::CapacityExhausted,
            ),
    {
        if self.next_id == i64::MAX || self.clock == i64::MAX {
            return Err(StoreError::CapacityExhausted);
        }
        let ghost s = self@;
        let id = self.next_id;
        let row = ProfileQueryResult {
            id,
            created_at: self.clock,
            updated_at: self.clock,
            user_name,
            full_name,
            description,
            region,
            main_url,
            avatar,
        };
        proof {
            lemma_map_values_push(self.profiles@, |p: ProfileQueryResult| p@, row);
        }
        self.profiles.push(row);
        self.next_id = id + 1;
        self.clock = self.clock + 1;
        proof {
            lemma_after_insert_profile_wf(
                s,
                user_name@,
                full_name@,
                description@,
                opt_str_view(region),
                opt_str_view(main_url),
                opt_bytes_view(avatar),
            );
        }
        Ok(EntityId { id })
    }

    /// Fetches the profile row with this id, or nothing when none exists.
    pub fn select_profile(&self, id: i64) -> (r: Option<ProfileQueryResult>)
        requires
            self.wf(),
        ensures
            r is Some <==> has_profile(self@.profiles, id as int),
            r matches Some(p) ==> Some(p@) == profile_by_id(self@.profiles, id as int),
    {
        let mut i: usize = 0;
        while i < self.profiles.len()
            invariant
                self.wf(),
                i <= self.profiles.len(),
                forall|j: int| 0 <= j < i ==> (#[trigger] self@.profiles[j]).id != id as int,
            decreases self.profiles.len() - i,
        {
            if self.profiles[i].id == id {
                let row = &self.profiles[i];
                let out = ProfileQueryResult {
                    id: row.id,
                    created_at: row.created_at,
                    updated_at: row.updated_at,
                    user_name: row.user_name.clone(),
                    full_name: row.full_name.clone(),
                    description: row.description.clone(),
                    region: clone_opt_string(&row.region),
                    main_url: clone_opt_string(&row.main_url),
                    avatar: clone_opt_bytes(&row.avatar),
                };
                proof {
                    assert(out@ == self@.profiles[i as int]);
                    assert(self@.profiles[i as int].id == id as int);
                    let k = choose|j: int|
                        0 <= j < self@.profiles.len() && (#[trigger] self@.profiles[j]).id
                            == id as int;
                    if k != i as int {
                        assert(self@.profiles[k].id != self@.profiles[i as int].id);
                    }
                }
                return Some(out);
            }
            i = i + 1;
        }
        None
    }

    /// Inserts a follow edge. Succeeds exactly when both profiles exist and
    /// the counters have room; a refused insert leaves the store untouched.
    pub fn insert_follow(&mut self, follower_id: i64, following_id: i64) -> (r: Result<
        EntityId,
        StoreError,
    >)
        requires
            old(self).wf(),
        ensures
            final(self).wf(),
            r is Ok <==> has_profile(old(self)@.profiles, follower_id as int) && has_profile(
                old(self)@.profiles,
                following_id as int,
            ) && room_for(old(self)@, 1),
            r matches Ok(e) ==> e == (EntityId { id: old(self).next_id }) && final(self)@
                == after_insert_follow(old(self)@, follower_id as int, following_id as int),
            r is Err ==> *final(self) == *old(self),
            r matches Err(e) ==> e == (if !(has_profile(old(self)@.profiles, follower_id as int)
                && has_profile(old(self)@.profiles, following_id as int)) {
                StoreError::MissingReference
            } else {
                StoreError::CapacityExhausted
            }),
    {
        if !(self.profile_exists(follower_id) && self.profile_exists(following_id)) {
            return Err(StoreError::MissingReference);
        }
        if self.next_id == i64::MAX || self.clock == i64::MAX {
            return Err(StoreError::CapacityExhausted);
        }
        let ghost s = self@;
        let id = self.next_id;
        let row = Follow {
            id,
            created_at: self.clock,
            updated_at: self.clock,
            follower_id,
            following_id,
        };
        proof {
            lemma_map_values_push(self.follows@, |f: Follow| f@, row);
        }
        self.follows.push(row);
        self.next_id = id + 1;
        self.clock = self.clock + 1;
        proof {
            lemma_after_insert_follow_wf(s, follower_id as int, following_id as int);
        }
        Ok(EntityId { id })
    }

    /// Fetches every follow edge with this follower, in store order.
    pub fn select_follows_by_follower(&self, id: i64) -> (r: Vec<Follow>)
        ensures
            r@.map_values(|f: Follow| f@) == follows_of(self@.follows, id as int),
    {
        let mut out: Vec<Follow> = Vec::new();
        let mut i: usize = 0;
        proof {
            assert(out@.map_values(|f: Follow| f@) =~= follows_of(
                self@.follows.take(0),
                id as int,
            ));
        }
        while i < self.follows.len()
            invariant
                i <= self.follows.len(),
                out@.map_values(|f: Follow| f@) == follows_of(self@.follows.take(i as int), id as int),
            decreases self.follows.len() - i,
        {
            let ghost prefix = self@.follows.take(i as int);
            let ghost next_prefix = self@.follows.take(i as int + 1);
            proof {
                assert(next_prefix.drop_last() =~= prefix);
                assert(next_prefix.last() == self@.follows[i as int]);
            }
            if self.follows[i].follower_id == id {
                let row = self.follows[i];
                proof {
                    lemma_map_values_push(out@, |f: Follow| f@, row);
                    assert(out@.map_values(|f: Follow| f@).push(row@) =~= follows_of(
                        next_prefix,
                        id as int,
                    ));
                }
                out.push(row);
            } else {
                proof {
                    assert(follows_of(next_prefix, id as int) =~= follows_of(prefix, id as int));
                }
            }
            i = i + 1;
        }
        proof {
            assert(self@.follows.take(self.follows@.len() as int) =~= self@.follows);
        }
        out
    }

    /// Creates a message in one atomic unit of work: inserts the message row
    /// and, when a broadcast target is named, the link row tying the new
    /// message to it. Succeeds exactly when the author exists, the named
    /// target (if any) exists, and the counters have room; any refusal rolls
    /// the whole write back, leaving the store untouched.
    pub fn insert_message(
        &mut self,
        user_id: i64,
        body: &str,
        broadcasting_msg_id: Option<i64>,
    ) -> (r: Result<EntityId, StoreError>)
        requires
            old(self).wf(),
        ensures
            final(self).wf(),
            r is Ok <==> can_insert_message(
                old(self)@,
                user_id as int,
                opt_id_view(broadcasting_msg_id),
            ),
            r matches Ok(e) ==> e == (EntityId { id: old(self).next_id }) && final(self)@
                == after_insert_message(
                old(self)@,
                user_id as int,
                body@,
                opt_id_view(broadcasting_msg_id),
            ),
            r is Err ==> *final(self) == *old(self),
            r matches Err(e) ==> e == (if !message_refs_ok(
                old(self)@,
                user_id as int,
                opt_id_view(broadcasting_msg_id),
            ) {
                StoreError::MissingReference
            } else {
                StoreError::CapacityExhausted
            }),
    {
        let refs_ok = self.profile_exists(user_id) && (match broadcasting_msg_id {
            Some(t) => self.message_exists(t),
            None => true,
        });
        if !refs_ok {
            return Err(StoreError::MissingReference);
        }
        let room = self.clock < i64::MAX && (match broadcasting_msg_id {
            Some(_) => self.next_id <= i64::MAX - 2,
            None => self.next_id <= i64::MAX - 1,
        });
        if !room {
            return Err(StoreError::CapacityExhausted);
        }
        let ghost s = self@;
        let msg_id = self.next_id;
        let row = MessageQueryResult {
            id: msg_id,
            created_at: self.clock,
            updated_at: self.clock,
            user_id,
            body: Some(body.to_owned()),
            image: None,
            likes: 0,
        };
        proof {
            lemma_map_values_push(self.messages@, |m: MessageQueryResult| m@, row);
        }
        self.messages.push(row);
        match broadcasting_msg_id {
            Some(target) => {
                let link = MessageBroadcast {
                    id: msg_id + 1,
                    main_msg_id: msg_id,
                    broadcasting_msg_id: target,
                };
                proof {
                    lemma_map_values_push(self.message_broadcasts@, |b: MessageBroadcast| b@, link);
                }
                self.message_broadcasts.push(link);
                self.next_id = msg_id + 2;
            },
            None => {
                self.next_id = msg_id + 1;
            },
        }
        self.clock = self.clock + 1;
        proof {
            lemma_after_insert_message_wf(
                s,
                user_id as int,
                body@,
                opt_id_view(broadcasting_msg_id),
            );
        }
        Ok(EntityId { id: msg_id })
    }

    /// Creates a response message in one atomic unit of work: inserts the
    /// message row and the response link tying it to the original message.
    /// Succeeds exactly when the author and the original message exist and
    /// the counters have room; any refusal rolls the whole write back,
    /// leaving the store untouched.
    pub fn insert_response_message(&mut self, user_id: i64, body: &str, original_msg_id: i64) -> (r:
        Result<i64, StoreError>)
        requires
            old(self).wf(),
        ensures
            final(self).wf(),
            r is Ok <==> can_insert_response(old(self)@, user_id as int, original_msg_id as int),
            r matches Ok(id) ==> id == old(self).next_id && final(self)@ == after_insert_response(
                old(self)@,
                user_id as int,
                body@,
                original_msg_id as int,
            ),
            r is Err ==> *final(self) == *old(self),
            r matches Err(e) ==> e == (if !response_refs_ok(
                old(self)@,
                user_id as int,
                original_msg_id as int,
            ) {
                StoreError::MissingReference
            } else {
                StoreError::CapacityExhausted
            }),
    {
        let refs_ok = self.profile_exists(user_id) && self.message_exists(original_msg_id);
        if !refs_ok {
            return Err(StoreError::MissingReference);
        }
        if !(self.clock < i64::MAX && self.next_id <= i64::MAX - 2) {
            return Err(StoreError::CapacityExhausted);
        }
        let ghost s = self@;
        let msg_id = self.next_id;
        let row = MessageQueryResult {
            id: msg_id,
            created_at: self.clock,
            updated_at: self.clock,
            user_id,
            body: Some(body.to_owned()),
            image: None,
            likes: 0,
        };
        proof {
            lemma_map_values_push(self.messages@, |m: MessageQueryResult| m@, row);
        }
        self.messages.push(row);
        let link = MessageResponse {
            id: msg_id + 1,
            original_msg_id,
            responding_msg_id: msg_id,
        };
        proof {
            lemma_map_values_push(self.message_responses@, |x: MessageResponse| x@, link);
        }
        self.message_responses.push(link);
        self.next_id = msg_id + 2;
        self.clock = self.clock + 1;
        proof {
            lemma_after_insert_response_wf(s, user_id as int, body@, original_msg_id as int);
        }
        Ok(msg_id)
    }
}

} // verus!
