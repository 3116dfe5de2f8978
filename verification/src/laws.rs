//! Laws of the write pipeline and the feed assembly, proved against the
//! mathematical store model: what a freshly created message looks like when
//! fetched back, what a broadcast merge carries over, that one batched
//! resolution query serves every row exactly as its own single query would,
//! and that an unresolved link degrades only its own row.

use vstd::prelude::*;

use crate::feed::{
    batch_resolve, feed_page, find_match, lemma_page_of_qualifies, merge_row, page_of,
    resolve_link, resolve_opt_link, spec_select_message, spec_select_messages, with_profile,
};
use crate::message::{MessageView, MessageWithBroadcastView, MessageWithProfileView};
use crate::store::{
    after_insert_message, broadcast_by_id, broadcast_by_main, has_broadcast, has_broadcast_for_main,
    has_message, has_profile, lemma_after_insert_message_wf, message_by_id, new_message_row,
    profile_by_id, room_for, store_wf, StoreView,
};

verus! {

/// Round trip: creating a message with no broadcast target, then fetching it
/// by id, yields a row whose primary fields equal the input — the fresh id,
/// the clock stamp, the body, zero likes, no image, the author's profile
/// columns — and whose every broadcast field is absent.
pub proof fn lemma_create_then_fetch_round_trip(s: StoreView, author_id: int, body: Seq<char>)
    requires
        store_wf(s),
        has_profile(s.profiles, author_id),
        room_for(s, 1),
    ensures
        ({
            let s2 = after_insert_message(s, author_id, body, None);
            let author = profile_by_id(s.profiles, author_id)->0;
            spec_select_message(s2, s.next_id) == Some(
                MessageWithBroadcastView {
                    id: s.next_id,
                    updated_at: s.clock,
                    body: Some(body),
                    likes: 0,
                    image: None,
                    user_id: author_id,
                    user_name: author.user_name,
                    full_name: author.full_name,
                    avatar: author.avatar,
                    message_broadcast_id: None,
                    message_broadcast_updated_at: None,
                    message_broadcast_body: None,
                    message_broadcast_likes: None,
                    message_broadcast_image: None,
                    message_broadcast_user_id: None,
                    message_broadcast_user_name: None,
                    message_broadcast_full_name: None,
                    message_broadcast_avatar: None,
                },
            )
        }),
{
    let s2 = after_insert_message(s, author_id, body, None);
    let msg = new_message_row(s, author_id, body);
    lemma_after_insert_message_wf(s, author_id, body, None);
    lemma_fresh_message_lookup(s, s2, msg);
    lemma_no_link_for_fresh_id(s, s.next_id);
    assert(with_profile(s2, msg).message_broadcast_id is None);
}

/// In a well-formed store extended with exactly one fresh message row,
/// looking the fresh id up finds exactly that row.
proof fn lemma_fresh_message_lookup(s: StoreView, s2: StoreView, msg: MessageView)
    requires
        store_wf(s),
        msg.id == s.next_id,
        s2.messages == s.messages.push(msg),
    ensures
        message_by_id(s2.messages, s.next_id) == Some(msg),
{
    assert(s2.messages[s.messages.len() as int] == msg);
    assert(has_message(s2.messages, s.next_id));
    let k = choose|j: int|
        0 <= j < s2.messages.len() && (#[trigger] s2.messages[j]).id == s.next_id;
    if k != s.messages.len() as int {
        assert(s2.messages[k] == s.messages[k]);
        assert(s.messages[k].id < s.next_id);
    }
}

/// No broadcast link row in a well-formed store has an id at or past the id
/// sequence as its main message: links only ever name existing messages.
proof fn lemma_no_link_for_fresh_id(s: StoreView, fresh_id: int)
    requires
        store_wf(s),
        fresh_id >= s.next_id,
    ensures
        broadcast_by_main(s.broadcasts, fresh_id) is None,
{
    if has_broadcast_for_main(s.broadcasts, fresh_id) {
        let j = choose|j: int|
            0 <= j < s.broadcasts.len() && (#[trigger] s.broadcasts[j]).main_msg_id == fresh_id;
        assert(has_message(s.messages, s.broadcasts[j].main_msg_id));
        let t = choose|t: int|
            0 <= t < s.messages.len() && (#[trigger] s.messages[t]).id == fresh_id;
        assert(s.messages[t].id < s.next_id);
    }
}

/// Broadcast merge: creating message B with broadcast target A, then
/// fetching B, yields a row whose `message_broadcast_id` is A's id and whose
/// every other broadcast field matches A's row — body, timestamp, likes,
/// image, and A's author's profile columns — while B's own primary fields
/// carry the fresh insert.
pub proof fn lemma_broadcast_merge(s: StoreView, author_id: int, body: Seq<char>, target_id: int)
    requires
        store_wf(s),
        has_profile(s.profiles, author_id),
        has_message(s.messages, target_id),
        room_for(s, 2),
    ensures
        ({
            let s2 = after_insert_message(s, author_id, body, Some(target_id));
            let a = message_by_id(s.messages, target_id)->0;
            let a_author = profile_by_id(s.profiles, a.user_id)->0;
            let fetched = spec_select_message(s2, s.next_id);
            &&& fetched is Some
            &&& fetched->0.id == s.next_id
            &&& fetched->0.body == Some(body)
            &&& fetched->0.user_id == author_id
            &&& fetched->0.message_broadcast_id == Some(a.id)
            &&& fetched->0.message_broadcast_id == Some(target_id)
            &&& fetched->0.message_broadcast_updated_at == Some(a.updated_at)
            &&& fetched->0.message_broadcast_body == a.body
            &&& fetched->0.message_broadcast_likes == Some(a.likes)
            &&& fetched->0.message_broadcast_image == a.image
            &&& fetched->0.message_broadcast_user_id == Some(a.user_id)
            &&& fetched->0.message_broadcast_user_name == Some(a_author.user_name)
            &&& fetched->0.message_broadcast_full_name == Some(a_author.full_name)
            &&& fetched->0.message_broadcast_avatar == a_author.avatar
        }),
{
    let s2 = after_insert_message(s, author_id, body, Some(target_id));
    let msg = new_message_row(s, author_id, body);
    let link = s2.broadcasts.last();
    lemma_after_insert_message_wf(s, author_id, body, Some(target_id));
    lemma_fresh_message_lookup(s, s2, msg);

    // The fresh message's outgoing link is exactly the link row just pushed.
    assert(s2.broadcasts[s.broadcasts.len() as int] == link);
    assert(has_broadcast_for_main(s2.broadcasts, s.next_id));
    let j = choose|j: int|
        0 <= j < s2.broadcasts.len() && (#[trigger] s2.broadcasts[j]).main_msg_id == s.next_id;
    if j != s.broadcasts.len() as int {
        assert(s2.broadcasts[j] == s.broadcasts[j]);
        assert(has_message(s.messages, s.broadcasts[j].main_msg_id));
        let t = choose|t: int|
            0 <= t < s.messages.len() && (#[trigger] s.messages[t]).id == s.next_id;
        assert(s.messages[t].id < s.next_id);
    }
    assert(broadcast_by_main(s2.broadcasts, s.next_id) == Some(link));

    // Resolving the link id finds the link row: its id is fresh too.
    assert(has_broadcast(s2.broadcasts, s.next_id + 1));
    let j2 = choose|j: int|
        0 <= j < s2.broadcasts.len() && (#[trigger] s2.broadcasts[j]).id == s.next_id + 1;
    if j2 != s.broadcasts.len() as int {
        assert(s2.broadcasts[j2] == s.broadcasts[j2]);
        assert(s.broadcasts[j2].id < s.next_id);
    }
    assert(broadcast_by_id(s2.broadcasts, s.next_id + 1) == Some(link));

    // The link's target is message A, which the push did not disturb.
    let a = message_by_id(s.messages, target_id)->0;
    let ka = choose|k: int|
        0 <= k < s.messages.len() && (#[trigger] s.messages[k]).id == target_id;
    assert(s.messages[ka] == a);
    assert(s2.messages[ka] == a);
    assert(has_message(s2.messages, target_id));
    let kb = choose|k: int|
        0 <= k < s2.messages.len() && (#[trigger] s2.messages[k]).id == target_id;
    if kb != ka {
        if kb == s.messages.len() as int {
            assert(s2.messages[kb] == msg);
            assert(a.id < s.next_id);
        } else {
            assert(s2.messages[kb] == s.messages[kb]);
        }
    }
    assert(message_by_id(s2.messages, target_id) == Some(a));
    assert(a.id == target_id);

    // A's author's profile is found unchanged.
    assert(s2.profiles == s.profiles);
    assert(has_profile(s.profiles, a.user_id));
}

/// Whatever `find_match` returns carries the link tag it was asked for and
/// is a row of the batch.
proof fn lemma_find_match_found(batch: Seq<MessageWithProfileView>, l: int)
    requires
        find_match(batch, Some(l)) is Some,
    ensures
        find_match(batch, Some(l))->0.message_broadcast_id == Some(l),
        exists|j: int| 0 <= j < batch.len() && #[trigger] batch[j] == find_match(batch, Some(l))->0,
    decreases batch.len(),
{
    if batch.len() == 0 {
    } else if batch[0].message_broadcast_id == Some(l) {
        assert(batch[0] == find_match(batch, Some(l))->0);
    } else {
        lemma_find_match_found(batch.drop_first(), l);
        let r = find_match(batch, Some(l))->0;
        let j = choose|j: int|
            0 <= j < batch.drop_first().len() && #[trigger] batch.drop_first()[j] == r;
        assert(batch[j + 1] == r);
    }
}

/// When `find_match` comes back empty, no batch row carries the tag.
proof fn lemma_find_match_misses(batch: Seq<MessageWithProfileView>, l: int)
    requires
        find_match(batch, Some(l)) is None,
    ensures
        forall|j: int|
            0 <= j < batch.len() ==> (#[trigger] batch[j]).message_broadcast_id != Some(l),
    decreases batch.len(),
{
    if batch.len() == 0 {
    } else {
        lemma_find_match_misses(batch.drop_first(), l);
        assert forall|j: int|
            0 <= j < batch.len() implies (#[trigger] batch[j]).message_broadcast_id != Some(
            l,
        ) by {
            if j > 0 {
                assert(batch.drop_first()[j - 1] == batch[j]);
            }
        }
    }
}

/// Every row the batched resolution returns is exactly what resolving its
/// own tag yields: the batch holds resolutions and nothing else.
proof fn lemma_batch_resolve_elems(s: StoreView, page: Seq<MessageWithProfileView>)
    ensures
        forall|j: int|
            0 <= j < batch_resolve(s, page).len() ==> resolve_opt_link(
                s,
                (#[trigger] batch_resolve(s, page)[j]).message_broadcast_id,
            ) == Some(batch_resolve(s, page)[j]),
    decreases page.len(),
{
    if page.len() == 0 {
    } else {
        lemma_batch_resolve_elems(s, page.drop_last());
        let batch = batch_resolve(s, page);
        let sub = batch_resolve(s, page.drop_last());
        assert forall|j: int|
            0 <= j < batch.len() implies resolve_opt_link(
            s,
            (#[trigger] batch[j]).message_broadcast_id,
        ) == Some(batch[j]) by {
            if j < sub.len() {
                assert(batch[j] == sub[j]);
            } else {
                let t = resolve_opt_link(s, page.last().message_broadcast_id)->0;
                assert(batch[j] == t);
            }
        }
    }
}

/// A page row whose link resolves is covered by the batch: some batch row
/// carries its tag.
proof fn lemma_batch_resolve_covers(s: StoreView, page: Seq<MessageWithProfileView>, i: int)
    requires
        0 <= i < page.len(),
        page[i].message_broadcast_id is Some,
        resolve_opt_link(s, page[i].message_broadcast_id) is Some,
    ensures
        exists|j: int|
            0 <= j < batch_resolve(s, page).len() && (#[trigger] batch_resolve(
                s,
                page,
            )[j]).message_broadcast_id == page[i].message_broadcast_id,
    decreases page.len(),
{
    let batch = batch_resolve(s, page);
    let sub = batch_resolve(s, page.drop_last());
    if i == page.len() - 1 {
        let t = resolve_opt_link(s, page.last().message_broadcast_id)->0;
        assert(batch[sub.len() as int] == t);
    } else {
        assert(page.drop_last()[i] == page[i]);
        lemma_batch_resolve_covers(s, page.drop_last(), i);
        let j = choose|j: int|
            0 <= j < sub.len() && (#[trigger] sub[j]).message_broadcast_id
                == page[i].message_broadcast_id;
        assert(batch[j] == sub[j]);
    }
}

/// Feed batching: the one batched resolution query serves every page row
/// exactly as that row's own single resolution query would — merging against
/// the batch and resolving each link one by one are the same function of the
/// store, whatever the page holds.
pub proof fn lemma_batched_resolution_matches_single(
    s: StoreView,
    page: Seq<MessageWithProfileView>,
    i: int,
)
    requires
        0 <= i < page.len(),
    ensures
        find_match(batch_resolve(s, page), page[i].message_broadcast_id) == resolve_opt_link(
            s,
            page[i].message_broadcast_id,
        ),
{
    let link = page[i].message_broadcast_id;
    let batch = batch_resolve(s, page);
    match link {
        None => {
        },
        Some(l) => {
            lemma_batch_resolve_elems(s, page);
            match resolve_link(s, l) {
                None => {
                    if find_match(batch, Some(l)) is Some {
                        lemma_find_match_found(batch, l);
                        let r = find_match(batch, Some(l))->0;
                        let j = choose|j: int| 0 <= j < batch.len() && #[trigger] batch[j] == r;
                        assert(resolve_opt_link(s, batch[j].message_broadcast_id) == Some(
                            batch[j],
                        ));
                    }
                },
                Some(t) => {
                    lemma_batch_resolve_covers(s, page, i);
                    if find_match(batch, Some(l)) is None {
                        lemma_find_match_misses(batch, l);
                    }
                    lemma_find_match_found(batch, l);
                    let r = find_match(batch, Some(l))->0;
                    let j = choose|j: int| 0 <= j < batch.len() && #[trigger] batch[j] == r;
                    assert(resolve_opt_link(s, batch[j].message_broadcast_id) == Some(batch[j]));
                },
            }
        },
    }
}

/// Every feed row equals the single fetch of its own id: assembling the page
/// with one batched query loses nothing against fetching each message alone.
pub proof fn lemma_feed_row_matches_single_fetch(
    s: StoreView,
    viewer: int,
    cursor: int,
    n: int,
    i: int,
)
    requires
        store_wf(s),
        0 <= i < spec_select_messages(s, viewer, cursor, n).len(),
    ensures
        ({
            let out = spec_select_messages(s, viewer, cursor, n);
            spec_select_message(s, out[i].id) == Some(out[i])
        }),
{
    let raw = page_of(s, s.messages, viewer, cursor, n);
    let page = feed_page(s, viewer, cursor, n);
    let batch = batch_resolve(s, page);
    let out = spec_select_messages(s, viewer, cursor, n);
    assert(page[i] == with_profile(s, raw[i]));
    assert(out[i] == merge_row(find_match(batch, page[i].message_broadcast_id), page[i]));
    lemma_batched_resolution_matches_single(s, page, i);
    lemma_page_of_qualifies(s, s.messages, viewer, cursor, n);
    let j = choose|j: int| 0 <= j < s.messages.len() && s.messages[j] == raw[i];
    assert(s.messages[j].id == raw[i].id);
    assert(has_message(s.messages, raw[i].id));
    let k = choose|k: int|
        0 <= k < s.messages.len() && (#[trigger] s.messages[k]).id == raw[i].id;
    if k != j {
        assert(s.messages[k].id != s.messages[j].id);
    }
    assert(message_by_id(s.messages, raw[i].id) == Some(raw[i]));
    assert(out[i].id == raw[i].id);
}

/// Degradation: a page row whose link no batch row resolves keeps every
/// broadcast field absent and every primary field untouched — and, the merge
/// being row by row, no other row of the page is affected.
pub proof fn lemma_unresolved_broadcast_degrades(
    batch: Seq<MessageWithProfileView>,
    row: MessageWithProfileView,
)
    requires
        find_match(batch, row.message_broadcast_id) is None,
    ensures
        ({
            let merged = merge_row(find_match(batch, row.message_broadcast_id), row);
            &&& merged.message_broadcast_id is None
            &&& merged.message_broadcast_updated_at is None
            &&& merged.message_broadcast_body is None
            &&& merged.message_broadcast_likes is None
            &&& merged.message_broadcast_image is None
            &&& merged.message_broadcast_user_id is None
            &&& merged.message_broadcast_user_name is None
            &&& merged.message_broadcast_full_name is None
            &&& merged.message_broadcast_avatar is None
            &&& merged.id == row.id
            &&& merged.updated_at == row.updated_at
            &&& merged.body == row.body
            &&& merged.likes == row.likes
            &&& merged.image == row.image
            &&& merged.user_id == row.user_id
            &&& merged.user_name == row.user_name
            &&& merged.full_name == row.full_name
            &&& merged.avatar == row.avatar
        }),
{
}

} // verus!
