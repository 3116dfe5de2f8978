//! Feed assembly: fetching a message or a page of messages joined with the
//! author's profile, resolving broadcast links, and merging the resolved
//! target rows into flattened, self-contained result rows.
//!
//! The read side makes two passes over the store: one query for the page (or
//! the single message), then one batched query resolving every broadcast
//! link the page references. A pure merge then reconciles the two result
//! sets; a link that did not resolve degrades its row to "no broadcast data"
//! instead of failing the page.

use vstd::prelude::*;

use crate::colview::{clone_opt_bytes, clone_opt_string, opt_id_view};
use crate::message::{
    MessageQueryResult, MessageView, MessageWithBroadcastView,
    MessageWithFollowingAndBroadcastQueryResult, MessageWithProfileQueryResult,
    MessageWithProfileView,
};
use crate::store::{
    broadcast_by_id, broadcast_by_main, has_follow, has_profile, lemma_map_values_push,
    message_by_id, profile_by_id, EntityStore, StoreView,
};

verus! {

/// View of an optional borrowed joined row.
pub open spec fn opt_ref_row_view(o: Option<&MessageWithProfileQueryResult>) -> Option<
    MessageWithProfileView,
> {
    match o {
        Some(b) => Some(b@),
        None => None,
    }
}

/// View of an optional owned joined row.
pub open spec fn opt_row_view(o: Option<MessageWithProfileQueryResult>) -> Option<
    MessageWithProfileView,
> {
    match o {
        Some(b) => Some(b@),
        None => None,
    }
}

/// View of an optional merged row.
pub open spec fn opt_merged_view(o: Option<MessageWithFollowingAndBroadcastQueryResult>) -> Option<
    MessageWithBroadcastView,
> {
    match o {
        Some(b) => Some(b@),
        None => None,
    }
}

/// View of a sequence of joined rows.
pub open spec fn rows_view(v: Seq<MessageWithProfileQueryResult>) -> Seq<MessageWithProfileView> {
    v.map_values(|r: MessageWithProfileQueryResult| r@)
}

/// View of a sequence of merged rows.
pub open spec fn merged_rows_view(v: Seq<MessageWithFollowingAndBroadcastQueryResult>) -> Seq<
    MessageWithBroadcastView,
> {
    v.map_values(|r: MessageWithFollowingAndBroadcastQueryResult| r@)
}

/// View of an optional batch of resolved rows; a batch that failed to arrive
/// resolves nothing.
pub open spec fn opt_batch_view(o: Option<Vec<MessageWithProfileQueryResult>>) -> Seq<
    MessageWithProfileView,
> {
    match o {
        Some(v) => rows_view(v@),
        None => Seq::empty(),
    }
}

/// A message row joined with its author's profile columns and tagged with
/// `link`: the broadcast link id this row is associated with.
pub open spec fn joined_row(s: StoreView, m: MessageView, link: Option<int>) -> MessageWithProfileView {
    let p = profile_by_id(s.profiles, m.user_id)->0;
    MessageWithProfileView {
        id: m.id,
        updated_at: m.updated_at,
        body: m.body,
        likes: m.likes,
        image: m.image,
        user_id: m.user_id,
        user_name: p.user_name,
        full_name: p.full_name,
        avatar: p.avatar,
        message_broadcast_id: link,
    }
}

/// The link id of a message's own outgoing broadcast link, when one exists.
pub open spec fn outgoing_link_of(s: StoreView, msg_id: int) -> Option<int> {
    match broadcast_by_main(s.broadcasts, msg_id) {
        Some(b) => Some(b.id),
        None => None,
    }
}

/// A message joined with its author and tagged with its own outgoing link:
/// the shape of a page row.
pub open spec fn with_profile(s: StoreView, m: MessageView) -> MessageWithProfileView {
    joined_row(s, m, outgoing_link_of(s, m.id))
}

/// Resolves a broadcast link id to the full author-enriched row of the
/// target message, tagged with the link id it was resolved through. Nothing
/// comes back when the link or its target is gone.
pub open spec fn resolve_link(s: StoreView, link_id: int) -> Option<MessageWithProfileView> {
    match broadcast_by_id(s.broadcasts, link_id) {
        None => None,
        Some(b) => match message_by_id(s.messages, b.broadcasting_msg_id) {
            None => None,
            Some(tm) => Some(joined_row(s, tm, Some(link_id))),
        },
    }
}

/// Resolves a row's optional link; a row without a link resolves to nothing.
pub open spec fn resolve_opt_link(s: StoreView, link: Option<int>) -> Option<MessageWithProfileView> {
    match link {
        Some(l) => resolve_link(s, l),
        None => None,
    }
}

/// The pure per-row merge: every primary field is copied verbatim from the
/// page row; the `message_broadcast_*` fields are copied from the resolved
/// target row when one is present, and absent otherwise. In the merged row
/// `message_broadcast_id` is the target message's own id.
pub open spec fn merge_row(
    broadcast: Option<MessageWithProfileView>,
    m: MessageWithProfileView,
) -> MessageWithBroadcastView {
    match broadcast {
        None => MessageWithBroadcastView {
            id: m.id,
            updated_at: m.updated_at,
            body: m.body,
            likes: m.likes,
            image: m.image,
            user_id: m.user_id,
            user_name: m.user_name,
            full_name: m.full_name,
            avatar: m.avatar,
            message_broadcast_id: None,
            message_broadcast_updated_at: None,
            message_broadcast_body: None,
            message_broadcast_likes: None,
            message_broadcast_image: None,
            message_broadcast_user_id: None,
            message_broadcast_user_name: None,
            message_broadcast_full_name: None,
            message_broadcast_avatar: None,
        },
        Some(t) => MessageWithBroadcastView {
            id: m.id,
            updated_at: m.updated_at,
            body: m.body,
            likes: m.likes,
            image: m.image,
            user_id: m.user_id,
            user_name: m.user_name,
            full_name: m.full_name,
            avatar: m.avatar,
            message_broadcast_id: Some(t.id),
            message_broadcast_updated_at: Some(t.updated_at),
            message_broadcast_body: t.body,
            message_broadcast_likes: Some(t.likes),
            message_broadcast_image: t.image,
            message_broadcast_user_id: Some(t.user_id),
            message_broadcast_user_name: Some(t.user_name),
            message_broadcast_full_name: Some(t.full_name),
            message_broadcast_avatar: t.avatar,
        },
    }
}

/// The first row of the batch tagged with this link id, when the link is
/// present and some row carries it — the match the merge uses.
pub open spec fn find_match(
    batch: Seq<MessageWithProfileView>,
    link: Option<int>,
) -> Option<MessageWithProfileView>
    decreases batch.len(),
{
    if link is None || batch.len() == 0 {
        None
    } else if batch[0].message_broadcast_id == link {
        Some(batch[0])
    } else {
        find_match(batch.drop_first(), link)
    }
}

/// The rows the batched resolution query returns for a page: for each page
/// row with a link, in page order, the resolved target row if the link
/// resolves.
pub open spec fn batch_resolve(
    s: StoreView,
    page: Seq<MessageWithProfileView>,
) -> Seq<MessageWithProfileView>
    decreases page.len(),
{
    if page.len() == 0 {
        Seq::empty()
    } else {
        batch_resolve(s, page.drop_last()) + (match resolve_opt_link(
            s,
            page.last().message_broadcast_id,
        ) {
            Some(t) => seq![t],
            None => Seq::empty(),
        })
    }
}

/// What fetching one message returns: nothing when the id is unknown,
/// otherwise the author-enriched row merged with its resolved broadcast
/// target, if any.
pub open spec fn spec_select_message(s: StoreView, id: int) -> Option<MessageWithBroadcastView> {
    match message_by_id(s.messages, id) {
        None => None,
        Some(m) => {
            let main = with_profile(s, m);
            Some(merge_row(resolve_opt_link(s, main.message_broadcast_id), main))
        },
    }
}

/// A message belongs to this viewer's feed page: the viewer follows its
/// author and it is strictly older than the cursor.
pub open spec fn qualifies(s: StoreView, m: MessageView, viewer: int, cursor: int) -> bool {
    has_follow(s.follows, viewer, m.user_id) && m.updated_at < cursor
}

/// The raw page: walking the message table from newest to oldest, the first
/// `n` messages that qualify for this viewer and cursor.
pub open spec fn page_of(
    s: StoreView,
    ms: Seq<MessageView>,
    viewer: int,
    cursor: int,
    n: int,
) -> Seq<MessageView>
    decreases ms.len(),
{
    if n <= 0 || ms.len() == 0 {
        Seq::empty()
    } else if qualifies(s, ms.last(), viewer, cursor) {
        seq![ms.last()] + page_of(s, ms.drop_last(), viewer, cursor, n - 1)
    } else {
        page_of(s, ms.drop_last(), viewer, cursor, n)
    }
}

/// The page rows, author-enriched.
pub open spec fn feed_page(s: StoreView, viewer: int, cursor: int, n: int) -> Seq<
    MessageWithProfileView,
> {
    page_of(s, s.messages, viewer, cursor, n).map_values(|m: MessageView| with_profile(s, m))
}

/// What fetching a feed page returns: the enriched page rows, each merged
/// with its match from the one batched resolution query.
pub open spec fn spec_select_messages(s: StoreView, viewer: int, cursor: int, n: int) -> Seq<
    MessageWithBroadcastView,
> {
    let page = feed_page(s, viewer, cursor, n);
    let batch = batch_resolve(s, page);
    page.map_values(|r: MessageWithProfileView| merge_row(find_match(batch, r.message_broadcast_id), r))
}

/// Builds the merged result row from a page row and its optionally resolved
/// broadcast target: the primary fields verbatim, the `message_broadcast_*`
/// fields from the target when present, absent otherwise.
pub fn append_broadcast_msg_to_msg(
    broadcast_message: Option<&MessageWithProfileQueryResult>,
    message_with_broadcast: &MessageWithProfileQueryResult,
) -> (r: MessageWithFollowingAndBroadcastQueryResult)
    ensures
        r@ == merge_row(opt_ref_row_view(broadcast_message), message_with_broadcast@),
{
    let mut final_message = MessageWithFollowingAndBroadcastQueryResult {
        id: message_with_broadcast.id,
        updated_at: message_with_broadcast.updated_at,
        body: clone_opt_string(&message_with_broadcast.body),
        likes: message_with_broadcast.likes,
        image: clone_opt_bytes(&message_with_broadcast.image),
        user_id: message_with_broadcast.user_id,
        user_name: message_with_broadcast.user_name.clone(),
        full_name: message_with_broadcast.full_name.clone(),
        avatar: clone_opt_bytes(&message_with_broadcast.avatar),
        message_broadcast_id: None,
        message_broadcast_updated_at: None,
        message_broadcast_body: None,
        message_broadcast_likes: None,
        message_broadcast_image: None,
        message_broadcast_user_id: None,
        message_broadcast_user_name: None,
        message_broadcast_full_name: None,
        message_broadcast_avatar: None,
    };
    match broadcast_message {
        Some(matching_broadcast) => {
            final_message.message_broadcast_id = Some(matching_broadcast.id);
            final_message.message_broadcast_updated_at = Some(matching_broadcast.updated_at);
            final_message.message_broadcast_body = clone_opt_string(&matching_broadcast.body);
            final_message.message_broadcast_likes = Some(matching_broadcast.likes);
            final_message.message_broadcast_image = clone_opt_bytes(&matching_broadcast.image);
            final_message.message_broadcast_user_id = Some(matching_broadcast.user_id);
            final_message.message_broadcast_user_name = Some(matching_broadcast.user_name.clone());
            final_message.message_broadcast_full_name = Some(matching_broadcast.full_name.clone());
            final_message.message_broadcast_avatar = clone_opt_bytes(&matching_broadcast.avatar);
        },
        None => {},
    }
    final_message
}

/// Finds the first batch row tagged with this link id, as the merge's
/// matching step.
pub fn find_matching_broadcast<'a>(
    batch: &'a Vec<MessageWithProfileQueryResult>,
    link: Option<i64>,
) -> (r: Option<&'a MessageWithProfileQueryResult>)
    ensures
        opt_ref_row_view(r) == find_match(rows_view(batch@), opt_id_view(link)),
{
    match link {
        None => None,
        Some(l) => {
            proof {
                assert(rows_view(batch@).skip(0) =~= rows_view(batch@));
            }
            let mut j: usize = 0;
            while j < batch.len()
                invariant
                    link == Some(l),
                    j <= batch.len(),
                    find_match(rows_view(batch@), Some(l as int)) == find_match(
                        rows_view(batch@).skip(j as int),
                        Some(l as int),
                    ),
                decreases batch.len() - j,
            {
                proof {
                    assert(rows_view(batch@).skip(j as int)[0] == batch@[j as int]@);
                    assert(rows_view(batch@).skip(j as int).drop_first() =~= rows_view(
                        batch@,
                    ).skip(j as int + 1));
                }
                let matches_link = match batch[j].message_broadcast_id {
                    Some(x) => x == l,
                    None => false,
                };
                if matches_link {
                    let found = &batch[j];
                    proof {
                        let sk = rows_view(batch@).skip(j as int);
                        assert(sk[0] == batch@[j as int]@);
                        assert(sk[0].message_broadcast_id == Some(l as int));
                        assert(find_match(sk, Some(l as int)) == Some(sk[0]));
                    }
                    return Some(found);
                }
                j = j + 1;
            }
            None
        },
    }
}

/// Merges a whole page with the batch of resolved broadcast targets: every
/// page row, in original page order, is merged with the first batch row
/// tagged with its link id; rows without a link, or whose link no batch row
/// resolves, keep every `message_broadcast_*` field absent. A batch that
/// failed to arrive at all degrades every row the same way.
pub fn append_broadcast_msgs_to_msgs(
    optional_broadcast_messages: &Option<Vec<MessageWithProfileQueryResult>>,
    following_messages_with_broadcasts: &Vec<MessageWithProfileQueryResult>,
) -> (r: Vec<MessageWithFollowingAndBroadcastQueryResult>)
    ensures
        r@.len() == following_messages_with_broadcasts@.len(),
        forall|i: int|
            0 <= i < r@.len() ==> (#[trigger] r@[i])@ == merge_row(
                find_match(
                    opt_batch_view(*optional_broadcast_messages),
                    following_messages_with_broadcasts@[i]@.message_broadcast_id,
                ),
                following_messages_with_broadcasts@[i]@,
            ),
{
    let mut final_list_of_messages: Vec<MessageWithFollowingAndBroadcastQueryResult> = Vec::new();
    let mut i: usize = 0;
    while i < following_messages_with_broadcasts.len()
        invariant
            i <= following_messages_with_broadcasts.len(),
            final_list_of_messages@.len() == i,
            forall|k: int|
                0 <= k < i ==> (#[trigger] final_list_of_messages@[k])@ == merge_row(
                    find_match(
                        opt_batch_view(*optional_broadcast_messages),
                        following_messages_with_broadcasts@[k]@.message_broadcast_id,
                    ),
                    following_messages_with_broadcasts@[k]@,
                ),
        decreases following_messages_with_broadcasts.len() - i,
    {
        let following_message_with_broadcast = &following_messages_with_broadcasts[i];
        let matching_broadcast_msg = match optional_broadcast_messages {
            Some(broadcast_messages) => find_matching_broadcast(
                broadcast_messages,
                following_message_with_broadcast.message_broadcast_id,
            ),
            None => None,
        };
        let merged = append_broadcast_msg_to_msg(
            matching_broadcast_msg,
            following_message_with_broadcast,
        );
        final_list_of_messages.push(merged);
        i = i + 1;
    }
    final_list_of_messages
}

/// Index of the message row with this id, when one exists.
#[verifier::loop_isolation(false)]
fn message_index(store: &EntityStore, id: i64) -> (r: Option<usize>)
    requires
        store.wf(),
    ensures
        r matches Some(ix) ==> ix < store.messages@.len() && store@.messages[ix as int].id
            == id as int && message_by_id(store@.messages, id as int) == Some(
            store@.messages[ix as int],
        ),
        r is None ==> message_by_id(store@.messages, id as int) is None,
{
    let mut i: usize = 0;
    while i < store.messages.len()
        invariant
            forall|j: int| 0 <= j < i ==> (#[trigger] store@.messages[j]).id != id as int,
        decreases store.messages.len() - i,
    {
        if store.messages[i].id == id {
            proof {
                assert(store@.messages[i as int].id == id as int);
                let k = choose|j: int|
                    0 <= j < store@.messages.len() && (#[trigger] store@.messages[j]).id
                        == id as int;
                if k != i as int {
                    assert(store@.messages[k].id != store@.messages[i as int].id);
                }
            }
            return Some(i);
        }
        i = i + 1;
    }
    None
}

/// Joins a stored message row with its author's profile columns, tagging the
/// result with `link`: the broadcast link id the row is associated with.
#[verifier::loop_isolation(false)]
pub fn row_with_profile(store: &EntityStore, m: &MessageQueryResult, link: Option<i64>) -> (r:
    MessageWithProfileQueryResult)
    requires
        store.wf(),
        has_profile(store@.profiles, m.user_id as int),
    ensures
        r@ == joined_row(store@, m@, opt_id_view(link)),
{
    let mut i: usize = 0;
    while i < store.profiles.len()
        invariant
            forall|j: int| 0 <= j < i ==> (#[trigger] store@.profiles[j]).id != m.user_id as int,
        decreases store.profiles.len() - i,
    {
        if store.profiles[i].id == m.user_id {
            let p = &store.profiles[i];
            proof {
                assert(store@.profiles[i as int].id == m.user_id as int);
                let k = choose|j: int|
                    0 <= j < store@.profiles.len() && (#[trigger] store@.profiles[j]).id
                        == m.user_id as int;
                if k != i as int {
                    assert(store@.profiles[k].id != store@.profiles[i as int].id);
                }
                assert(profile_by_id(store@.profiles, m.user_id as int) == Some(p@));
            }
            return MessageWithProfileQueryResult {
                id: m.id,
                updated_at: m.updated_at,
                body: clone_opt_string(&m.body),
                likes: m.likes,
                image: clone_opt_bytes(&m.image),
                user_id: m.user_id,
                user_name: p.user_name.clone(),
                full_name: p.full_name.clone(),
                avatar: clone_opt_bytes(&p.avatar),
                message_broadcast_id: link,
            };
        }
        i = i + 1;
    }
    proof {
        assert(false);
    }
    vstd::pervasive::unreached()
}

/// The id of a message's own outgoing broadcast link, when one exists.
#[verifier::loop_isolation(false)]
pub fn outgoing_link(store: &EntityStore, msg_id: i64) -> (r: Option<i64>)
    requires
        store.wf(),
    ensures
        opt_id_view(r) == outgoing_link_of(store@, msg_id as int),
{
    let mut i: usize = 0;
    while i < store.message_broadcasts.len()
        invariant
            forall|j: int|
                0 <= j < i ==> (#[trigger] store@.broadcasts[j]).main_msg_id != msg_id as int,
        decreases store.message_broadcasts.len() - i,
    {
        if store.message_broadcasts[i].main_msg_id == msg_id {
            let b = &store.message_broadcasts[i];
            proof {
                assert(store@.broadcasts[i as int].main_msg_id == msg_id as int);
                let k = choose|j: int|
                    0 <= j < store@.broadcasts.len() && (#[trigger] store@.broadcasts[j]).main_msg_id
                        == msg_id as int;
                if k != i as int {
                    assert(store@.broadcasts[k].main_msg_id != store@.broadcasts[
                        i as int
                    ].main_msg_id);
                }
                assert(broadcast_by_main(store@.broadcasts, msg_id as int) == Some(b@));
            }
            return Some(b.id);
        }
        i = i + 1;
    }
    None
}

/// Resolves one row's broadcast link back to the full author-enriched row of
/// the broadcast target, tagged with the link id it was resolved through.
#[verifier::loop_isolation(false)]
pub fn get_broadcasting_message_of_message(
    store: &EntityStore,
    message: &MessageWithProfileQueryResult,
) -> (r: Option<MessageWithProfileQueryResult>)
    requires
        store.wf(),
    ensures
        opt_row_view(r) == resolve_opt_link(store@, message@.message_broadcast_id),
{
    match message.message_broadcast_id {
        None => None,
        Some(link_id) => {
            let mut i: usize = 0;
            while i < store.message_broadcasts.len()
                invariant
                    forall|j: int|
                        0 <= j < i ==> (#[trigger] store@.broadcasts[j]).id != link_id as int,
                decreases store.message_broadcasts.len() - i,
            {
                if store.message_broadcasts[i].id == link_id {
                    let b = &store.message_broadcasts[i];
                    proof {
                        assert(store@.broadcasts[i as int].id == link_id as int);
                        let k = choose|j: int|
                            0 <= j < store@.broadcasts.len() && (#[trigger] store@.broadcasts[j]).id
                                == link_id as int;
                        if k != i as int {
                            assert(store@.broadcasts[k].id != store@.broadcasts[i as int].id);
                        }
                        assert(broadcast_by_id(store@.broadcasts, link_id as int) == Some(b@));
                    }
                    match message_index(store, b.broadcasting_msg_id) {
                        None => {
                            return None;
                        },
                        Some(mi) => {
                            let tm = &store.messages[mi];
                            proof {
                                assert(has_profile(store@.profiles, tm.user_id as int));
                            }
                            return Some(row_with_profile(store, tm, Some(link_id)));
                        },
                    }
                }
                i = i + 1;
            }
            None
        },
    }
}

/// Resolves every broadcast link a page references in one batched pass: for
/// each page row with a link, in page order, the resolved target row when
/// the link still resolves. One call serves the whole page, however many
/// distinct links it carries.
#[verifier::loop_isolation(false)]
pub fn get_broadcasting_messages_of_messages(
    store: &EntityStore,
    following_messages_with_broadcasts: &Vec<MessageWithProfileQueryResult>,
) -> (r: Vec<MessageWithProfileQueryResult>)
    requires
        store.wf(),
    ensures
        rows_view(r@) == batch_resolve(store@, rows_view(following_messages_with_broadcasts@)),
{
    let page = following_messages_with_broadcasts;
    let ghost pv = rows_view(page@);
    let mut out: Vec<MessageWithProfileQueryResult> = Vec::new();
    let mut i: usize = 0;
    proof {
        assert(rows_view(out@) =~= batch_resolve(store@, pv.take(0)));
    }
    while i < page.len()
        invariant
            i <= page@.len(),
            rows_view(out@) == batch_resolve(store@, pv.take(i as int)),
        decreases page.len() - i,
    {
        proof {
            assert(pv.take(i as int + 1).drop_last() =~= pv.take(i as int));
            assert(pv.take(i as int + 1).last() == page@[i as int]@);
        }
        let resolved = get_broadcasting_message_of_message(store, &page[i]);
        match resolved {
            Some(t) => {
                proof {
                    lemma_map_values_push(out@, |r: MessageWithProfileQueryResult| r@, t);
                    assert(rows_view(out@).push(t@) =~= rows_view(out@) + seq![t@]);
                }
                out.push(t);
            },
            None => {},
        }
        i = i + 1;
    }
    proof {
        assert(pv.take(page@.len() as int) =~= pv);
    }
    out
}

/// Every page row qualifies — its author is followed by the viewer and it is
/// strictly older than the cursor — and is a row of the message table; and a
/// page never exceeds its size.
pub proof fn lemma_page_of_qualifies(
    s: StoreView,
    ms: Seq<MessageView>,
    viewer: int,
    cursor: int,
    n: int,
)
    ensures
        forall|k: int|
            0 <= k < page_of(s, ms, viewer, cursor, n).len() ==> qualifies(
                s,
                #[trigger] page_of(s, ms, viewer, cursor, n)[k],
                viewer,
                cursor,
            ),
        forall|k: int|
            0 <= k < page_of(s, ms, viewer, cursor, n).len() ==> exists|j: int|
                0 <= j < ms.len() && ms[j] == #[trigger] page_of(s, ms, viewer, cursor, n)[k],
        page_of(s, ms, viewer, cursor, n).len() <= (if n >= 0 {
            n
        } else {
            0
        }),
    decreases ms.len(),
{
    if n <= 0 || ms.len() == 0 {
    } else {
        let rest = ms.drop_last();
        let page = page_of(s, ms, viewer, cursor, n);
        if qualifies(s, ms.last(), viewer, cursor) {
            lemma_page_of_qualifies(s, rest, viewer, cursor, n - 1);
            let sub = page_of(s, rest, viewer, cursor, n - 1);
            assert forall|k: int| 0 <= k < page.len() implies exists|j: int|
                0 <= j < ms.len() && ms[j] == #[trigger] page[k] by {
                if k == 0 {
                    assert(ms[ms.len() - 1] == page[0]);
                } else {
                    assert(page[k] == sub[k - 1]);
                    let j = choose|j: int| 0 <= j < rest.len() && rest[j] == sub[k - 1];
                    assert(ms[j] == page[k]);
                }
            }
        } else {
            lemma_page_of_qualifies(s, rest, viewer, cursor, n);
            assert forall|k: int| 0 <= k < page.len() implies exists|j: int|
                0 <= j < ms.len() && ms[j] == #[trigger] page[k] by {
                let j = choose|j: int| 0 <= j < rest.len() && rest[j] == page[k];
                assert(ms[j] == page[k]);
            }
        }
    }
}

/// Page rows come newest first: strictly descending by `updated_at`, as the
/// message table is strictly ascending.
pub proof fn lemma_page_of_sorted(
    s: StoreView,
    ms: Seq<MessageView>,
    viewer: int,
    cursor: int,
    n: int,
)
    requires
        forall|i: int, j: int|
            0 <= i < j < ms.len() ==> (#[trigger] ms[i]).updated_at < (#[trigger] ms[j]).updated_at,
    ensures
        forall|k: int, l: int|
            0 <= k < l < page_of(s, ms, viewer, cursor, n).len() ==> (#[trigger] page_of(
                s,
                ms,
                viewer,
                cursor,
                n,
            )[k]).updated_at > (#[trigger] page_of(s, ms, viewer, cursor, n)[l]).updated_at,
    decreases ms.len(),
{
    if n <= 0 || ms.len() == 0 {
    } else {
        let rest = ms.drop_last();
        let page = page_of(s, ms, viewer, cursor, n);
        assert forall|i: int, j: int|
            0 <= i < j < rest.len() implies (#[trigger] rest[i]).updated_at < (
        #[trigger] rest[j]).updated_at by {
            assert(rest[i] == ms[i] && rest[j] == ms[j]);
        }
        if qualifies(s, ms.last(), viewer, cursor) {
            lemma_page_of_sorted(s, rest, viewer, cursor, n - 1);
            lemma_page_of_qualifies(s, rest, viewer, cursor, n - 1);
            let sub = page_of(s, rest, viewer, cursor, n - 1);
            assert forall|k: int, l: int|
                0 <= k < l < page.len() implies (#[trigger] page[k]).updated_at > (
            #[trigger] page[l]).updated_at by {
                assert(page[l] == sub[l - 1]);
                if k == 0 {
                    assert(page[0] == ms.last());
                    let j = choose|j: int| 0 <= j < rest.len() && rest[j] == sub[l - 1];
                    assert(ms[j] == rest[j]);
                    assert(ms[j].updated_at < ms[ms.len() - 1].updated_at);
                } else {
                    assert(page[k] == sub[k - 1]);
                }
            }
        } else {
            lemma_page_of_sorted(s, rest, viewer, cursor, n);
        }
    }
}

impl EntityStore {
    /// Whether the viewer follows this author.
    #[verifier::loop_isolation(false)]
    pub fn follow_exists(&self, follower_id: i64, following_id: i64) -> (r: bool)
        ensures
            r == has_follow(self@.follows, follower_id as int, following_id as int),
    {
        let mut i: usize = 0;
        while i < self.follows.len()
            invariant
                forall|j: int|
                    0 <= j < i ==> !((#[trigger] self@.follows[j]).follower_id == follower_id as int
                        && self@.follows[j].following_id == following_id as int),
            decreases self.follows.len() - i,
        {
            if self.follows[i].follower_id == follower_id && self.follows[i].following_id
                == following_id {
                proof {
                    assert(self@.follows[i as int].follower_id == follower_id as int
                        && self@.follows[i as int].following_id == following_id as int);
                }
                return true;
            }
            i = i + 1;
        }
        false
    }

    /// Fetches one message by id: the author-enriched row, merged with its
    /// resolved broadcast target when it has one. An unknown id is not an
    /// error — nothing comes back.
    pub fn select_message(&self, id: i64) -> (r: Option<
        MessageWithFollowingAndBroadcastQueryResult,
    >)
        requires
            self.wf(),
        ensures
            opt_merged_view(r) == spec_select_message(self@, id as int),
    {
        match message_index(self, id) {
            None => None,
            Some(mi) => {
                let m = &self.messages[mi];
                proof {
                    assert(has_profile(self@.profiles, m@.user_id));
                }
                let link = outgoing_link(self, m.id);
                let msg = row_with_profile(self, m, link);
                proof {
                    assert(msg@ == with_profile(self@, m@));
                }
                let optional_matching_broadcast_message = get_broadcasting_message_of_message(
                    self,
                    &msg,
                );
                let final_message = append_broadcast_msg_to_msg(
                    optional_matching_broadcast_message.as_ref(),
                    &msg,
                );
                proof {
                    assert(final_message@ == merge_row(
                        resolve_opt_link(self@, msg@.message_broadcast_id),
                        msg@,
                    ));
                }
                Some(final_message)
            },
        }
    }

    /// Fetches one feed page for a viewer: messages authored by accounts the
    /// viewer follows, strictly older than the cursor, newest first, at most
    /// `page_size` rows — then resolves every broadcast link the page
    /// references in one batched second pass and merges the results in.
    #[verifier::loop_isolation(false)]
    pub fn select_messages(&self, user_id: i64, last_updated_at: i64, page_size: i16) -> (r: Vec<
        MessageWithFollowingAndBroadcastQueryResult,
    >)
        requires
            self.wf(),
            page_size >= 0,
        ensures
            merged_rows_view(r@) == spec_select_messages(
                self@,
                user_id as int,
                last_updated_at as int,
                page_size as int,
            ),
            r@.len() <= page_size as int,
            forall|i: int| 0 <= i < r@.len() ==> (#[trigger] r@[i])@.updated_at < last_updated_at as int,
            forall|i: int|
                0 <= i < r@.len() ==> has_follow(
                    self@.follows,
                    user_id as int,
                    (#[trigger] r@[i])@.user_id,
                ),
            forall|i: int, j: int|
                0 <= i < j < r@.len() ==> (#[trigger] r@[i])@.updated_at > (
                #[trigger] r@[j])@.updated_at,
    {
        let ghost viewer = user_id as int;
        let ghost cursor = last_updated_at as int;
        let ghost n_spec = page_size as int;
        let ghost all = self@.messages;
        let n: usize = page_size as usize;
        let mut page: Vec<MessageWithProfileQueryResult> = Vec::new();
        let ghost mut raw: Seq<MessageView> = Seq::empty();
        let mut i: usize = self.messages.len();
        proof {
            assert(all.take(i as int) =~= all);
            assert(rows_view(page@) =~= raw.map_values(|mm: MessageView| with_profile(self@, mm)));
            assert(raw + page_of(self@, all.take(i as int), viewer, cursor, n_spec) =~= page_of(
                self@,
                all,
                viewer,
                cursor,
                n_spec,
            ));
        }
        while i > 0 && page.len() < n
            invariant
                i <= self.messages@.len(),
                raw.len() == page@.len(),
                page@.len() <= n,
                rows_view(page@) == raw.map_values(|mm: MessageView| with_profile(self@, mm)),
                page_of(self@, all, viewer, cursor, n_spec) == raw + page_of(
                    self@,
                    all.take(i as int),
                    viewer,
                    cursor,
                    n_spec - raw.len(),
                ),
            decreases i,
        {
            i = i - 1;
            let m = &self.messages[i];
            let ghost prefix1 = all.take(i as int + 1);
            let ghost prefix0 = all.take(i as int);
            proof {
                assert(prefix1.drop_last() =~= prefix0);
                assert(prefix1.last() == all[i as int]);
            }
            let is_followed = self.follow_exists(user_id, m.user_id);
            if m.updated_at < last_updated_at && is_followed {
                proof {
                    assert(qualifies(self@, m@, viewer, cursor));
                    assert(has_profile(self@.profiles, m@.user_id));
                }
                let link = outgoing_link(self, m.id);
                let row = row_with_profile(self, m, link);
                proof {
                    assert(row@ == with_profile(self@, m@));
                    lemma_map_values_push(page@, |r: MessageWithProfileQueryResult| r@, row);
                    lemma_map_values_push(raw, |mm: MessageView| with_profile(self@, mm), m@);
                    let k = n_spec - raw.len();
                    assert(page_of(self@, prefix1, viewer, cursor, k) == seq![m@] + page_of(
                        self@,
                        prefix0,
                        viewer,
                        cursor,
                        k - 1,
                    ));
                    assert(raw + (seq![m@] + page_of(self@, prefix0, viewer, cursor, k - 1))
                        =~= raw.push(m@) + page_of(self@, prefix0, viewer, cursor, k - 1));
                }
                page.push(row);
                proof {
                    raw = raw.push(m@);
                }
            } else {
                proof {
                    assert(!qualifies(self@, m@, viewer, cursor));
                    assert(page_of(self@, prefix1, viewer, cursor, n_spec - raw.len()) == page_of(
                        self@,
                        prefix0,
                        viewer,
                        cursor,
                        n_spec - raw.len(),
                    ));
                }
            }
        }
        proof {
            if page@.len() < n as int {
                assert(i == 0);
                assert(all.take(0) =~= Seq::<MessageView>::empty());
            }
            assert(page_of(self@, all.take(i as int), viewer, cursor, n_spec - raw.len())
                =~= Seq::<MessageView>::empty());
            assert(page_of(self@, all, viewer, cursor, n_spec) =~= raw);
            assert(rows_view(page@) == feed_page(self@, viewer, cursor, n_spec));
        }
        let broadcast_messages = get_broadcasting_messages_of_messages(self, &page);
        let optional_matching_broadcast_messages = Some(broadcast_messages);
        let final_message_list = append_broadcast_msgs_to_msgs(
            &optional_matching_broadcast_messages,
            &page,
        );
        proof {
            let pv = rows_view(page@);
            let batch = batch_resolve(self@, pv);
            let spec_out = spec_select_messages(self@, viewer, cursor, n_spec);
            assert(opt_batch_view(optional_matching_broadcast_messages) == batch);
            assert forall|idx: int|
                0 <= idx < final_message_list@.len() implies merged_rows_view(
                final_message_list@,
            )[idx] == spec_out[idx] by {
                assert(merged_rows_view(final_message_list@)[idx] == final_message_list@[idx]@);
                assert(final_message_list@[idx]@ == merge_row(
                    find_match(batch, page@[idx]@.message_broadcast_id),
                    page@[idx]@,
                ));
                assert(pv[idx] == page@[idx]@);
            }
            assert(merged_rows_view(final_message_list@) =~= spec_out);
            lemma_page_of_qualifies(self@, all, viewer, cursor, n_spec);
            lemma_page_of_sorted(self@, all, viewer, cursor, n_spec);
            assert forall|idx: int|
                0 <= idx < final_message_list@.len() implies (#[trigger] final_message_list@[idx])@.updated_at
                < cursor && has_follow(
                self@.follows,
                viewer,
                final_message_list@[idx]@.user_id,
            ) by {
                assert(final_message_list@[idx]@.updated_at == pv[idx].updated_at);
                assert(pv[idx] == with_profile(self@, raw[idx]));
                assert(qualifies(self@, raw[idx], viewer, cursor));
            }
            assert forall|idx: int, jdx: int|
                0 <= idx < jdx < final_message_list@.len() implies (
            #[trigger] final_message_list@[idx])@.updated_at > (
            #[trigger] final_message_list@[jdx])@.updated_at by {
                assert(final_message_list@[idx]@.updated_at == pv[idx].updated_at);
                assert(pv[idx] == with_profile(self@, raw[idx]));
                assert(final_message_list@[jdx]@.updated_at == pv[jdx].updated_at);
                assert(pv[jdx] == with_profile(self@, raw[jdx]));
                assert(raw[idx].updated_at > raw[jdx].updated_at);
            }
        }
        final_message_list
    }
}

} // verus!
