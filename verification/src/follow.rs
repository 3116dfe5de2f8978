//! Follow edges: who sees whose messages in their feed.

use vstd::prelude::*;

verus! {

/// Mathematical view of a follow edge.
pub ghost struct FollowView {
    pub id: int,
    pub created_at: int,
    pub updated_at: int,
    pub follower_id: int,
    pub following_id: int,
}

/// A follow edge: `follower_id`'s feed shows messages by `following_id`.
#[derive(Clone, Copy)]
pub struct Follow {
    pub id: i64,
    pub created_at: i64,
    pub updated_at: i64,
    pub follower_id: i64,
    pub following_id: i64,
}

impl View for Follow {
    type V = FollowView;

    open spec fn view(&self) -> FollowView {
        FollowView {
            id: self.id as int,
            created_at: self.created_at as int,
            updated_at: self.updated_at as int,
            follower_id: self.follower_id as int,
            following_id: self.following_id as int,
        }
    }
}

} // verus!
