//! Message rows, link rows, and the composite read shapes the feed returns.

use vstd::prelude::*;

use crate::colview::{opt_bytes_view, opt_count_view, opt_id_view, opt_str_view};

verus! {

/// Mathematical view of a message row.
pub ghost struct MessageView {
    pub id: int,
    pub created_at: int,
    pub updated_at: int,
    pub user_id: int,
    pub body: Option<Seq<char>>,
    pub image: Option<Seq<u8>>,
    pub likes: int,
}

/// A message row as stored in and read back from the entity store.
pub struct MessageQueryResult {
    pub id: i64,
    pub created_at: i64,
    pub updated_at: i64,
    pub user_id: i64,
    pub body: Option<String>,
    pub image: Option<Vec<u8>>,
    pub likes: i32,
}

impl View for MessageQueryResult {
    type V = MessageView;

    open spec fn view(&self) -> MessageView {
        MessageView {
            id: self.id as int,
            created_at: self.created_at as int,
            updated_at: self.updated_at as int,
            user_id: self.user_id as int,
            body: opt_str_view(self.body),
            image: opt_bytes_view(self.image),
            likes: self.likes as int,
        }
    }
}

/// Mathematical view of a broadcast link row.
pub ghost struct MessageBroadcastView {
    pub id: int,
    pub main_msg_id: int,
    pub broadcasting_msg_id: int,
}

/// A broadcast link row: `main_msg_id` is the message that quotes,
/// `broadcasting_msg_id` the message being quoted.
pub struct MessageBroadcast {
    pub id: i64,
    pub main_msg_id: i64,
    pub broadcasting_msg_id: i64,
}

impl View for MessageBroadcast {
    type V = MessageBroadcastView;

    open spec fn view(&self) -> MessageBroadcastView {
        MessageBroadcastView {
            id: self.id as int,
            main_msg_id: self.main_msg_id as int,
            broadcasting_msg_id: self.broadcasting_msg_id as int,
        }
    }
}

/// Mathematical view of a response link row.
pub ghost struct MessageResponseView {
    pub id: int,
    pub original_msg_id: int,
    pub responding_msg_id: int,
}

/// A response link row: `responding_msg_id` replies to `original_msg_id`.
pub struct MessageResponse {
    pub id: i64,
    pub original_msg_id: i64,
    pub responding_msg_id: i64,
}

impl View for MessageResponse {
    type V = MessageResponseView;

    open spec fn view(&self) -> MessageResponseView {
        MessageResponseView {
            id: self.id as int,
            original_msg_id: self.original_msg_id as int,
            responding_msg_id: self.responding_msg_id as int,
        }
    }
}

/// Mathematical view of a message joined with its author's profile.
/// `message_broadcast_id` carries the id of the broadcast link row this row is
/// associated with: for a page row, its own outgoing link; for a resolved
/// broadcast-target row, the link it was resolved through.
pub ghost struct MessageWithProfileView {
    pub id: int,
    pub updated_at: int,
    pub body: Option<Seq<char>>,
    pub likes: int,
    pub image: Option<Seq<u8>>,
    pub user_id: int,
    pub user_name: Seq<char>,
    pub full_name: Seq<char>,
    pub avatar: Option<Seq<u8>>,
    pub message_broadcast_id: Option<int>,
}

/// A message row joined with its author's profile columns, plus the id of the
/// broadcast link row it is associated with, when there is one.
pub struct MessageWithProfileQueryResult {
    pub id: i64,
    pub updated_at: i64,
    pub body: Option<String>,
    pub likes: i32,
    pub image: Option<Vec<u8>>,
    pub user_id: i64,
    pub user_name: String,
    pub full_name: String,
    pub avatar: Option<Vec<u8>>,
    pub message_broadcast_id: Option<i64>,
}

impl View for MessageWithProfileQueryResult {
    type V = MessageWithProfileView;

    open spec fn view(&self) -> MessageWithProfileView {
        MessageWithProfileView {
            id: self.id as int,
            updated_at: self.updated_at as int,
            body: opt_str_view(self.body),
            likes: self.likes as int,
            image: opt_bytes_view(self.image),
            user_id: self.user_id as int,
            user_name: self.user_name@,
            full_name: self.full_name@,
            avatar: opt_bytes_view(self.avatar),
            message_broadcast_id: opt_id_view(self.message_broadcast_id),
        }
    }
}

/// Mathematical view of a fully merged feed row.
pub ghost struct MessageWithBroadcastView {
    pub id: int,
    pub updated_at: int,
    pub body: Option<Seq<char>>,
    pub likes: int,
    pub image: Option<Seq<u8>>,
    pub user_id: int,
    pub user_name: Seq<char>,
    pub full_name: Seq<char>,
    pub avatar: Option<Seq<u8>>,
    pub message_broadcast_id: Option<int>,
    pub message_broadcast_updated_at: Option<int>,
    pub message_broadcast_body: Option<Seq<char>>,
    pub message_broadcast_likes: Option<int>,
    pub message_broadcast_image: Option<Seq<u8>>,
    pub message_broadcast_user_id: Option<int>,
    pub message_broadcast_user_name: Option<Seq<char>>,
    pub message_broadcast_full_name: Option<Seq<char>>,
    pub message_broadcast_avatar: Option<Seq<u8>>,
}

/// A merged feed row: the primary message with its author's columns, and,
/// when the message broadcasts another one, a parallel set of columns copied
/// from the broadcast target and its author. In a merged row,
/// `message_broadcast_id` is the id of the target message itself.
pub struct MessageWithFollowingAndBroadcastQueryResult {
    pub id: i64,
    pub updated_at: i64,
    pub body: Option<String>,
    pub likes: i32,
    pub image: Option<Vec<u8>>,
    pub user_id: i64,
    pub user_name: String,
    pub full_name: String,
    pub avatar: Option<Vec<u8>>,
    pub message_broadcast_id: Option<i64>,
    pub message_broadcast_updated_at: Option<i64>,
    pub message_broadcast_body: Option<String>,
    pub message_broadcast_likes: Option<i32>,
    pub message_broadcast_image: Option<Vec<u8>>,
    pub message_broadcast_user_id: Option<i64>,
    pub message_broadcast_user_name: Option<String>,
    pub message_broadcast_full_name: Option<String>,
    pub message_broadcast_avatar: Option<Vec<u8>>,
}

impl View for MessageWithFollowingAndBroadcastQueryResult {
    type V = MessageWithBroadcastView;

    open spec fn view(&self) -> MessageWithBroadcastView {
        MessageWithBroadcastView {
            id: self.id as int,
            updated_at: self.updated_at as int,
            body: opt_str_view(self.body),
            likes: self.likes as int,
            image: opt_bytes_view(self.image),
            user_id: self.user_id as int,
            user_name: self.user_name@,
            full_name: self.full_name@,
            avatar: opt_bytes_view(self.avatar),
            message_broadcast_id: opt_id_view(self.message_broadcast_id),
            message_broadcast_updated_at: opt_id_view(self.message_broadcast_updated_at),
            message_broadcast_body: opt_str_view(self.message_broadcast_body),
            message_broadcast_likes: opt_count_view(self.message_broadcast_likes),
            message_broadcast_image: opt_bytes_view(self.message_broadcast_image),
            message_broadcast_user_id: opt_id_view(self.message_broadcast_user_id),
            message_broadcast_user_name: opt_str_view(self.message_broadcast_user_name),
            message_broadcast_full_name: opt_str_view(self.message_broadcast_full_name),
            message_broadcast_avatar: opt_bytes_view(self.message_broadcast_avatar),
        }
    }
}

/// The body of a create-message request, as handed in by the transport layer.
pub struct CreateMessage {
    pub user_id: i64,
    pub body: String,
    pub broadcasting_msg_id: Option<i64>,
}

} // verus!
