//! Profile rows and the request shapes that create them.

use vstd::prelude::*;

use crate::colview::{opt_bytes_view, opt_str_view};

verus! {

/// Mathematical view of a profile row: identifiers as unbounded integers,
/// text as character sequences, binary columns as byte sequences.
pub ghost struct ProfileView {
    pub id: int,
    pub created_at: int,
    pub updated_at: int,
    pub user_name: Seq<char>,
    pub full_name: Seq<char>,
    pub description: Seq<char>,
    pub region: Option<Seq<char>>,
    pub main_url: Option<Seq<char>>,
    pub avatar: Option<Seq<u8>>,
}

/// A profile row as stored in and read back from the entity store.
pub struct ProfileQueryResult {
    pub id: i64,
    pub created_at: i64,
    pub updated_at: i64,
    pub user_name: String,
    pub full_name: String,
    pub description: String,
    pub region: Option<String>,
    pub main_url: Option<String>,
    pub avatar: Option<Vec<u8>>,
}

impl View for ProfileQueryResult {
    type V = ProfileView;

    open spec fn view(&self) -> ProfileView {
        ProfileView {
            id: self.id as int,
            created_at: self.created_at as int,
            updated_at: self.updated_at as int,
            user_name: self.user_name@,
            full_name: self.full_name@,
            description: self.description@,
            region: opt_str_view(self.region),
            main_url: opt_str_view(self.main_url),
            avatar: opt_bytes_view(self.avatar),
        }
    }
}

/// The columns a caller supplies when creating a profile; the store fills in
/// the id and the timestamps.
pub struct NewProfile {
    pub user_name: String,
    pub full_name: String,
    pub description: String,
    pub region: Option<String>,
    pub main_url: Option<String>,
    pub avatar: Option<Vec<u8>>,
}

/// The body of a create-profile request, as handed in by the transport layer.
pub struct CreateProfile {
    pub user_name: String,
    pub full_name: String,
    pub description: String,
    pub region: Option<String>,
    pub main_url: Option<String>,
    pub avatar: Option<Vec<u8>>,
}

/// Turns a create-profile request into the row columns the store inserts,
/// field for field.
pub fn convert_new_profile(create_profile: CreateProfile) -> (r: NewProfile)
    ensures
        r.user_name == create_profile.user_name,
        r.full_name == create_profile.full_name,
        r.description == create_profile.description,
        r.region == create_profile.region,
        r.main_url == create_profile.main_url,
        r.avatar == create_profile.avatar,
{
    NewProfile {
        user_name: create_profile.user_name,
        full_name: create_profile.full_name,
        description: create_profile.description,
        region: create_profile.region,
        main_url: create_profile.main_url,
        avatar: create_profile.avatar,
    }
}

/// The authenticated caller, as middleware would attach it to a request.
pub struct CurrentUser {
    pub user_name: String,
    pub full_name: String,
}

} // verus!
