//! The stored records: overlays and users.
use vstd::prelude::*;
use crate::messages::OverlayCommandData;

verus! {

/// An overlay of a channel, created by a user, reachable with its secret.
pub struct Overlay {
    pub id: i32,
    /// Id of the user who created it.
    pub created_by: String,
    /// Login of the channel it is for.
    pub for_user: String,
    /// The secret in the overlay's link.
    pub secret: String,
    /// The image shown last (kept for reloads).
    pub last_image: Option<String>,
}

/// The image an overlay keeps after showing `data`.
pub open spec fn shown_image(data: OverlayCommandData) -> Seq<char> {
    match data {
        OverlayCommandData::Image(link) => link@,
    }
}

impl Overlay {
    /// Records that the overlay shows `data`, so that a reload shows it again: the image
    /// becomes the overlay's last image; nothing else changes.
    pub fn remember(&mut self, data: &OverlayCommandData)
        ensures
            final(self).last_image matches Some(l) && l@ == shown_image(*data),
            final(self).id == old(self).id,
            final(self).created_by == old(self).created_by,
            final(self).for_user == old(self).for_user,
            final(self).secret == old(self).secret,
    {
        match data {
            OverlayCommandData::Image(link) => {
                self.last_image = Some(link.clone());
            },
        }
    }
}

/// A user who logged in, with their tokens.
pub struct User {
    pub id: String,
    pub name: String,
    pub access_token: String,
    pub refresh_token: String,
    pub scopes: String,
}

} // verus!
