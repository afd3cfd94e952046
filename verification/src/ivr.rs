//! Moderator lists of channels, as the IVR API reports them.
use vstd::prelude::*;
use crate::text::same_text;
use crate::encoding::{url_encode, url_encoded, push_str};

verus! {

/// A moderator of a channel.
pub struct Moderator {
    pub id: String,
    pub login: String,
}

/// The moderators and VIPs of a channel (only the moderators are read).
pub struct ModVipResponse {
    pub mods: Vec<Moderator>,
}

/// The IVR address of the moderator list of the channel `login`.
pub open spec fn modvip_url_spec(login: Seq<char>) -> Seq<char> {
    "https://api.ivr.fi/v2/twitch/modvip/"@ + url_encoded(login)
}

/// The IVR address of the moderator list of the channel `login` (percent-encoded).
pub fn modvip_url(login: &str) -> (r: String)
    ensures
        r@ == modvip_url_spec(login@),
{
    let mut r = "https://api.ivr.fi/v2/twitch/modvip/".to_owned();
    let enc = url_encode(login);
    push_str(&mut r, enc.as_str());
    r
}

/// Whether `target` is among the logins of `mods`.
pub open spec fn is_listed(mods: Seq<Moderator>, target: Seq<char>) -> bool {
    exists|i: int| 0 <= i < mods.len() && mods[i].login@ == target
}

/// Whether `target_login` moderates the channel, given the channel's moderator list (`None`
/// where it could not be fetched, which counts as no).
pub fn check_mod(mods: &Option<Vec<Moderator>>, target_login: &str) -> (r: bool)
    ensures
        r == (mods is Some && is_listed(mods->0@, target_login@)),
{
    match mods {
        None => false,
        Some(m) => {
            assert(m@ == mods->0@);
            let n = m.len();
            let mut i: usize = 0;
            while i < n
                invariant
                    mods is Some,
                    m@ == mods->0@,
                    n == m@.len(),
                    i <= n,
                    forall|j: int| 0 <= j < i ==> m@[j].login@ != target_login@,
                decreases n - i,
            {
                if same_text(m[i].login.as_str(), target_login) {
                    assert(m@[i as int].login@ == target_login@);
                    assert(is_listed(m@, target_login@));
                    return true;
                }
                i = i + 1;
            }
            false
        },
    }
}

/// Every moderator in the list counts, not only the first: for each place in the list, the
/// moderator there is confirmed.
pub proof fn law_every_listed_moderator_counts(mods: Seq<Moderator>, i: int)
    requires
        0 <= i < mods.len(),
    ensures
        is_listed(mods, mods[i].login@),
{
}

/// A login that no moderator in the list has is not confirmed.
pub proof fn law_unlisted_login_refused(mods: Seq<Moderator>, target: Seq<char>)
    requires
        forall|i: int| 0 <= i < mods.len() ==> mods[i].login@ != target,
    ensures
        !is_listed(mods, target),
{
}

/// The order of the moderator list does not matter: swapping two parts of it keeps the answer.
pub proof fn law_listing_ignores_order(a: Seq<Moderator>, b: Seq<Moderator>, target: Seq<char>)
    ensures
        is_listed(a + b, target) == is_listed(b + a, target),
{
    if is_listed(a + b, target) {
        let i = choose|i: int| 0 <= i < (a + b).len() && (a + b)[i].login@ == target;
        if i < a.len() {
            assert((b + a)[b.len() + i] == (a + b)[i]);
        } else {
            assert((b + a)[i - a.len()] == (a + b)[i]);
        }
    }
    if is_listed(b + a, target) {
        let i = choose|i: int| 0 <= i < (b + a).len() && (b + a)[i].login@ == target;
        if i < b.len() {
            assert((a + b)[a.len() + i] == (b + a)[i]);
        } else {
            assert((a + b)[i - b.len()] == (b + a)[i]);
        }
    }
}

} // verus!
