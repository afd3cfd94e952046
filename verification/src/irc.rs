//! Decisions on chat messages: which messages command an image change, and what the chat is
//! answered.
use vstd::prelude::*;
use vstd::utf8::encode_utf8;
use crate::text::{same_text, starts_with_text};
use crate::chat::{opt_next_space, next_space_split};
use crate::cooldown::{CooldownTracker, cooldown_step};
use crate::images::{check_image_url, wrap_proxy, url_parse, url_error_text, is_image_path, ImageUrlError};
use crate::encoding::{url_encoded, percent_decode, law_url_encoded_reads_back, push_str};

verus! {

/// A chat message as the decisions read it.
pub struct ChatMessage {
    /// Login of the channel the message was sent in.
    pub channel_login: String,
    /// The message text.
    pub message_text: String,
    /// Names of the sender's badges.
    pub badges: Vec<String>,
}

/// What to do about a chat message.
pub enum ChatAction {
    /// Nothing.
    Ignore,
    /// Check this image link and, if it passes, show it on the channel's overlays.
    ChangeImage(String),
}

/// Whether a badge list marks the channel's broadcaster or a moderator.
pub open spec fn is_privileged(badges: Seq<Seq<char>>) -> bool {
    exists|i: int| 0 <= i < badges.len() && (badges[i] == "broadcaster"@ || badges[i] == "moderator"@)
}

/// Whether a message is considered as a command at all: it starts with `::`, is at least four
/// bytes long, and comes from the broadcaster or a moderator.
pub open spec fn is_command_candidate(text: Seq<char>, badges: Seq<Seq<char>>) -> bool {
    &&& text.len() >= 2 && text[0] == ':' && text[1] == ':'
    &&& encode_utf8(text).len() >= 4
    &&& is_privileged(badges)
}

/// The image link of an `::img <link> ...` command: the first word after `img`.
pub open spec fn image_argument(text: Seq<char>) -> Option<Seq<char>> {
    let (command, args) = next_space_split(text.skip(2));
    if command == "img"@ && args is Some {
        Some(next_space_split(args->0).0)
    } else {
        None
    }
}

/// The badge names of a message, as character sequences.
pub open spec fn badge_names(badges: Seq<String>) -> Seq<Seq<char>> {
    badges.map_values(|b: String| b@)
}

fn privileged(badges: &Vec<String>) -> (r: bool)
    ensures
        r == is_privileged(badge_names(badges@)),
{
    let n = badges.len();
    let mut i: usize = 0;
    while i < n
        invariant
            n == badges@.len(),
            i <= n,
            forall|j: int| 0 <= j < i ==> !(#[trigger] badges@[j]@ == "broadcaster"@ || badges@[j]@ == "moderator"@),
        decreases n - i,
    {
        if same_text(badges[i].as_str(), "broadcaster") || same_text(badges[i].as_str(), "moderator") {
            assert(badge_names(badges@)[i as int] == badges@[i as int]@);
            return true;
        }
        i = i + 1;
    }
    assert forall|j: int| 0 <= j < badge_names(badges@).len() implies !(badge_names(badges@)[j] == "broadcaster"@ || badge_names(badges@)[j] == "moderator"@) by {
        assert(badge_names(badges@)[j] == badges@[j]@);
    }
    false
}

/// Decides on a chat message received at `now` (nanoseconds on a monotonic clock). A message
/// that is no command candidate is ignored and leaves the cooldowns alone. A candidate is
/// checked against the channel's cooldown (which it renews when it passes); if it passes and
/// is `::img <link>`, the first word after `img` is the image link to show.
pub fn handle_chat_message(cooldowns: &mut CooldownTracker, msg: &ChatMessage, now: u64) -> (r: ChatAction)
    requires
        old(cooldowns).wf(),
    ensures
        final(cooldowns).wf(),
        !is_command_candidate(msg.message_text@, badge_names(msg.badges@)) ==> {
            &&& r is Ignore
            &&& final(cooldowns).view() == old(cooldowns).view()
        },
        is_command_candidate(msg.message_text@, badge_names(msg.badges@)) ==> {
            let (ok, after) = cooldown_step(old(cooldowns).view(), msg.channel_login@, now);
            &&& final(cooldowns).view() == after
            &&& (ok && image_argument(msg.message_text@) is Some) ==> (r matches ChatAction::ChangeImage(link) && link@ == image_argument(msg.message_text@)->0)
            &&& !(ok && image_argument(msg.message_text@) is Some) ==> r is Ignore
        },
{
    let text = msg.message_text.as_str();
    proof {
        reveal_strlit("::");
        reveal_strlit("img");
    }
    let starts = starts_with_text(text, "::");
    assert(starts == (text@.len() >= 2 && text@[0] == ':' && text@[1] == ':')) by {
        if text@.len() >= 2 {
            if text@[0] == ':' && text@[1] == ':' {
                assert(text@.take(2) =~= "::"@);
            }
            if starts {
                assert(text@.take(2)[0] == text@[0]);
                assert(text@.take(2)[1] == text@[1]);
            }
        }
    }
    if !starts || text.as_bytes().len() < 4 || !privileged(&msg.badges) {
        return ChatAction::Ignore;
    }
    if !cooldowns.check_update_cooldown(msg.channel_login.as_str(), now) {
        return ChatAction::Ignore;
    }
    let n = text.unicode_len();
    let rest = text.substring_char(2, n);
    assert(rest@ =~= text@.skip(2));
    let (command, args) = opt_next_space(rest);
    match args {
        Some(args) => {
            if same_text(command, "img") {
                let (image, _) = opt_next_space(args);
                ChatAction::ChangeImage(image.to_owned())
            } else {
                ChatAction::Ignore
            }
        },
        None => ChatAction::Ignore,
    }
}

/// What the chat is answered about an image link, or the proxied link to show.
pub enum ImagePlan {
    /// Answer the chat with this text; nothing is shown.
    Reply(String),
    /// Show the image at this (proxied) link.
    Show(String),
}

/// The proxied link of an accepted image.
pub open spec fn proxied_link(proxy: Seq<char>, image: Seq<char>) -> Seq<char> {
    proxy + "/?url="@ + url_encoded(image)
}

/// Longest proxied link (in UTF-8 bytes) that can be stored, plus one.
pub const MAX_LINK_BYTES: usize = 255;

/// Plans an image change: a link that is no URL, or has no accepted image extension, is answered
/// with `Bad image: <reason>`; an accepted link is routed through the proxy at `proxy`; a
/// proxied link of 255 bytes or more is answered with `Link is too long`; otherwise the proxied
/// link is shown.
pub fn plan_image_change(image: &str, proxy: &str) -> (r: ImagePlan)
    ensures
        url_parse(image@) matches Err(e) ==> (r matches ImagePlan::Reply(t) && t@ == "Bad image: "@ + url_error_text(e)),
        url_parse(image@) matches Ok(p) && !is_image_path(p) ==> (r matches ImagePlan::Reply(t) && t@ == "Bad image: Extension not found or whitelisted"@),
        url_parse(image@) matches Ok(p) && is_image_path(p) ==> {
            let link = proxied_link(proxy@, image@);
            &&& encode_utf8(link).len() >= MAX_LINK_BYTES ==> (r matches ImagePlan::Reply(t) && t@ == "Link is too long"@)
            &&& encode_utf8(link).len() < MAX_LINK_BYTES ==> (r matches ImagePlan::Show(l) && l@ == link)
        },
{
    match check_image_url(image) {
        Err(e) => {
            let mut t = "Bad image: ".to_owned();
            let m = e.message();
            push_str(&mut t, m.as_str());
            proof {
                reveal_strlit("Bad image: ");
                reveal_strlit("Extension not found or whitelisted");
                reveal_strlit("Bad image: Extension not found or whitelisted");
                if e is ExtensionNotAllowed {
                    assert(t@ =~= "Bad image: Extension not found or whitelisted"@);
                }
            }
            ImagePlan::Reply(t)
        },
        Ok(()) => {
            let link = wrap_proxy(proxy, image);
            if link.as_str().as_bytes().len() >= MAX_LINK_BYTES {
                ImagePlan::Reply("Link is too long".to_owned())
            } else {
                ImagePlan::Show(link)
            }
        },
    }
}

/// The answer to the chat once the command was handed to the overlays (`delivered`) or could
/// not be (`Too much traffic`).
pub fn delivery_reply(delivered: bool) -> (r: String)
    ensures
        delivered ==> r@ == "Ok"@,
        !delivered ==> r@ == "Too much traffic"@,
{
    if delivered {
        "Ok".to_owned()
    } else {
        "Too much traffic".to_owned()
    }
}

/// A moderator or the broadcaster may send commands whatever other badges they wear: a message
/// starting with `::`, at least four bytes long, whose sender has the `moderator` or
/// `broadcaster` badge at any place in the list, is a command candidate.
pub proof fn law_privileged_badge_anywhere(text: Seq<char>, badges: Seq<Seq<char>>, i: int)
    requires
        0 <= i < badges.len(),
        badges[i] == "moderator"@ || badges[i] == "broadcaster"@,
        text.len() >= 2 && text[0] == ':' && text[1] == ':',
        encode_utf8(text).len() >= 4,
    ensures
        is_command_candidate(text, badges),
        is_command_candidate(text, badges.push("subscriber"@)),
        is_command_candidate(text, seq!["subscriber"@] + badges),
{
    let b1 = badges.push("subscriber"@);
    assert(b1[i] == badges[i]);
    let b2 = seq!["subscriber"@] + badges;
    assert(b2[i + 1] == badges[i]);
}

/// Only the broadcaster and moderators may send commands: a sender with neither badge anywhere
/// in the list sends no command candidate.
pub proof fn law_unprivileged_ignored(text: Seq<char>, badges: Seq<Seq<char>>)
    requires
        forall|i: int| 0 <= i < badges.len() ==> badges[i] != "moderator"@ && badges[i] != "broadcaster"@,
    ensures
        !is_command_candidate(text, badges),
{
}

/// Privilege does not depend on the order of the badges: swapping two parts of the list keeps
/// it.
pub proof fn law_privilege_ignores_order(a: Seq<Seq<char>>, b: Seq<Seq<char>>)
    ensures
        is_privileged(a + b) == is_privileged(b + a),
{
    if is_privileged(a + b) {
        let i = choose|i: int| 0 <= i < (a + b).len() && ((a + b)[i] == "broadcaster"@ || (a + b)[i] == "moderator"@);
        if i < a.len() {
            assert((b + a)[b.len() + i] == (a + b)[i]);
        } else {
            assert((b + a)[i - a.len()] == (a + b)[i]);
        }
    }
    if is_privileged(b + a) {
        let i = choose|i: int| 0 <= i < (b + a).len() && ((b + a)[i] == "broadcaster"@ || (b + a)[i] == "moderator"@);
        if i < b.len() {
            assert((a + b)[a.len() + i] == (b + a)[i]);
        } else {
            assert((a + b)[i - b.len()] == (b + a)[i]);
        }
    }
}

/// The proxy is sent the whole image link: a proxied link is the proxy's address, then
/// `/?url=`, then a parameter that reads back (percent-decoded) as exactly the UTF-8 bytes of the
/// link, its query and fragment included.
pub proof fn law_proxied_link_carries_whole_link(proxy: Seq<char>, image: Seq<char>)
    ensures
        ({
            let l = proxied_link(proxy, image);
            &&& l.len() >= proxy.len() + 6
            &&& l.take(proxy.len() as int) == proxy
            &&& l.subrange(proxy.len() as int, proxy.len() + 6int) == "/?url="@
            &&& percent_decode(l.skip(proxy.len() + 6int)) == encode_utf8(image)
        }),
{
    reveal_strlit("/?url=");
    let l = proxied_link(proxy, image);
    law_url_encoded_reads_back(image);
    assert(l.take(proxy.len() as int) =~= proxy);
    assert(l.subrange(proxy.len() as int, proxy.len() + 6int) =~= "/?url="@);
    assert(l.skip(proxy.len() + 6int) =~= url_encoded(image));
}

} // verus!
