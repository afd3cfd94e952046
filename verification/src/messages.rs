//! Messages passed between the chat client, the overlay registry and the overlay sockets.
use vstd::prelude::*;
use crate::encoding::{json_string, json_quote, json_unescape, law_json_quote_reads_back, push_str};

verus! {

/// Asks for the stored chat-client token.
pub struct GetToken;

/// Join the chat of the channel with this login.
pub struct JoinMessage(pub String);

/// Join the chats of all these channels.
pub struct JoinAllMessage(pub Vec<String>);

/// Leave the chat of the channel with this login.
pub struct PartMessage(pub String);

/// A socket session ended; the number is its session id.
pub struct Disconnect(pub usize);

/// The overlay with this id was deleted.
pub struct DeleteOverlay(pub i32);

/// The secret of the overlay with this id was reset: the sockets opened with the old secret
/// close.
pub struct CloseOverlay(pub i32);

/// A command from the chat of a channel for that channel's overlays.
pub struct OverlayCommand {
    pub channel_login: String,
    pub data: OverlayCommandData,
}

/// What an overlay is told to do.
#[derive(Clone)]
pub enum OverlayCommandData {
    /// Show the image at this link.
    Image(String),
}

/// A command sent to one overlay socket.
pub struct Outgoing(pub OverlayCommandData);

/// Close an overlay socket.
pub struct CloseSock;

/// The JSON text of a command as the overlay reads it: `{"type":"Image","content":<link>}`.
pub open spec fn command_json(data: OverlayCommandData) -> Seq<char> {
    match data {
        OverlayCommandData::Image(link) => "{\"type\":\"Image\",\"content\":"@ + json_quote(link@)
            + "}"@,
    }
}

impl OverlayCommandData {
    /// The command as JSON, tagged by its kind under `type` with its value under `content`.
    /// Every command can be written, so the result is always `Some`.
    pub fn to_json(&self) -> (r: Option<String>)
        ensures
            r is Some,
            r matches Some(s) ==> s@ == command_json(*self),
    {
        match self {
            OverlayCommandData::Image(link) => {
                match json_string(link.as_str()) {
                    Some(q) => {
                        let mut out = "{\"type\":\"Image\",\"content\":".to_owned();
                        push_str(&mut out, q.as_str());
                        push_str(&mut out, "}");
                        Some(out)
                    },
                    None => None,
                }
            },
        }
    }
}

/// An image command carries the whole link: its text is `{"type":"Image","content":"`, then a
/// body that a JSON reader reads back as exactly the link (whatever it holds: `?`, `=`, `%`,
/// quotes or control characters), then `"}`.
pub proof fn law_command_carries_whole_link(link: String)
    ensures
        ({
            let t = command_json(OverlayCommandData::Image(link));
            let head = "{\"type\":\"Image\",\"content\":\""@;
            &&& t.len() >= head.len() + 2
            &&& t.take(head.len() as int) == head
            &&& t.skip(t.len() - 2) == "\"}"@
            &&& json_unescape(t.subrange(head.len() as int, t.len() - 2)) == link@
        }),
{
    reveal_strlit("{\"type\":\"Image\",\"content\":");
    reveal_strlit("{\"type\":\"Image\",\"content\":\"");
    reveal_strlit("}");
    reveal_strlit("\"}");
    let t = command_json(OverlayCommandData::Image(link));
    let q = json_quote(link@);
    law_json_quote_reads_back(link@);
    let head = "{\"type\":\"Image\",\"content\":\""@;
    assert(t.take(head.len() as int) =~= head);
    assert(t.skip(t.len() - 2) =~= "\"}"@);
    assert(t.subrange(head.len() as int, t.len() - 2) =~= q.subrange(1, q.len() - 1));
}

} // verus!
