//! Rendering of one change event into the markup fragment delivered to a
//! subscriber. The fragment differs between subscribers only in the
//! ownership flag: whether the message's author is the viewer itself.

use vstd::prelude::*;

use crate::clock;
use crate::ids;
use crate::text;

verus! {

/// A message entity as fetched from the store, with the author's display
/// name joined in.
pub struct Message {
    /// Identifier of the message; the forms in use embed the creation
    /// time.
    pub id: u128,
    /// The message body as typed by the author.
    pub content: String,
    /// When the message was last written, in milliseconds since the Unix
    /// epoch.
    pub updated_ms: i64,
    /// Identifier of the authoring viewer.
    pub author: u128,
    /// Display name of the authoring viewer.
    pub author_name: String,
}

/// Why a message could not be rendered for delivery.
#[derive(Debug, PartialEq, Eq, Structural)]
pub enum RenderError {
    /// The message's identifier carries no creation time, so the header's
    /// timestamp cannot be derived.
    NoTimestampFromId { id: u128 },
}

/// The offset of the creation time from the present, in milliseconds,
/// confined to the range that a signed duration accepts.
pub open spec fn clamped_delta(created: u64, now: i64) -> i64 {
    let d = created - now;
    if d > i64::MAX {
        i64::MAX
    } else if d < -i64::MAX {
        (-i64::MAX) as i64
    } else {
        d as i64
    }
}

/// The path under which one message is addressed.
pub open spec fn msg_path(server_id: u128, channel_id: u128, id: u128) -> Seq<char> {
    "/servers/"@ + ids::id_seq(server_id) + "/channels/"@ + ids::id_seq(channel_id)
        + "/messages/"@ + ids::id_seq(id)
}

/// The opening tag of the rendered fragment.
pub open spec fn li_open(is_author: bool, id: u128, swap_oob: bool) -> Seq<char> {
    "<li class=\"group chat "@ + (if is_author {
        "chat-end"@
    } else {
        "chat-start"@
    }) + "\" id=\"msg-"@ + ids::id_seq(id) + (if swap_oob {
        "\" hx-swap-oob=\"true\">"@
    } else {
        "\">"@
    })
}

/// The header of the rendered fragment: an edit marker when the message
/// was written again after its creation, the author's name, and the
/// creation time in machine-readable and relative form.
pub open spec fn header_part(msg: Message, now: i64) -> Seq<char> {
    let created = ids::creation_ms(msg.id) as u64;
    "<div class=\"chat-header\">"@ + (if msg.updated_ms > created {
        "<span class=\"italic text-xs opacity-50\">Edited </span>"@
    } else {
        Seq::<char>::empty()
    }) + text::html_escaped(msg.author_name@) + " <time class=\"text-xs opacity-50\" datetime=\""@
        + clock::rfc3339_of(created) + "\">"@ + clock::relative_of(clamped_delta(created, now))
        + "</time></div>"@
}

/// The message body of the rendered fragment.
pub open spec fn bubble_part(is_author: bool, content: Seq<char>) -> Seq<char> {
    "<div class=\""@ + (if is_author {
        "chat-bubble chat-bubble-primary"@
    } else {
        "chat-bubble"@
    }) + "\">"@ + text::html_escaped(content) + "</div>"@
}

/// The footer of the rendered fragment: an edit control for the author
/// alone, and a delete control.
pub open spec fn footer_part(is_author: bool, server_id: u128, channel_id: u128, id: u128) -> Seq<
    char,
> {
    "<div class=\"chat-footer transition-opacity\" hx-target=\"closest li\" hx-swap=\"outerHTML\">"@
        + (if is_author {
        "<button class=\"link mr-2 opacity-0 group-hover:opacity-100\" hx-get=\""@ + msg_path(
            server_id,
            channel_id,
            id,
        ) + "/editable\">Edit</button>"@
    } else {
        Seq::<char>::empty()
    }) + "<button class=\"link link-error opacity-0 group-hover:opacity-100\" hx-delete=\""@
        + msg_path(server_id, channel_id, id) + "\" hx-confirm=\"Are you sure?\">Delete</button></div>"@
}

/// The whole fragment rendered for one subscriber.
pub open spec fn spec_render_message(
    msg: Message,
    user_id: u128,
    channel_id: u128,
    server_id: u128,
    swap_oob: bool,
    now: i64,
) -> Seq<char> {
    let is_author = msg.author == user_id;
    li_open(is_author, msg.id, swap_oob) + header_part(msg, now) + bubble_part(
        is_author,
        msg.content@,
    ) + footer_part(is_author, server_id, channel_id, msg.id) + "</li>"@
}

/// The fragment that instructs a viewer to remove a deleted message.
pub open spec fn spec_render_deleted(id: u128) -> Seq<char> {
    "<div id=\"msg-"@ + ids::id_seq(id) + "\" hx-swap-oob=\"delete\"></div>"@
}

fn push_li_open(out: &mut Vec<char>, is_author: bool, id: u128, swap_oob: bool)
    ensures
        final(out)@ == old(out)@ + li_open(is_author, id, swap_oob),
{
    text::push_str(out, "<li class=\"group chat ");
    if is_author {
        text::push_str(out, "chat-end");
    } else {
        text::push_str(out, "chat-start");
    }
    text::push_str(out, "\" id=\"msg-");
    let idc = ids::id_chars(id);
    text::push_chars(out, &idc);
    if swap_oob {
        text::push_str(out, "\" hx-swap-oob=\"true\">");
    } else {
        text::push_str(out, "\">");
    }
    assert(out@ =~= old(out)@ + li_open(is_author, id, swap_oob));
}

fn push_header(out: &mut Vec<char>, msg: &Message, created: u64, now_ms: i64)
    requires
        created == ids::creation_ms(msg.id),
        created <= 0x68db8bac710cb,
    ensures
        final(out)@ == old(out)@ + header_part(*msg, now_ms),
{
    text::push_str(out, "<div class=\"chat-header\">");
    if msg.updated_ms > created as i64 {
        text::push_str(out, "<span class=\"italic text-xs opacity-50\">Edited </span>");
    }
    text::push_escaped(out, msg.author_name.as_str());
    text::push_str(out, " <time class=\"text-xs opacity-50\" datetime=\"");
    let ts = clock::rfc3339_utc(created);
    text::push_str(out, ts.as_str());
    text::push_str(out, "\">");
    let d: i128 = created as i128 - now_ms as i128;
    let delta: i64 = if d > i64::MAX as i128 {
        i64::MAX
    } else if d < -(i64::MAX as i128) {
        -i64::MAX
    } else {
        d as i64
    };
    assert(delta == clamped_delta(created, now_ms));
    let rel = clock::relative_phrase(delta);
    text::push_str(out, rel.as_str());
    text::push_str(out, "</time></div>");
    assert(out@ =~= old(out)@ + header_part(*msg, now_ms));
}

fn push_bubble(out: &mut Vec<char>, is_author: bool, content: &str)
    ensures
        final(out)@ == old(out)@ + bubble_part(is_author, content@),
{
    text::push_str(out, "<div class=\"");
    if is_author {
        text::push_str(out, "chat-bubble chat-bubble-primary");
    } else {
        text::push_str(out, "chat-bubble");
    }
    text::push_str(out, "\">");
    text::push_escaped(out, content);
    text::push_str(out, "</div>");
    assert(out@ =~= old(out)@ + bubble_part(is_author, content@));
}

fn push_msg_path(out: &mut Vec<char>, server_id: u128, channel_id: u128, id: u128)
    ensures
        final(out)@ == old(out)@ + msg_path(server_id, channel_id, id),
{
    text::push_str(out, "/servers/");
    let s = ids::id_chars(server_id);
    text::push_chars(out, &s);
    text::push_str(out, "/channels/");
    let c = ids::id_chars(channel_id);
    text::push_chars(out, &c);
    text::push_str(out, "/messages/");
    let m = ids::id_chars(id);
    text::push_chars(out, &m);
    assert(out@ =~= old(out)@ + msg_path(server_id, channel_id, id));
}

fn push_footer(out: &mut Vec<char>, is_author: bool, server_id: u128, channel_id: u128, id: u128)
    ensures
        final(out)@ == old(out)@ + footer_part(is_author, server_id, channel_id, id),
{
    text::push_str(
        out,
        "<div class=\"chat-footer transition-opacity\" hx-target=\"closest li\" hx-swap=\"outerHTML\">",
    );
    if is_author {
        text::push_str(out, "<button class=\"link mr-2 opacity-0 group-hover:opacity-100\" hx-get=\"");
        push_msg_path(out, server_id, channel_id, id);
        text::push_str(out, "/editable\">Edit</button>");
    }
    text::push_str(out, "<button class=\"link link-error opacity-0 group-hover:opacity-100\" hx-delete=\"");
    push_msg_path(out, server_id, channel_id, id);
    text::push_str(out, "\" hx-confirm=\"Are you sure?\">Delete</button></div>");
    assert(out@ =~= old(out)@ + footer_part(is_author, server_id, channel_id, id));
}

/// Render one message for one subscriber.
///
/// The fragment depends on the subscriber only through the ownership flag
/// `msg.author == user_id`. Fails exactly when the message's identifier
/// carries no embedded creation time.
pub fn render_message(
    msg: &Message,
    user_id: u128,
    channel_id: u128,
    server_id: u128,
    swap_oob: bool,
    now_ms: i64,
) -> (r: Result<String, RenderError>)
    ensures
        r is Ok <==> ids::has_creation_time(msg.id),
        r is Ok ==> r->Ok_0@ == spec_render_message(
            *msg,
            user_id,
            channel_id,
            server_id,
            swap_oob,
            now_ms,
        ),
        r is Err ==> r->Err_0 == (RenderError::NoTimestampFromId { id: msg.id }),
{
    let created = match ids::creation_time_ms(msg.id) {
        Some(ms) => ms,
        None => {
            return Err(RenderError::NoTimestampFromId { id: msg.id });
        },
    };
    let is_author = msg.author == user_id;
    let mut out: Vec<char> = Vec::new();
    push_li_open(&mut out, is_author, msg.id, swap_oob);
    push_header(&mut out, msg, created, now_ms);
    push_bubble(&mut out, is_author, msg.content.as_str());
    push_footer(&mut out, is_author, server_id, channel_id, msg.id);
    text::push_str(&mut out, "</li>");
    assert(out@ =~= spec_render_message(*msg, user_id, channel_id, server_id, swap_oob, now_ms));
    Ok(text::chars_to_string(&out))
}

/// Render the deletion instruction for a message.
///
/// The fragment does not depend on the subscriber: a deletion is delivered
/// identically to every subscriber of the topic.
pub fn render_deleted(id: u128) -> (r: String)
    ensures
        r@ == spec_render_deleted(id),
{
    let mut out: Vec<char> = Vec::new();
    text::push_str(&mut out, "<div id=\"msg-");
    let idc = ids::id_chars(id);
    text::push_chars(&mut out, &idc);
    text::push_str(&mut out, "\" hx-swap-oob=\"delete\"></div>");
    assert(out@ =~= spec_render_deleted(id));
    text::chars_to_string(&out)
}

} // verus!
