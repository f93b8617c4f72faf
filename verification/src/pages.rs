//! Fragments of the server settings pages that neighbour the live feed,
//! and the plain form payloads the HTTP layer fills in.

use vstd::prelude::*;

use crate::ids;
use crate::text;

verus! {

/// A message as submitted through the composer form.
pub struct SentMessage {
    pub content: String,
}

/// A server as submitted through the creation form.
pub struct NewServer {
    pub name: String,
}

/// A channel as submitted through the creation form.
pub struct NewChannel {
    pub name: String,
}

/// Which tab of the settings page is open.
#[derive(Debug, Clone, Copy, PartialEq, Eq, Structural)]
pub enum SettingsTab {
    General,
    Members,
}

/// The class list of one settings tab.
pub open spec fn tab_class(active: bool) -> Seq<char> {
    if active {
        "tab tab-active"@
    } else {
        "tab"@
    }
}

/// The tab bar of the settings page.
pub open spec fn spec_render_settings_nav(server_id: u128, active: SettingsTab) -> Seq<char> {
    "<div class=\"tabs-boxed tabs\"><button class=\""@ + tab_class(active is General)
        + "\" hx-get=\"/servers/"@ + ids::id_seq(server_id)
        + "/settings\">General</button><button class=\""@ + tab_class(active is Members)
        + "\" hx-get=\"/servers/"@ + ids::id_seq(server_id)
        + "/settings/members\">Members</button></div>"@
}

/// The form through which a member is added to a server.
pub open spec fn spec_render_add_member_form(server_id: u128) -> Seq<char> {
    "<form class=\"flex items-end\" hx-post=\"/servers/"@ + ids::id_seq(server_id)
        + "/settings/members\" hx-swap=\"outerHTML\" hx-target=\"this\"><div class=\"form-control grow\"><div class=\"label\"><div class=\"label-text\">Add user by id</div></div><input type=\"text\" name=\"id\" class=\"input input-bordered w-full\"></div><button type=\"submit\" class=\"btn btn-primary\">Add member</button></form>"@
}

/// Render the tab bar of the settings page, with the open tab marked
/// active.
pub fn render_settings_nav(server_id: u128, active: SettingsTab) -> (r: String)
    ensures
        r@ == spec_render_settings_nav(server_id, active),
{
    let mut out: Vec<char> = Vec::new();
    text::push_str(&mut out, "<div class=\"tabs-boxed tabs\"><button class=\"");
    match active {
        SettingsTab::General => text::push_str(&mut out, "tab tab-active"),
        SettingsTab::Members => text::push_str(&mut out, "tab"),
    }
    text::push_str(&mut out, "\" hx-get=\"/servers/");
    let idc = ids::id_chars(server_id);
    text::push_chars(&mut out, &idc);
    text::push_str(&mut out, "/settings\">General</button><button class=\"");
    match active {
        SettingsTab::General => text::push_str(&mut out, "tab"),
        SettingsTab::Members => text::push_str(&mut out, "tab tab-active"),
    }
    text::push_str(&mut out, "\" hx-get=\"/servers/");
    text::push_chars(&mut out, &idc);
    text::push_str(&mut out, "/settings/members\">Members</button></div>");
    assert(out@ =~= spec_render_settings_nav(server_id, active));
    text::chars_to_string(&out)
}

/// Render the form through which a member is added to a server.
pub fn render_add_member_form(server_id: u128) -> (r: String)
    ensures
        r@ == spec_render_add_member_form(server_id),
{
    let mut out: Vec<char> = Vec::new();
    text::push_str(&mut out, "<form class=\"flex items-end\" hx-post=\"/servers/");
    let idc = ids::id_chars(server_id);
    text::push_chars(&mut out, &idc);
    text::push_str(
        &mut out,
        "/settings/members\" hx-swap=\"outerHTML\" hx-target=\"this\"><div class=\"form-control grow\"><div class=\"label\"><div class=\"label-text\">Add user by id</div></div><input type=\"text\" name=\"id\" class=\"input input-bordered w-full\"></div><button type=\"submit\" class=\"btn btn-primary\">Add member</button></form>",
    );
    assert(out@ =~= spec_render_add_member_form(server_id));
    text::chars_to_string(&out)
}

} // verus!
