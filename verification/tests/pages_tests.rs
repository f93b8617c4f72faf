use fanout::{id_string, render_add_member_form, render_settings_nav, SettingsTab};

#[test]
fn settings_nav_marks_the_open_tab() {
    let sid = 77u128;
    let s = id_string(sid);
    let general = render_settings_nav(sid, SettingsTab::General);
    assert_eq!(
        general,
        format!(
            "<div class=\"tabs-boxed tabs\">\
             <button class=\"tab tab-active\" hx-get=\"/servers/{s}/settings\">General</button>\
             <button class=\"tab\" hx-get=\"/servers/{s}/settings/members\">Members</button>\
             </div>"
        )
    );
    let members = render_settings_nav(sid, SettingsTab::Members);
    assert!(members.contains("<button class=\"tab\" hx-get=\"/servers/"));
    assert!(members.contains(&format!(
        "<button class=\"tab tab-active\" hx-get=\"/servers/{s}/settings/members\">Members</button>"
    )));
}

#[test]
fn add_member_form_posts_to_the_server() {
    let sid = 78u128;
    let s = id_string(sid);
    let form = render_add_member_form(sid);
    assert_eq!(
        form,
        format!(
            "<form class=\"flex items-end\" hx-post=\"/servers/{s}/settings/members\" \
             hx-swap=\"outerHTML\" hx-target=\"this\">\
             <div class=\"form-control grow\"><div class=\"label\">\
             <div class=\"label-text\">Add user by id</div></div>\
             <input type=\"text\" name=\"id\" class=\"input input-bordered w-full\"></div>\
             <button type=\"submit\" class=\"btn btn-primary\">Add member</button></form>"
        )
    );
}

#[test]
fn form_payloads_hold_their_fields() {
    let m = fanout::SentMessage {
        content: "hi".to_string(),
    };
    let s = fanout::NewServer {
        name: "crew".to_string(),
    };
    let c = fanout::NewChannel {
        name: "general".to_string(),
    };
    assert_eq!(m.content, "hi");
    assert_eq!(s.name, "crew");
    assert_eq!(c.name, "general");
}
