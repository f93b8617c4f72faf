use fanout::{id_string, render_deleted, render_message, Message, RenderError};
use relativetime::RelativeTime;

/// 2024-01-01T00:00:00Z in milliseconds.
const TS: u64 = 1_704_067_200_000;

/// A version-seven identifier carrying `TS` in its top 48 bits.
fn v7_id(tail: u128) -> u128 {
    ((TS as u128) << 80) | (0x7u128 << 76) | (0x8u128 << 60) | tail
}

fn msg(author: u128) -> Message {
    Message {
        id: v7_id(1),
        content: "hello there".to_string(),
        updated_ms: TS as i64,
        author,
        author_name: "Ada".to_string(),
    }
}

fn rfc3339(ms: u64) -> String {
    chrono::DateTime::<chrono::Utc>::from_timestamp_millis(ms as i64)
        .unwrap()
        .to_rfc3339()
}

fn relative(delta_ms: i64) -> String {
    chrono::TimeDelta::milliseconds(delta_ms).to_relative()
}

#[test]
fn render_exact_fragment_for_author() {
    let author = 42u128;
    let m = msg(author);
    let now = TS as i64 + 60_000;
    let r = render_message(&m, author, 5, 6, false, now).unwrap();
    let id = id_string(m.id);
    let cid = id_string(5);
    let sid = id_string(6);
    let ts = rfc3339(TS);
    let rel = relative(-60_000);
    let expected = format!(
        "<li class=\"group chat chat-end\" id=\"msg-{id}\">\
         <div class=\"chat-header\">Ada <time class=\"text-xs opacity-50\" datetime=\"{ts}\">{rel}</time></div>\
         <div class=\"chat-bubble chat-bubble-primary\">hello there</div>\
         <div class=\"chat-footer transition-opacity\" hx-target=\"closest li\" hx-swap=\"outerHTML\">\
         <button class=\"link mr-2 opacity-0 group-hover:opacity-100\" hx-get=\"/servers/{sid}/channels/{cid}/messages/{id}/editable\">Edit</button>\
         <button class=\"link link-error opacity-0 group-hover:opacity-100\" hx-delete=\"/servers/{sid}/channels/{cid}/messages/{id}\" hx-confirm=\"Are you sure?\">Delete</button>\
         </div></li>"
    );
    assert_eq!(r, expected);
}

#[test]
fn render_reader_sees_no_author_controls() {
    let m = msg(42);
    let r = render_message(&m, 43, 5, 6, false, TS as i64).unwrap();
    assert!(r.contains("chat-start"));
    assert!(!r.contains("chat-end"));
    assert!(r.contains("<div class=\"chat-bubble\">"));
    assert!(!r.contains("chat-bubble-primary"));
    assert!(!r.contains("Edit</button>"));
    assert!(r.contains("Delete</button>"));
}

#[test]
fn render_timestamp_text_comes_from_the_calendar() {
    // The machine-readable timestamp and the relative phrase embed the
    // calendar crates' own output; a renderer that echoed the raw numbers
    // would fail here.
    let m = msg(42);
    let now = TS as i64 + 60_000;
    let r = render_message(&m, 42, 5, 6, false, now).unwrap();
    assert!(r.contains("datetime=\"2024-01-01T00:00:00+00:00\""));
    assert!(r.contains(">a minute ago</time>"));
    assert!(!r.contains(&TS.to_string()));
}

#[test]
fn render_marks_edits() {
    let mut m = msg(42);
    m.updated_ms = TS as i64 + 1;
    let r = render_message(&m, 42, 5, 6, false, TS as i64).unwrap();
    assert!(r.contains("Edited "));
    m.updated_ms = TS as i64;
    let r2 = render_message(&m, 42, 5, 6, false, TS as i64).unwrap();
    assert!(!r2.contains("Edited "));
}

#[test]
fn render_swap_oob_flag() {
    let m = msg(42);
    let r = render_message(&m, 42, 5, 6, true, TS as i64).unwrap();
    assert!(r.contains("\" hx-swap-oob=\"true\">"));
    let r2 = render_message(&m, 42, 5, 6, false, TS as i64).unwrap();
    assert!(!r2.contains("hx-swap-oob"));
}

#[test]
fn render_escapes_user_text() {
    let mut m = msg(42);
    m.content = "<b>\"A&B\"</b>".to_string();
    m.author_name = "a<c>".to_string();
    let r = render_message(&m, 42, 5, 6, false, TS as i64).unwrap();
    assert!(r.contains("&lt;b&gt;&quot;A&amp;B&quot;&lt;/b&gt;"));
    assert!(r.contains("a&lt;c&gt;"));
    assert!(!r.contains("<b>"));
}

#[test]
fn render_fails_without_creation_time() {
    let mut m = msg(42);
    m.id = 1; // a version that embeds no timestamp
    assert_eq!(
        render_message(&m, 42, 5, 6, false, 0),
        Err(RenderError::NoTimestampFromId { id: 1 })
    );
}

#[test]
fn render_deleted_exact() {
    let id = v7_id(9);
    assert_eq!(
        render_deleted(id),
        format!("<div id=\"msg-{}\" hx-swap-oob=\"delete\"></div>", id_string(id))
    );
}

#[test]
fn render_succeeds_for_gregorian_identifiers() {
    // Versions one and six embed their creation time as Gregorian ticks;
    // rendering derives the header timestamp from them just as for
    // version seven.
    for text in [
        "c232ab00-9414-11ec-b3c8-9f6bdeced846",
        "1ec9414c-232a-6b00-b3c8-9f6bdeced846",
    ] {
        let id = uuid::Uuid::parse_str(text).unwrap().as_u128();
        let ms = fanout::creation_time_ms(id).unwrap();
        let mut m = msg(42);
        m.id = id;
        m.updated_ms = ms as i64;
        let r = render_message(&m, 42, 5, 6, false, ms as i64).unwrap();
        assert!(r.contains(&format!("datetime=\"{}\"", rfc3339(ms))));
        assert!(r.contains("datetime=\"2022-02-22T19:22:22+00:00\""));
        assert!(!r.contains("Edited "));
    }
}
