//! The static chat page served for each room.

use vstd::prelude::*;
use crate::decimal::{decimal, decimal_value, lemma_decimal_value, push_decimal};

verus! {

/// Page text up to the script line that names the room's websocket address.
pub const INDEX_HTML_PART_ONE: &'static str = r#"<!DOCTYPE html>
<html lang="en">
    <head>
        <title>Warp Chat</title>
    </head>
    <body>
        <h1>Warp chat</h1>
        <div id="chat">
            <p><em>Connecting...</em></p>
        </div>
        <input type="text" id="text" />
        <button type="button" id="send">Send</button>
        <script type="text/javascript">
        const chat = document.getElementById('chat');
        const text = document.getElementById('text');
"#;

/// Page text after the script line that names the room's websocket address.
pub const INDEX_HTML_PART_TWO: &'static str = r#"

const ws = new WebSocket(uri);
function message(data) {
    const line = document.createElement('p');
    line.innerText = data;
    chat.appendChild(line);
}
ws.onopen = function() {
    chat.innerHTML = '<p><em>Connected!</em></p>';
};
ws.onmessage = function(msg) {
    message(msg.data);
};
ws.onclose = function() {
    chat.getElementsByTagName('em')[0].innerText = 'Disconnected!';
};
send.onclick = function() {
    const msg = text.value;
    ws.send(msg);
    text.value = '';
    message('<You>: ' + msg);
};
</script>
</body>
</html>
"#;

/// The script line that points the page's websocket at the room's chat endpoint.
pub open spec fn room_uri_line(room_id: nat) -> Seq<char> {
    " const uri = 'ws://' + location.host + '/api/chat-room/' + '"@ + decimal(room_id) + "'"@
}

/// The start of the script line, up to where the room id is written.
pub open spec fn room_address_prefix() -> Seq<char> {
    " const uri = 'ws://' + location.host + '/api/chat-room/' + '"@
}

/// The page for a room is the first part followed by the start of the
/// script line, then the room id in decimal digits that read back as the
/// room id itself, then a closing quote and the second part.
pub proof fn lemma_page_connects_to_room(room_id: nat)
    ensures
        ({
            let page = room_page(room_id);
            let a: int = INDEX_HTML_PART_ONE@.len() + room_address_prefix().len() as int;
            let b: int = page.len() - INDEX_HTML_PART_TWO@.len() - 1;
            &&& a < b
            &&& b + 1 + INDEX_HTML_PART_TWO@.len() == page.len()
            &&& page.subrange(0, a) == INDEX_HTML_PART_ONE@ + room_address_prefix()
            &&& decimal_value(page.subrange(a, b)) == room_id
            &&& page.subrange(b, page.len() as int) == "'"@ + INDEX_HTML_PART_TWO@
        }),
{
    lemma_decimal_value(room_id);
    reveal_strlit("'");
    let page = room_page(room_id);
    let p1 = INDEX_HTML_PART_ONE@;
    let pre = room_address_prefix();
    let d = decimal(room_id);
    let q = "'"@;
    let p2 = INDEX_HTML_PART_TWO@;
    assert(page =~= p1 + pre + d + q + p2);
    let a: int = p1.len() + pre.len() as int;
    let b: int = page.len() - p2.len() - 1;
    assert(page.subrange(0, a) =~= p1 + pre);
    assert(page.subrange(a, b) =~= d);
    assert(page.subrange(b, page.len() as int) =~= q + p2);
}

/// The full page for a room.
pub open spec fn room_page(room_id: nat) -> Seq<char> {
    INDEX_HTML_PART_ONE@ + room_uri_line(room_id) + INDEX_HTML_PART_TWO@
}

/// Renders the chat page for `room_id`: the first part, the line that
/// connects to `/api/chat-room/<room_id>`, and the second part.
pub fn format_html(room_id: usize) -> (page: String)
    ensures
        page@ == room_page(room_id as nat),
        ({
            let a: int = INDEX_HTML_PART_ONE@.len() + room_address_prefix().len() as int;
            let b: int = page@.len() - INDEX_HTML_PART_TWO@.len() - 1;
            &&& a < b
            &&& page@.subrange(0, a) == INDEX_HTML_PART_ONE@ + room_address_prefix()
            &&& decimal_value(page@.subrange(a, b)) == room_id
            &&& page@.subrange(b, page@.len() as int) == "'"@ + INDEX_HTML_PART_TWO@
        }),
{
    let mut page = String::from_str(INDEX_HTML_PART_ONE);
    page.append(" const uri = 'ws://' + location.host + '/api/chat-room/' + '");
    push_decimal(&mut page, room_id);
    page.append("'");
    page.append(INDEX_HTML_PART_TWO);
    proof {
        assert(page@ =~= room_page(room_id as nat));
        lemma_page_connects_to_room(room_id as nat);
    }
    page
}

} // verus!
