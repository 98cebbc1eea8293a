//! The decisions of the ComfyUI WebSocket client: where to connect, how
//! long to wait before reconnecting, which prompt is executing, and what a
//! binary frame carries. The client loop itself (sockets, timers, emitting
//! events) runs these steps and performs the actions they name.
use vstd::prelude::*;
use crate::text::{chars_of, push_str, replace_all, replace_chars, string_of};

use crate::modelspec::{
    doc_nested_null, doc_nested_null_of, doc_nested_str, doc_nested_str_of, doc_str, doc_str_of, json_header,
    json_header_doc, HeaderDoc,
};

verus! {

/// The WebSocket URL for a ComfyUI base URL: `http://` becomes `ws://`,
/// `https://` becomes `wss://`, then `/ws?clientId={client_id}` is added.
pub open spec fn ws_url_spec(base_url: Seq<char>, client_id: Seq<char>) -> Seq<char> {
    replace_all(replace_all(base_url, "http://"@, "ws://"@), "https://"@, "wss://"@)
        + "/ws?clientId="@ + client_id
}

pub fn ws_url(base_url: &str, client_id: &str) -> (r: String)
    ensures
        r@ == ws_url_spec(base_url@, client_id@),
{
    proof {
        reveal_strlit("http://");
        reveal_strlit("https://");
    }
    let b = chars_of(base_url);
    let a = replace_chars(&b, &chars_of("http://"), &chars_of("ws://"));
    let mut u = replace_chars(&a, &chars_of("https://"), &chars_of("wss://"));
    push_str(&mut u, "/ws?clientId=");
    push_str(&mut u, client_id);
    string_of(&u)
}

/// The wait before the next reconnection attempt: the previous wait (at
/// least 500 ms) doubled, capped at 30 s.
pub open spec fn next_backoff_spec(backoff_ms: nat) -> nat {
    let doubled = 2 * (if backoff_ms < 500 { 500 } else { backoff_ms });
    if doubled > 30000 { 30000 } else { doubled }
}

pub fn next_backoff_ms(backoff_ms: u64) -> (r: u64)
    ensures
        r == next_backoff_spec(backoff_ms as nat),
{
    let base: u64 = if backoff_ms < 500 { 500 } else { backoff_ms };
    if base > 15000 {
        30000
    } else {
        base * 2
    }
}

/// Reconnection waits stay between one and thirty seconds and never shrink
/// while failures continue.
pub proof fn backoff_is_bounded_and_grows(backoff_ms: nat)
    ensures
        1000 <= next_backoff_spec(backoff_ms) <= 30000,
        backoff_ms <= 30000 ==> backoff_ms <= next_backoff_spec(backoff_ms),
{
}

// ---------------------------------------------------------------------------
// The executing prompt
// ---------------------------------------------------------------------------

/// What the client must do about a prompt after a text event.
#[derive(Debug, PartialEq, Eq, Structural)]
pub enum PromptAction {
    Nothing,
    /// The prompt finished: release its worker and clean up its queue entry.
    Finished,
    /// The prompt failed: release its worker after marking the error.
    Failed,
}

/// The prompt the client believes is executing after a text event of type
/// `event_type` about `prompt_id` (whose `node` is null or not), and what to
/// do about the event's prompt.
pub open spec fn text_event_spec(
    current: Option<Seq<char>>,
    event_type: Seq<char>,
    prompt_id: Option<Seq<char>>,
    node_is_null: bool,
) -> (Option<Seq<char>>, PromptAction) {
    match prompt_id {
        None => (current, PromptAction::Nothing),
        Some(pid) => if event_type == "execution_start"@ {
            (Some(pid), PromptAction::Nothing)
        } else if event_type == "executing"@ {
            if node_is_null {
                (if current == Some(pid) { None } else { current }, PromptAction::Finished)
            } else {
                (Some(pid), PromptAction::Nothing)
            }
        } else if event_type == "execution_error"@ {
            (current, PromptAction::Failed)
        } else {
            (current, PromptAction::Nothing)
        },
    }
}

pub open spec fn opt_text(o: Option<String>) -> Option<Seq<char>> {
    match o {
        Some(s) => Some(s@),
        None => None,
    }
}

/// Track the executing prompt through one text event.
pub fn on_text_event(
    current: Option<String>,
    event_type: &str,
    prompt_id: Option<&str>,
    node_is_null: bool,
) -> (r: (Option<String>, PromptAction))
    ensures
        (opt_text(r.0), r.1) == text_event_spec(opt_text(current), event_type@, match prompt_id {
            Some(p) => Some(p@),
            None => None,
        }, node_is_null),
{
    let pid = match prompt_id {
        None => return (current, PromptAction::Nothing),
        Some(p) => p,
    };
    let t = chars_of(event_type);
    let owned = string_of(&chars_of(pid));
    if crate::text::spells(&t, "execution_start") {
        (Some(owned), PromptAction::Nothing)
    } else if crate::text::spells(&t, "executing") {
        if node_is_null {
            let same = match &current {
                Some(c) => *c == owned,
                None => false,
            };
            (if same { None } else { current }, PromptAction::Finished)
        } else {
            (Some(owned), PromptAction::Nothing)
        }
    } else if crate::text::spells(&t, "execution_error") {
        (current, PromptAction::Failed)
    } else {
        (current, PromptAction::Nothing)
    }
}

/// What a text frame from ComfyUI says: its event type (`unknown` when it
/// names none), its data's prompt id when that is a string, and whether its
/// data's `node` is null (absent counts as null); `None` for a frame that is
/// no JSON.
pub open spec fn ws_text_spec(
    parsed: Result<Option<Seq<(Seq<char>, (bool, Seq<(Seq<char>, (int, Seq<char>))>, (int, Seq<char>)))>>, Seq<char>>,
) -> Option<(Seq<char>, Option<Seq<char>>, bool)> {
    match parsed {
        Err(_) => None,
        Ok(doc) => Some((
            match doc_str(doc, "type"@) {
                Some(t) => t,
                None => "unknown"@,
            },
            doc_nested_str(doc, "data"@, "prompt_id"@),
            doc_nested_null(doc, "data"@, "node"@),
        )),
    }
}

/// A text frame read.
pub struct WsTextEvent {
    pub event_type: String,
    pub prompt_id: Option<String>,
    pub node_is_null: bool,
}

pub open spec fn ws_text_view(e: WsTextEvent) -> (Seq<char>, Option<Seq<char>>, bool) {
    (e.event_type@, opt_text(e.prompt_id), e.node_is_null)
}

/// Read a text frame's bytes.
pub fn read_text_frame(frame: &[u8]) -> (r: Option<WsTextEvent>)
    ensures
        match r {
            Some(e) => ws_text_spec(json_header_doc(frame@)) == Some(ws_text_view(e)),
            None => ws_text_spec(json_header_doc(frame@)) is None,
        },
{
    proof {
        reveal_strlit("unknown");
    }
    let doc = match json_header(frame) {
        Ok(d) => d,
        Err(_) => return None,
    };
    match doc {
        HeaderDoc::NotObject => Some(WsTextEvent {
            event_type: string_of(&chars_of("unknown")),
            prompt_id: None,
            node_is_null: true,
        }),
        HeaderDoc::Object(es) => {
            let event_type = match doc_str_of(&es, "type") {
                Some(t) => t,
                None => string_of(&chars_of("unknown")),
            };
            Some(WsTextEvent {
                event_type,
                prompt_id: doc_nested_str_of(&es, "data", "prompt_id"),
                node_is_null: doc_nested_null_of(&es, "data", "node"),
            })
        },
    }
}

/// A prompt that ComfyUI's history shows completed while the socket was
/// down is no longer executing; the client announces its completion.
pub fn after_reconnect_history(current: Option<String>, completed: bool) -> (r: (Option<String>, bool))
    ensures
        opt_text(r.0) == (if completed { None } else { opt_text(current) }),
        r.1 == (completed && current is Some),
{
    match current {
        Some(c) => if completed { (None, true) } else { (Some(c), false) },
        None => (None, false),
    }
}

/// Once a prompt's completion arrives it is no longer tracked as executing,
/// and a completion or failure of one prompt never makes another one the
/// executing prompt.
pub proof fn completion_clears_the_executing_prompt(current: Option<Seq<char>>, pid: Seq<char>, event_type: Seq<char>, node_is_null: bool)
    ensures
        text_event_spec(current, "executing"@, Some(pid), true).0 != Some(pid),
        text_event_spec(current, event_type, Some(pid), node_is_null).0 is Some ==> (
            text_event_spec(current, event_type, Some(pid), node_is_null).0 == Some(pid)
                || text_event_spec(current, event_type, Some(pid), node_is_null).0 == current),
{
    reveal_strlit("executing");
    reveal_strlit("execution_start");
    assert("executing"@ != "execution_start"@) by {
        assert("executing"@.len() != "execution_start"@.len());
    }
}

// ---------------------------------------------------------------------------
// Binary frames
// ---------------------------------------------------------------------------

/// What a binary frame from ComfyUI carries.
#[derive(Debug, PartialEq, Eq, Structural)]
pub enum BinaryFrame {
    /// Nothing to show (too short, unknown, or no prompt to attribute it to).
    Ignore,
    /// A preview image starting at byte `image_start`, PNG or else JPEG.
    Preview { png: bool, image_start: u64 },
    /// A finished output image (or a ControlNet preprocessor result).
    OutputImage { controlnet: bool },
    /// A finished video.
    Video,
}

pub open spec fn be_u32(b: Seq<u8>, pos: int) -> nat {
    16777216 * (b[pos] as nat) + 65536 * (b[pos + 1] as nat) + 256 * (b[pos + 2] as nat)
        + (b[pos + 3] as nat)
}

/// Preview, output and video frames are attributed to the executing prompt;
/// with none, they are skipped so that no user sees another's images.
pub open spec fn prompt_bound_event(event: nat) -> bool {
    event == 1 || event == 2 || event == 4 || event == 100 || event == 101 || event == 102
}

/// The meaning of a binary frame: a big-endian event id, then for previews a
/// big-endian format (2 is PNG) or metadata length before the image bytes.
pub open spec fn binary_frame_spec(data: Seq<u8>, has_prompt: bool) -> BinaryFrame {
    if data.len() < 4 {
        BinaryFrame::Ignore
    } else {
        let event = be_u32(data, 0);
        if !has_prompt && prompt_bound_event(event) {
            BinaryFrame::Ignore
        } else if event == 1 || event == 2 {
            if data.len() < 8 {
                BinaryFrame::Ignore
            } else {
                BinaryFrame::Preview { png: be_u32(data, 4) == 2, image_start: 8 }
            }
        } else if event == 4 {
            if data.len() < 8 {
                BinaryFrame::Ignore
            } else if 8 + be_u32(data, 4) < data.len() {
                BinaryFrame::Preview { png: false, image_start: (8 + be_u32(data, 4)) as u64 }
            } else {
                BinaryFrame::Ignore
            }
        } else if event == 100 || event == 101 {
            BinaryFrame::OutputImage { controlnet: event == 101 }
        } else if event == 102 {
            BinaryFrame::Video
        } else {
            BinaryFrame::Ignore
        }
    }
}

fn read_be_u32(data: &[u8], pos: usize) -> (r: u32)
    requires
        pos + 4 <= data.len(),
    ensures
        r == be_u32(data@, pos as int),
{
    16777216 * (data[pos] as u32) + 65536 * (data[pos + 1] as u32) + 256 * (data[pos + 2] as u32)
        + (data[pos + 3] as u32)
}

/// Classify a binary frame, given whether a prompt is executing.
pub fn classify_binary_frame(data: &[u8], has_prompt: bool) -> (r: BinaryFrame)
    ensures
        r == binary_frame_spec(data@, has_prompt),
{
    if data.len() < 4 {
        return BinaryFrame::Ignore;
    }
    let event = read_be_u32(data, 0);
    let bound = event == 1 || event == 2 || event == 4 || event == 100 || event == 101 || event == 102;
    if !has_prompt && bound {
        return BinaryFrame::Ignore;
    }
    if event == 1 || event == 2 {
        if data.len() < 8 {
            return BinaryFrame::Ignore;
        }
        let format_type = read_be_u32(data, 4);
        BinaryFrame::Preview { png: format_type == 2, image_start: 8 }
    } else if event == 4 {
        if data.len() < 8 {
            return BinaryFrame::Ignore;
        }
        let meta_len = read_be_u32(data, 4) as u64;
        let image_start: u64 = 8 + meta_len;
        if image_start < data.len() as u64 {
            BinaryFrame::Preview { png: false, image_start }
        } else {
            BinaryFrame::Ignore
        }
    } else if event == 100 || event == 101 {
        BinaryFrame::OutputImage { controlnet: event == 101 }
    } else if event == 102 {
        BinaryFrame::Video
    } else {
        BinaryFrame::Ignore
    }
}

/// A frame the client shows is always attributed to an executing prompt,
/// and a preview's image bytes always lie inside the frame.
pub proof fn shown_frames_belong_to_a_prompt(data: Seq<u8>, has_prompt: bool)
    ensures
        binary_frame_spec(data, has_prompt) != BinaryFrame::Ignore ==> has_prompt || !prompt_bound_event(be_u32(data, 0)),
        binary_frame_spec(data, has_prompt) matches BinaryFrame::Preview { image_start, .. } ==> image_start <= data.len(),
{
}

// ---------------------------------------------------------------------------
// Output image frames
// ---------------------------------------------------------------------------

/// How the payload of an output-image frame is to be handled.
#[derive(Debug, PartialEq, Eq, Structural)]
pub enum OutputPayload {
    /// Raw RGBA pixels from byte 16 on, to be encoded as JPEG XL with a
    /// WebP (or PNG) display copy; `sixteen` for 16-bit samples.
    RawRgba { width: u32, height: u32, sixteen: bool },
    /// Raw 8-bit RGBA pixels from byte 16 on, to be encoded as lossless WebP.
    RawWebp { width: u32, height: u32 },
    /// An encoded PNG from byte 8 on, with the given bit depth.
    Png { bit_depth: u8 },
}

pub open spec fn be_u16(b: Seq<u8>, pos: int) -> nat {
    256 * (b[pos] as nat) + (b[pos + 1] as nat)
}

/// The payload of an output-image frame: a big-endian format tag at byte 4;
/// for raw tags a header of big-endian width and height (bytes 8 to 11),
/// channel count (12) and sample depth (13). `None` for a frame too short or
/// a raw header that is not 4-channel 8-bit (or 16-bit for JPEG XL).
pub open spec fn output_payload_spec(data: Seq<u8>) -> Option<OutputPayload> {
    if data.len() < 8 {
        None
    } else {
        let tag = be_u32(data, 4);
        if tag == 3 || tag == 4 || tag == 5 {
            if data.len() < 16 {
                None
            } else {
                let channels = data[12];
                let depth = data[13];
                if tag == 5 {
                    if channels == 4 && depth == 8 {
                        Some(OutputPayload::RawWebp { width: be_u16(data, 8) as u32, height: be_u16(data, 10) as u32 })
                    } else {
                        None
                    }
                } else if channels == 4 && (depth == 8 || depth == 16) {
                    Some(OutputPayload::RawRgba {
                        width: be_u16(data, 8) as u32,
                        height: be_u16(data, 10) as u32,
                        sixteen: depth == 16,
                    })
                } else {
                    None
                }
            }
        } else if tag == 2 {
            Some(OutputPayload::Png { bit_depth: 16 })
        } else {
            Some(OutputPayload::Png { bit_depth: 8 })
        }
    }
}

/// Read the header of an output-image frame.
pub fn classify_output_payload(data: &[u8]) -> (r: Option<OutputPayload>)
    ensures
        r == output_payload_spec(data@),
{
    if data.len() < 8 {
        return None;
    }
    let tag = read_be_u32(data, 4);
    if tag == 3 || tag == 4 || tag == 5 {
        if data.len() < 16 {
            return None;
        }
        let width: u32 = 256 * (data[8] as u32) + (data[9] as u32);
        let height: u32 = 256 * (data[10] as u32) + (data[11] as u32);
        let channels = data[12];
        let depth = data[13];
        if tag == 5 {
            if channels == 4 && depth == 8 {
                Some(OutputPayload::RawWebp { width, height })
            } else {
                None
            }
        } else if channels == 4 && (depth == 8 || depth == 16) {
            Some(OutputPayload::RawRgba { width, height, sixteen: depth == 16 })
        } else {
            None
        }
    } else if tag == 2 {
        Some(OutputPayload::Png { bit_depth: 16 })
    } else {
        Some(OutputPayload::Png { bit_depth: 8 })
    }
}

/// Where the image bytes of a payload start in the frame.
pub open spec fn payload_start_spec(p: OutputPayload) -> nat {
    match p {
        OutputPayload::Png { .. } => 8,
        _ => 16,
    }
}

/// The offset of the image bytes of a payload in its frame.
pub fn payload_start(p: &OutputPayload) -> (r: usize)
    ensures
        r == payload_start_spec(*p),
{
    match p {
        OutputPayload::Png { .. } => 8,
        _ => 16,
    }
}

/// Every accepted payload's image bytes lie inside its frame.
pub proof fn accepted_payloads_start_inside_the_frame(data: Seq<u8>)
    ensures
        output_payload_spec(data) matches Some(p) ==> payload_start_spec(p) <= data.len(),
{
}

// ---------------------------------------------------------------------------
// Queue positions
// ---------------------------------------------------------------------------

/// One queue-position update sent after a prompt finishes: a prompt's
/// position and the queue's length, or, for an empty queue, the length
/// alone.
pub struct QueueUpdate {
    pub prompt_id: Option<String>,
    pub position: usize,
    pub total: usize,
}

pub open spec fn queue_update_view(u: QueueUpdate) -> (Option<Seq<char>>, nat, nat) {
    (match u.prompt_id { Some(p) => Some(p@), None => None }, u.position as nat, u.total as nat)
}

/// The updates for a queue: one per waiting prompt, in order, or a single
/// "empty" update.
pub open spec fn queue_updates_spec(queue: Seq<Seq<char>>) -> Seq<(Option<Seq<char>>, nat, nat)> {
    if queue.len() == 0 {
        seq![(None::<Seq<char>>, 0nat, 0nat)]
    } else {
        Seq::new(queue.len(), |i: int| (Some(queue[i]), i as nat, queue.len()))
    }
}

/// The queue-position updates to broadcast for the waiting prompts.
pub fn queue_updates(queue: &Vec<String>) -> (r: Vec<QueueUpdate>)
    ensures
        r@.map_values(|u: QueueUpdate| queue_update_view(u)) == queue_updates_spec(crate::text::string_views(queue@)),
{
    let mut out: Vec<QueueUpdate> = Vec::new();
    if queue.len() == 0 {
        out.push(QueueUpdate { prompt_id: None, position: 0, total: 0 });
        assert(out@.map_values(|u: QueueUpdate| queue_update_view(u)) =~= queue_updates_spec(crate::text::string_views(queue@)));
        return out;
    }
    let ghost qv = crate::text::string_views(queue@);
    let mut i: usize = 0;
    while i < queue.len()
        invariant
            i <= queue.len(),
            qv == crate::text::string_views(queue@),
            out@.map_values(|u: QueueUpdate| queue_update_view(u)) == Seq::new(i as nat, |k: int| (Some(qv[k]), k as nat, queue.len() as nat)),
        decreases queue.len() - i,
    {
        let ghost before = out@;
        let pid = queue[i].clone();
        assert(qv[i as int] == queue@[i as int]@);
        assert(pid@ == qv[i as int]);
        let u = QueueUpdate { prompt_id: Some(pid), position: i, total: queue.len() };
        assert(queue_update_view(u) == (Some(qv[i as int]), i as nat, queue.len() as nat));
        out.push(u);
        assert(out@.map_values(|u: QueueUpdate| queue_update_view(u)) =~= before.map_values(|u: QueueUpdate| queue_update_view(u)).push((Some(qv[i as int]), i as nat, queue.len() as nat)));
        assert(out@.map_values(|u: QueueUpdate| queue_update_view(u)) =~= Seq::new((i + 1) as nat, |k: int| (Some(qv[k]), k as nat, queue.len() as nat)));
        i += 1;
    }
    assert(out@.map_values(|u: QueueUpdate| queue_update_view(u)) =~= queue_updates_spec(qv));
    out
}

} // verus!
