//! Frames as bytes.
//!
//! The format is positional: the order and types of the fields below are the
//! wire contract. A variant is its number as a varint followed by its fields.

use vstd::prelude::*;
use vstd::utf8::encode_utf8;

use crate::node_id::{lemma_same_bytes, NodeId};
use crate::postcard_values::{
    byte_string, flag, lemma_read_array, lemma_read_byte_string, lemma_read_flag, lemma_read_len,
    lemma_read_text, lemma_read_u16, lemma_read_u32, lemma_read_u64, no_such_variant, put_array,
    put_bool, put_bytes, put_str, put_u64, read_array, read_byte_string, read_flag, read_len,
    read_text, read_u16, read_u32, read_u64, take_array, take_bool, take_bytes, take_len,
    take_option, take_string, take_u16, take_u32, take_u64, text, varint,
};
use crate::protocol::{
    media_view, roster_entry_view, roster_view, ChatMessage, ChatMessageView, ControlAction,
    ControlActionView, ControlEvent, ControlEventView, Frame, FrameView, MediaId, MediaIdView,
    PresenceEvent, PresenceEventView, RosterEntry, RosterEntryView, StateHeartbeat,
    StateHeartbeatView,
};

verus! {

/// Why bytes are not a frame.
#[derive(Debug)]
pub enum DecodeError {
    Postcard(postcard::Error),
}

// --- The format ---

pub open spec fn node_bytes(n: NodeId) -> Seq<u8> {
    n.0@
}

pub open spec fn media_bytes(m: MediaIdView) -> Seq<u8> {
    text(m.filename_lower) + varint(m.size_bytes as nat) + varint(m.duration_s as nat)
}

pub open spec fn action_bytes(a: ControlActionView) -> Seq<u8> {
    match a {
        ControlActionView::Play { media_pos_ms } => varint(0) + varint(media_pos_ms as nat),
        ControlActionView::Pause { media_pos_ms } => varint(1) + varint(media_pos_ms as nat),
        ControlActionView::Seek { media_pos_ms } => varint(2) + varint(media_pos_ms as nat),
        ControlActionView::SetSpeed { speed_centi } => varint(3) + varint(speed_centi as nat),
        ControlActionView::MediaChanged { id } => varint(4) + media_bytes(id),
    }
}

pub open spec fn event_bytes(ev: ControlEventView) -> Seq<u8> {
    node_bytes(ev.origin) + varint(ev.origin_ts_ms as nat) + varint(ev.seq as nat) + action_bytes(
        ev.action,
    )
}

pub open spec fn optional_media_bytes(m: Option<MediaIdView>) -> Seq<u8> {
    match m {
        Some(id) => flag(true) + media_bytes(id),
        None => flag(false),
    }
}

pub open spec fn heartbeat_bytes(hb: StateHeartbeatView) -> Seq<u8> {
    node_bytes(hb.origin) + varint(hb.origin_ts_ms as nat) + varint(hb.media_pos_ms as nat) + flag(
        hb.paused,
    ) + varint(hb.speed_centi as nat) + flag(hb.ready) + optional_media_bytes(hb.media_id)
}

pub open spec fn roster_entry_bytes(e: RosterEntryView) -> Seq<u8> {
    node_bytes(e.0) + text(e.1) + byte_string(e.2)
}

/// The entries one after the other.
pub open spec fn roster_bytes(entries: Seq<RosterEntryView>) -> Seq<u8>
    decreases entries.len(),
{
    if entries.len() == 0 {
        seq![]
    } else {
        roster_entry_bytes(entries[0]) + roster_bytes(entries.skip(1))
    }
}

pub open spec fn presence_bytes(p: PresenceEventView) -> Seq<u8> {
    match p {
        PresenceEventView::Join { node, nickname } => varint(0) + node_bytes(node) + text(nickname),
        PresenceEventView::Leave { node } => varint(1) + node_bytes(node),
        PresenceEventView::Ready { node, ready } => varint(2) + node_bytes(node) + flag(ready),
        PresenceEventView::Rename { node, nickname } => varint(3) + node_bytes(node) + text(
            nickname,
        ),
        PresenceEventView::PeerList { peers } => varint(4) + varint(peers.len()) + roster_bytes(
            peers,
        ),
        PresenceEventView::AddrAnnounce { node, addr_bytes } => varint(5) + node_bytes(node)
            + byte_string(addr_bytes),
    }
}

pub open spec fn chat_bytes(msg: ChatMessageView) -> Seq<u8> {
    node_bytes(msg.origin) + varint(msg.origin_ts_ms as nat) + text(msg.text)
}

/// The wire form of a frame.
pub open spec fn frame_bytes(f: FrameView) -> Seq<u8> {
    match f {
        FrameView::Control(ev) => varint(0) + event_bytes(ev),
        FrameView::Heartbeat(hb) => varint(1) + heartbeat_bytes(hb),
        FrameView::Presence(p) => varint(2) + presence_bytes(p),
        FrameView::Chat(msg) => varint(3) + chat_bytes(msg),
    }
}

// --- Reading it ---

/// The identifier with these bytes.
pub open spec fn node_of(b: Seq<u8>) -> NodeId {
    choose|n: NodeId| n.0@ == b
}

pub open spec fn read_node(s: Seq<u8>) -> Option<(NodeId, Seq<u8>)> {
    match read_array(s) {
        Some((b, rest)) => Some((node_of(b), rest)),
        None => None,
    }
}

pub open spec fn read_media(s: Seq<u8>) -> Option<(MediaIdView, Seq<u8>)> {
    match read_text(s) {
        Some((filename_lower, s1)) => match read_u64(s1) {
            Some((size, s2)) => match read_u32(s2) {
                Some((duration, rest)) => Some(
                    (
                        MediaIdView {
                            filename_lower,
                            size_bytes: size as u64,
                            duration_s: duration as u32,
                        },
                        rest,
                    ),
                ),
                None => None,
            },
            None => None,
        },
        None => None,
    }
}

pub open spec fn read_action(s: Seq<u8>) -> Option<(ControlActionView, Seq<u8>)> {
    match read_u32(s) {
        Some((tag, s1)) => if tag <= 2 {
            match read_u64(s1) {
                Some((pos, rest)) => Some(
                    (
                        if tag == 0 {
                            ControlActionView::Play { media_pos_ms: pos as u64 }
                        } else if tag == 1 {
                            ControlActionView::Pause { media_pos_ms: pos as u64 }
                        } else {
                            ControlActionView::Seek { media_pos_ms: pos as u64 }
                        },
                        rest,
                    ),
                ),
                None => None,
            }
        } else if tag == 3 {
            match read_u16(s1) {
                Some((speed, rest)) => Some(
                    (ControlActionView::SetSpeed { speed_centi: speed as u16 }, rest),
                ),
                None => None,
            }
        } else if tag == 4 {
            match read_media(s1) {
                Some((id, rest)) => Some((ControlActionView::MediaChanged { id }, rest)),
                None => None,
            }
        } else {
            None
        },
        None => None,
    }
}

pub open spec fn read_event(s: Seq<u8>) -> Option<(ControlEventView, Seq<u8>)> {
    match read_node(s) {
        Some((origin, s1)) => match read_u64(s1) {
            Some((ts, s2)) => match read_u64(s2) {
                Some((seq, s3)) => match read_action(s3) {
                    Some((action, rest)) => Some(
                        (
                            ControlEventView {
                                origin,
                                origin_ts_ms: ts as u64,
                                seq: seq as u64,
                                action,
                            },
                            rest,
                        ),
                    ),
                    None => None,
                },
                None => None,
            },
            None => None,
        },
        None => None,
    }
}

pub open spec fn read_optional_media(s: Seq<u8>) -> Option<(Option<MediaIdView>, Seq<u8>)> {
    match read_flag(s) {
        Some((true, s1)) => match read_media(s1) {
            Some((id, rest)) => Some((Some(id), rest)),
            None => None,
        },
        Some((false, rest)) => Some((None, rest)),
        None => None,
    }
}

pub open spec fn read_heartbeat(s: Seq<u8>) -> Option<(StateHeartbeatView, Seq<u8>)> {
    match read_node(s) {
        Some((origin, s1)) => match read_u64(s1) {
            Some((ts, s2)) => match read_u64(s2) {
                Some((pos, s3)) => match read_flag(s3) {
                    Some((paused, s4)) => match read_u16(s4) {
                        Some((speed, s5)) => match read_flag(s5) {
                            Some((ready, s6)) => match read_optional_media(s6) {
                                Some((media_id, rest)) => Some(
                                    (
                                        StateHeartbeatView {
                                            origin,
                                            origin_ts_ms: ts as u64,
                                            media_pos_ms: pos as u64,
                                            paused,
                                            speed_centi: speed as u16,
                                            ready,
                                            media_id,
                                        },
                                        rest,
                                    ),
                                ),
                                None => None,
                            },
                            None => None,
                        },
                        None => None,
                    },
                    None => None,
                },
                None => None,
            },
            None => None,
        },
        None => None,
    }
}

pub open spec fn read_roster_entry(s: Seq<u8>) -> Option<(RosterEntryView, Seq<u8>)> {
    match read_node(s) {
        Some((node, s1)) => match read_text(s1) {
            Some((nickname, s2)) => match read_byte_string(s2) {
                Some((addr, rest)) => Some(((node, nickname, addr), rest)),
                None => None,
            },
            None => None,
        },
        None => None,
    }
}

/// Reads `count` entries.
pub open spec fn read_roster(s: Seq<u8>, count: nat) -> Option<(Seq<RosterEntryView>, Seq<u8>)>
    decreases count,
{
    if count == 0 {
        Some((seq![], s))
    } else {
        match read_roster_entry(s) {
            Some((e, s1)) => match read_roster(s1, (count - 1) as nat) {
                Some((es, rest)) => Some((seq![e] + es, rest)),
                None => None,
            },
            None => None,
        }
    }
}

pub open spec fn read_presence(s: Seq<u8>) -> Option<(PresenceEventView, Seq<u8>)> {
    match read_u32(s) {
        Some((tag, s1)) => if tag == 4 {
            match read_len(s1) {
                Some((count, s2)) => match read_roster(s2, count) {
                    Some((peers, rest)) => Some((PresenceEventView::PeerList { peers }, rest)),
                    None => None,
                },
                None => None,
            }
        } else if tag > 5 {
            None
        } else {
            match read_node(s1) {
                Some((node, s2)) => if tag == 1 {
                    Some((PresenceEventView::Leave { node }, s2))
                } else if tag == 2 {
                    match read_flag(s2) {
                        Some((ready, rest)) => Some(
                            (PresenceEventView::Ready { node, ready }, rest),
                        ),
                        None => None,
                    }
                } else if tag == 5 {
                    match read_byte_string(s2) {
                        Some((addr_bytes, rest)) => Some(
                            (PresenceEventView::AddrAnnounce { node, addr_bytes }, rest),
                        ),
                        None => None,
                    }
                } else {
                    match read_text(s2) {
                        Some((nickname, rest)) => Some(
                            (
                                if tag == 0 {
                                    PresenceEventView::Join { node, nickname }
                                } else {
                                    PresenceEventView::Rename { node, nickname }
                                },
                                rest,
                            ),
                        ),
                        None => None,
                    }
                },
                None => None,
            }
        },
        None => None,
    }
}

pub open spec fn read_chat(s: Seq<u8>) -> Option<(ChatMessageView, Seq<u8>)> {
    match read_node(s) {
        Some((origin, s1)) => match read_u64(s1) {
            Some((ts, s2)) => match read_text(s2) {
                Some((t, rest)) => Some(
                    (ChatMessageView { origin, origin_ts_ms: ts as u64, text: t }, rest),
                ),
                None => None,
            },
            None => None,
        },
        None => None,
    }
}

/// The frame at the start of `s`, and the bytes after it.
pub open spec fn read_frame(s: Seq<u8>) -> Option<(FrameView, Seq<u8>)> {
    match read_u32(s) {
        Some((tag, s1)) => if tag == 0 {
            match read_event(s1) {
                Some((ev, rest)) => Some((FrameView::Control(ev), rest)),
                None => None,
            }
        } else if tag == 1 {
            match read_heartbeat(s1) {
                Some((hb, rest)) => Some((FrameView::Heartbeat(hb), rest)),
                None => None,
            }
        } else if tag == 2 {
            match read_presence(s1) {
                Some((p, rest)) => Some((FrameView::Presence(p), rest)),
                None => None,
            }
        } else if tag == 3 {
            match read_chat(s1) {
                Some((msg, rest)) => Some((FrameView::Chat(msg), rest)),
                None => None,
            }
        } else {
            None
        },
        None => None,
    }
}

/// The frame that `s` holds. Bytes after it are ignored.
pub open spec fn decoded(s: Seq<u8>) -> Option<FrameView> {
    match read_frame(s) {
        Some((f, _)) => Some(f),
        None => None,
    }
}

// --- Encoding ---

/// Appends `bytes` to `out`.
fn append(out: &mut Vec<u8>, bytes: Vec<u8>)
    ensures
        final(out)@ == old(out)@ + bytes@,
{
    let mut bytes = bytes;
    out.append(&mut bytes);
}

fn put_media(out: &mut Vec<u8>, m: &MediaId)
    ensures
        final(out)@ == old(out)@ + media_bytes(m@),
{
    append(out, put_str(m.filename_lower.as_str()));
    append(out, put_u64(m.size_bytes));
    append(out, put_u64(m.duration_s as u64));
    assert(out@ =~= old(out)@ + media_bytes(m@));
}

fn put_action(out: &mut Vec<u8>, a: &ControlAction)
    ensures
        final(out)@ == old(out)@ + action_bytes(a@),
{
    match a {
        ControlAction::Play { media_pos_ms } => {
            append(out, put_u64(0));
            append(out, put_u64(*media_pos_ms));
        }
        ControlAction::Pause { media_pos_ms } => {
            append(out, put_u64(1));
            append(out, put_u64(*media_pos_ms));
        }
        ControlAction::Seek { media_pos_ms } => {
            append(out, put_u64(2));
            append(out, put_u64(*media_pos_ms));
        }
        ControlAction::SetSpeed { speed_centi } => {
            append(out, put_u64(3));
            append(out, put_u64(*speed_centi as u64));
        }
        ControlAction::MediaChanged { id } => {
            append(out, put_u64(4));
            put_media(out, id);
        }
    }
    assert(out@ =~= old(out)@ + action_bytes(a@));
}

fn put_event(out: &mut Vec<u8>, ev: &ControlEvent)
    ensures
        final(out)@ == old(out)@ + event_bytes(ev@),
{
    append(out, put_array(&ev.origin.0));
    append(out, put_u64(ev.origin_ts_ms));
    append(out, put_u64(ev.seq));
    put_action(out, &ev.action);
    assert(out@ =~= old(out)@ + event_bytes(ev@));
}

fn put_heartbeat(out: &mut Vec<u8>, hb: &StateHeartbeat)
    ensures
        final(out)@ == old(out)@ + heartbeat_bytes(hb@),
{
    append(out, put_array(&hb.origin.0));
    append(out, put_u64(hb.origin_ts_ms));
    append(out, put_u64(hb.media_pos_ms));
    append(out, put_bool(hb.paused));
    append(out, put_u64(hb.speed_centi as u64));
    append(out, put_bool(hb.ready));
    match &hb.media_id {
        Some(id) => {
            append(out, put_bool(true));
            put_media(out, id);
        }
        None => {
            append(out, put_bool(false));
        }
    }
    assert(out@ =~= old(out)@ + heartbeat_bytes(hb@));
}

fn put_roster(out: &mut Vec<u8>, peers: &Vec<RosterEntry>)
    ensures
        final(out)@ == old(out)@ + roster_bytes(roster_view(peers@)),
{
    let ghost all = roster_view(peers@);
    let mut i: usize = 0;
    proof {
        assert(all.skip(0) =~= all);
    }
    while i < peers.len()
        invariant
            0 <= i <= peers@.len(),
            all == roster_view(peers@),
            out@ + roster_bytes(all.skip(i as int)) =~= old(out)@ + roster_bytes(all),
        decreases peers@.len() - i,
    {
        let e = &peers[i];
        let ghost before = out@;
        append(out, put_array(&e.0.0));
        append(out, put_str(e.1.as_str()));
        append(out, put_bytes(e.2.as_slice()));
        proof {
            let here = all.skip(i as int);
            assert(here[0] == roster_entry_view(*e));
            assert(here.skip(1) =~= all.skip(i + 1));
            assert(out@ =~= before + roster_entry_bytes(here[0]));
        }
        i = i + 1;
    }
    proof {
        assert(all.skip(all.len() as int) =~= Seq::empty());
        assert(out@ =~= old(out)@ + roster_bytes(all));
    }
}

fn put_presence(out: &mut Vec<u8>, p: &PresenceEvent)
    ensures
        final(out)@ == old(out)@ + presence_bytes(p@),
{
    match p {
        PresenceEvent::Join { node, nickname } => {
            append(out, put_u64(0));
            append(out, put_array(&node.0));
            append(out, put_str(nickname.as_str()));
        }
        PresenceEvent::Leave { node } => {
            append(out, put_u64(1));
            append(out, put_array(&node.0));
        }
        PresenceEvent::Ready { node, ready } => {
            append(out, put_u64(2));
            append(out, put_array(&node.0));
            append(out, put_bool(*ready));
        }
        PresenceEvent::Rename { node, nickname } => {
            append(out, put_u64(3));
            append(out, put_array(&node.0));
            append(out, put_str(nickname.as_str()));
        }
        PresenceEvent::PeerList { peers } => {
            append(out, put_u64(4));
            append(out, put_u64(peers.len() as u64));
            put_roster(out, peers);
        }
        PresenceEvent::AddrAnnounce { node, addr_bytes } => {
            append(out, put_u64(5));
            append(out, put_array(&node.0));
            append(out, put_bytes(addr_bytes.as_slice()));
        }
    }
    assert(out@ =~= old(out)@ + presence_bytes(p@));
}

fn put_chat(out: &mut Vec<u8>, msg: &ChatMessage)
    ensures
        final(out)@ == old(out)@ + chat_bytes(msg@),
{
    append(out, put_array(&msg.origin.0));
    append(out, put_u64(msg.origin_ts_ms));
    append(out, put_str(msg.text.as_str()));
    assert(out@ =~= old(out)@ + chat_bytes(msg@));
}

// --- Decoding ---

fn take_node(s: &[u8]) -> (r: Result<(NodeId, &[u8]), postcard::Error>)
    ensures
        match r {
            Ok((v, rest)) => read_node(s@) == Some((v, rest@)),
            Err(_) => read_node(s@) is None,
        },
{
    match take_array(s) {
        Ok((b, rest)) => {
            proof {
                lemma_same_bytes(node_of(b@), NodeId(b));
            }
            Ok((NodeId(b), rest))
        }
        Err(e) => Err(e),
    }
}

fn take_media(s: &[u8]) -> (r: Result<(MediaId, &[u8]), postcard::Error>)
    ensures
        match r {
            Ok((v, rest)) => read_media(s@) == Some((v@, rest@)),
            Err(_) => read_media(s@) is None,
        },
{
    let (filename_lower, s1) = take_string(s)?;
    let (size_bytes, s2) = take_u64(s1)?;
    let (duration_s, rest) = take_u32(s2)?;
    Ok((MediaId { filename_lower, size_bytes, duration_s }, rest))
}

fn take_action(s: &[u8]) -> (r: Result<(ControlAction, &[u8]), postcard::Error>)
    ensures
        match r {
            Ok((v, rest)) => read_action(s@) == Some((v@, rest@)),
            Err(_) => read_action(s@) is None,
        },
{
    let (tag, s1) = take_u32(s)?;
    if tag <= 2 {
        let (media_pos_ms, rest) = take_u64(s1)?;
        let action = if tag == 0 {
            ControlAction::Play { media_pos_ms }
        } else if tag == 1 {
            ControlAction::Pause { media_pos_ms }
        } else {
            ControlAction::Seek { media_pos_ms }
        };
        Ok((action, rest))
    } else if tag == 3 {
        let (speed_centi, rest) = take_u16(s1)?;
        Ok((ControlAction::SetSpeed { speed_centi }, rest))
    } else if tag == 4 {
        let (id, rest) = take_media(s1)?;
        Ok((ControlAction::MediaChanged { id }, rest))
    } else {
        Err(no_such_variant())
    }
}

fn take_event(s: &[u8]) -> (r: Result<(ControlEvent, &[u8]), postcard::Error>)
    ensures
        match r {
            Ok((v, rest)) => read_event(s@) == Some((v@, rest@)),
            Err(_) => read_event(s@) is None,
        },
{
    let (origin, s1) = take_node(s)?;
    let (origin_ts_ms, s2) = take_u64(s1)?;
    let (seq, s3) = take_u64(s2)?;
    let (action, rest) = take_action(s3)?;
    Ok((ControlEvent { origin, origin_ts_ms, seq, action }, rest))
}

fn take_optional_media(s: &[u8]) -> (r: Result<(Option<MediaId>, &[u8]), postcard::Error>)
    ensures
        match r {
            Ok((v, rest)) => read_optional_media(s@) == Some((media_view(v), rest@)),
            Err(_) => read_optional_media(s@) is None,
        },
{
    let (tag, s1) = take_option(s)?;
    match tag {
        Some(_) => {
            let (id, rest) = take_media(s1)?;
            Ok((Some(id), rest))
        }
        None => Ok((None, s1)),
    }
}

fn take_heartbeat(s: &[u8]) -> (r: Result<(StateHeartbeat, &[u8]), postcard::Error>)
    ensures
        match r {
            Ok((v, rest)) => read_heartbeat(s@) == Some((v@, rest@)),
            Err(_) => read_heartbeat(s@) is None,
        },
{
    let (origin, s1) = take_node(s)?;
    let (origin_ts_ms, s2) = take_u64(s1)?;
    let (media_pos_ms, s3) = take_u64(s2)?;
    let (paused, s4) = take_bool(s3)?;
    let (speed_centi, s5) = take_u16(s4)?;
    let (ready, s6) = take_bool(s5)?;
    let (media_id, rest) = take_optional_media(s6)?;
    Ok(
        (
            StateHeartbeat {
                origin,
                origin_ts_ms,
                media_pos_ms,
                paused,
                speed_centi,
                ready,
                media_id,
            },
            rest,
        ),
    )
}

fn take_roster_entry(s: &[u8]) -> (r: Result<(RosterEntry, &[u8]), postcard::Error>)
    ensures
        match r {
            Ok((v, rest)) => read_roster_entry(s@) == Some((roster_entry_view(v), rest@)),
            Err(_) => read_roster_entry(s@) is None,
        },
{
    let (node, s1) = take_node(s)?;
    let (nickname, s2) = take_string(s1)?;
    let (addr, rest) = take_bytes(s2)?;
    Ok(((node, nickname, addr), rest))
}

fn take_roster(s: &[u8], count: usize) -> (r: Result<(Vec<RosterEntry>, &[u8]), postcard::Error>)
    ensures
        match r {
            Ok((v, rest)) => read_roster(s@, count as nat) == Some((roster_view(v@), rest@)),
            Err(_) => read_roster(s@, count as nat) is None,
        },
{
    let mut entries: Vec<RosterEntry> = Vec::new();
    let mut left: usize = count;
    let mut rest: &[u8] = s;
    proof {
        assert(roster_view(entries@) =~= Seq::<RosterEntryView>::empty());
        lemma_prepend_nothing(read_roster(s@, count as nat));
    }
    while left > 0
        invariant
            left <= count,
            read_roster(s@, count as nat) == prepend(
                roster_view(entries@),
                read_roster(rest@, left as nat),
            ),
        decreases left,
    {
        let ghost tail = read_roster(rest@, left as nat);
        let ghost head = roster_view(entries@);
        match take_roster_entry(rest) {
            Ok((e, after)) => {
                entries.push(e);
                proof {
                    let e_view = roster_entry_view(e);
                    assert(roster_view(entries@) =~= head.push(e_view));
                    lemma_prepend_push(head, e_view, read_roster(after@, (left - 1) as nat));
                }
                rest = after;
            }
            Err(e) => {
                return Err(e);
            }
        }
        left = left - 1;
    }
    proof {
        assert(roster_view(entries@) + Seq::<RosterEntryView>::empty() =~= roster_view(entries@));
    }
    Ok((entries, rest))
}

/// A reading with `head` put in front.
spec fn prepend(
    head: Seq<RosterEntryView>,
    tail: Option<(Seq<RosterEntryView>, Seq<u8>)>,
) -> Option<(Seq<RosterEntryView>, Seq<u8>)> {
    match tail {
        Some((es, rest)) => Some((head + es, rest)),
        None => None,
    }
}

proof fn lemma_prepend_nothing(tail: Option<(Seq<RosterEntryView>, Seq<u8>)>)
    ensures
        prepend(Seq::empty(), tail) == tail,
{
    if let Some((es, rest)) = tail {
        assert(Seq::<RosterEntryView>::empty() + es =~= es);
    }
}

proof fn lemma_prepend_push(
    head: Seq<RosterEntryView>,
    e: RosterEntryView,
    tail: Option<(Seq<RosterEntryView>, Seq<u8>)>,
)
    ensures
        prepend(head.push(e), tail) == prepend(head, prepend(seq![e], tail)),
{
    if let Some((es, rest)) = tail {
        assert(head.push(e) + es =~= head + (seq![e] + es));
    }
}

fn take_presence(s: &[u8]) -> (r: Result<(PresenceEvent, &[u8]), postcard::Error>)
    ensures
        match r {
            Ok((v, rest)) => read_presence(s@) == Some((v@, rest@)),
            Err(_) => read_presence(s@) is None,
        },
{
    let (tag, s1) = take_u32(s)?;
    if tag == 4 {
        let (count, s2) = take_len(s1)?;
        let (peers, rest) = take_roster(s2, count)?;
        Ok((PresenceEvent::PeerList { peers }, rest))
    } else if tag > 5 {
        Err(no_such_variant())
    } else {
        let (node, s2) = take_node(s1)?;
        if tag == 1 {
            Ok((PresenceEvent::Leave { node }, s2))
        } else if tag == 2 {
            let (ready, rest) = take_bool(s2)?;
            Ok((PresenceEvent::Ready { node, ready }, rest))
        } else if tag == 5 {
            let (addr_bytes, rest) = take_bytes(s2)?;
            Ok((PresenceEvent::AddrAnnounce { node, addr_bytes }, rest))
        } else {
            let (nickname, rest) = take_string(s2)?;
            if tag == 0 {
                Ok((PresenceEvent::Join { node, nickname }, rest))
            } else {
                Ok((PresenceEvent::Rename { node, nickname }, rest))
            }
        }
    }
}

fn take_chat(s: &[u8]) -> (r: Result<(ChatMessage, &[u8]), postcard::Error>)
    ensures
        match r {
            Ok((v, rest)) => read_chat(s@) == Some((v@, rest@)),
            Err(_) => read_chat(s@) is None,
        },
{
    let (origin, s1) = take_node(s)?;
    let (origin_ts_ms, s2) = take_u64(s1)?;
    let (text, rest) = take_string(s2)?;
    Ok((ChatMessage { origin, origin_ts_ms, text }, rest))
}

fn take_frame(s: &[u8]) -> (r: Result<(Frame, &[u8]), postcard::Error>)
    ensures
        match r {
            Ok((v, rest)) => read_frame(s@) == Some((v@, rest@)),
            Err(_) => read_frame(s@) is None,
        },
{
    let (tag, s1) = take_u32(s)?;
    if tag == 0 {
        let (ev, rest) = take_event(s1)?;
        Ok((Frame::Control(ev), rest))
    } else if tag == 1 {
        let (hb, rest) = take_heartbeat(s1)?;
        Ok((Frame::Heartbeat(hb), rest))
    } else if tag == 2 {
        let (p, rest) = take_presence(s1)?;
        Ok((Frame::Presence(p), rest))
    } else if tag == 3 {
        let (msg, rest) = take_chat(s1)?;
        Ok((Frame::Chat(msg), rest))
    } else {
        Err(no_such_variant())
    }
}

impl Frame {
    /// Encode to postcard bytes.
    pub fn encode(&self) -> (r: Vec<u8>)
        ensures
            r@ == frame_bytes(self@),
    {
        let mut out: Vec<u8> = Vec::new();
        match self {
            Frame::Control(ev) => {
                append(&mut out, put_u64(0));
                put_event(&mut out, ev);
            }
            Frame::Heartbeat(hb) => {
                append(&mut out, put_u64(1));
                put_heartbeat(&mut out, hb);
            }
            Frame::Presence(p) => {
                append(&mut out, put_u64(2));
                put_presence(&mut out, p);
            }
            Frame::Chat(msg) => {
                append(&mut out, put_u64(3));
                put_chat(&mut out, msg);
            }
        }
        assert(out@ =~= frame_bytes(self@));
        out
    }

    /// Decode from postcard bytes. Bytes after the frame are ignored.
    pub fn decode(bytes: &[u8]) -> (r: Result<Frame, DecodeError>)
        ensures
            match r {
                Ok(f) => decoded(bytes@) == Some(f@),
                Err(_) => decoded(bytes@) is None,
            },
    {
        match take_frame(bytes) {
            Ok((f, _)) => Ok(f),
            Err(e) => Err(DecodeError::Postcard(e)),
        }
    }
}

// --- Reading back what was written ---

/// Text whose length fits in a `usize`, as that of every string does.
pub open spec fn text_fits(t: Seq<char>) -> bool {
    encode_utf8(t).len() <= usize::MAX
}

pub open spec fn media_fits(m: MediaIdView) -> bool {
    text_fits(m.filename_lower)
}

pub open spec fn roster_entry_fits(e: RosterEntryView) -> bool {
    text_fits(e.1) && e.2.len() <= usize::MAX
}

/// The lengths in the frame fit in a `usize`, as those of all strings and
/// vectors do.
pub open spec fn frame_fits(f: FrameView) -> bool {
    match f {
        FrameView::Control(ev) => match ev.action {
            ControlActionView::MediaChanged { id } => media_fits(id),
            _ => true,
        },
        FrameView::Heartbeat(hb) => match hb.media_id {
            Some(id) => media_fits(id),
            None => true,
        },
        FrameView::Presence(p) => match p {
            PresenceEventView::Join { nickname, .. } => text_fits(nickname),
            PresenceEventView::Rename { nickname, .. } => text_fits(nickname),
            PresenceEventView::PeerList { peers } => peers.len() <= usize::MAX && forall|i: int|
                0 <= i < peers.len() ==> roster_entry_fits(#[trigger] peers[i]),
            PresenceEventView::AddrAnnounce { addr_bytes, .. } => addr_bytes.len() <= usize::MAX,
            _ => true,
        },
        FrameView::Chat(msg) => text_fits(msg.text),
    }
}

proof fn lemma_regroup(a: Seq<u8>, b: Seq<u8>, c: Seq<u8>)
    ensures
        (a + b) + c == a + (b + c),
{
    assert((a + b) + c =~= a + (b + c));
}

proof fn lemma_node(n: NodeId, rest: Seq<u8>)
    ensures
        read_node(node_bytes(n) + rest) == Some((n, rest)),
{
    lemma_read_array(n.0@, rest);
    lemma_same_bytes(node_of(n.0@), n);
}

proof fn lemma_media(m: MediaIdView, rest: Seq<u8>)
    requires
        media_fits(m),
    ensures
        read_media(media_bytes(m) + rest) == Some((m, rest)),
{
    let s2 = varint(m.duration_s as nat) + rest;
    let s1 = varint(m.size_bytes as nat) + s2;
    assert(media_bytes(m) + rest =~= text(m.filename_lower) + s1);
    lemma_read_text(m.filename_lower, s1);
    lemma_read_u64(m.size_bytes, s2);
    lemma_read_u32(m.duration_s, rest);
}

proof fn lemma_action(a: ControlActionView, rest: Seq<u8>)
    requires
        a matches ControlActionView::MediaChanged { id } ==> media_fits(id),
    ensures
        read_action(action_bytes(a) + rest) == Some((a, rest)),
{
    match a {
        ControlActionView::Play { media_pos_ms } => {
            let s1 = varint(media_pos_ms as nat) + rest;
            assert(action_bytes(a) + rest =~= varint(0) + s1);
            lemma_read_u32(0, s1);
            lemma_read_u64(media_pos_ms, rest);
        },
        ControlActionView::Pause { media_pos_ms } => {
            let s1 = varint(media_pos_ms as nat) + rest;
            assert(action_bytes(a) + rest =~= varint(1) + s1);
            lemma_read_u32(1, s1);
            lemma_read_u64(media_pos_ms, rest);
        },
        ControlActionView::Seek { media_pos_ms } => {
            let s1 = varint(media_pos_ms as nat) + rest;
            assert(action_bytes(a) + rest =~= varint(2) + s1);
            lemma_read_u32(2, s1);
            lemma_read_u64(media_pos_ms, rest);
        },
        ControlActionView::SetSpeed { speed_centi } => {
            let s1 = varint(speed_centi as nat) + rest;
            assert(action_bytes(a) + rest =~= varint(3) + s1);
            lemma_read_u32(3, s1);
            lemma_read_u16(speed_centi, rest);
        },
        ControlActionView::MediaChanged { id } => {
            let s1 = media_bytes(id) + rest;
            assert(action_bytes(a) + rest =~= varint(4) + s1);
            lemma_read_u32(4, s1);
            lemma_media(id, rest);
        },
    }
}

#[verifier::spinoff_prover]
proof fn lemma_event(ev: ControlEventView, rest: Seq<u8>)
    requires
        ev.action matches ControlActionView::MediaChanged { id } ==> media_fits(id),
    ensures
        read_event(event_bytes(ev) + rest) == Some((ev, rest)),
{
    let s3 = action_bytes(ev.action) + rest;
    let s2 = varint(ev.seq as nat) + s3;
    let s1 = varint(ev.origin_ts_ms as nat) + s2;
    assert(event_bytes(ev) + rest =~= node_bytes(ev.origin) + s1);
    lemma_node(ev.origin, s1);
    lemma_read_u64(ev.origin_ts_ms, s2);
    lemma_read_u64(ev.seq, s3);
    lemma_action(ev.action, rest);
}

proof fn lemma_optional_media(m: Option<MediaIdView>, rest: Seq<u8>)
    requires
        m matches Some(id) ==> media_fits(id),
    ensures
        read_optional_media(optional_media_bytes(m) + rest) == Some((m, rest)),
{
    match m {
        Some(id) => {
            lemma_regroup(flag(true), media_bytes(id), rest);
            lemma_read_flag(true, media_bytes(id) + rest);
            lemma_media(id, rest);
        },
        None => {
            lemma_read_flag(false, rest);
        },
    }
}

#[verifier::spinoff_prover]
proof fn lemma_heartbeat(hb: StateHeartbeatView, rest: Seq<u8>)
    requires
        hb.media_id matches Some(id) ==> media_fits(id),
    ensures
        read_heartbeat(heartbeat_bytes(hb) + rest) == Some((hb, rest)),
{
    let b1 = node_bytes(hb.origin);
    let b2 = varint(hb.origin_ts_ms as nat);
    let b3 = varint(hb.media_pos_ms as nat);
    let b4 = flag(hb.paused);
    let b5 = varint(hb.speed_centi as nat);
    let b6 = flag(hb.ready);
    let b7 = optional_media_bytes(hb.media_id);
    let s6 = b7 + rest;
    let s5 = b6 + s6;
    let s4 = b5 + s5;
    let s3 = b4 + s4;
    let s2 = b3 + s3;
    let s1 = b2 + s2;
    assert(heartbeat_bytes(hb) + rest == b1 + s1) by {
        lemma_regroup(b1 + b2 + b3 + b4 + b5 + b6, b7, rest);
        lemma_regroup(b1 + b2 + b3 + b4 + b5, b6, s6);
        lemma_regroup(b1 + b2 + b3 + b4, b5, s5);
        lemma_regroup(b1 + b2 + b3, b4, s4);
        lemma_regroup(b1 + b2, b3, s3);
        lemma_regroup(b1, b2, s2);
    }
    assert(read_node(b1 + s1) == Some((hb.origin, s1))) by {
        lemma_node(hb.origin, s1);
    }
    assert(read_u64(s1) == Some((hb.origin_ts_ms as nat, s2))) by {
        lemma_read_u64(hb.origin_ts_ms, s2);
    }
    assert(read_u64(s2) == Some((hb.media_pos_ms as nat, s3))) by {
        lemma_read_u64(hb.media_pos_ms, s3);
    }
    assert(read_flag(s3) == Some((hb.paused, s4))) by {
        lemma_read_flag(hb.paused, s4);
    }
    assert(read_u16(s4) == Some((hb.speed_centi as nat, s5))) by {
        lemma_read_u16(hb.speed_centi, s5);
    }
    assert(read_flag(s5) == Some((hb.ready, s6))) by {
        lemma_read_flag(hb.ready, s6);
    }
    assert(read_optional_media(s6) == Some((hb.media_id, rest))) by {
        lemma_optional_media(hb.media_id, rest);
    }
}

proof fn lemma_roster(entries: Seq<RosterEntryView>, rest: Seq<u8>)
    requires
        forall|i: int| 0 <= i < entries.len() ==> roster_entry_fits(#[trigger] entries[i]),
    ensures
        read_roster(roster_bytes(entries) + rest, entries.len()) == Some((entries, rest)),
    decreases entries.len(),
{
    if entries.len() == 0 {
        assert(roster_bytes(entries) + rest =~= rest);
        assert(entries =~= seq![]);
    } else {
        let e = entries[0];
        let tail = entries.skip(1);
        let s3 = roster_bytes(tail) + rest;
        let s2 = byte_string(e.2) + s3;
        let s1 = text(e.1) + s2;
        assert(roster_entry_fits(entries[0]));
        assert(roster_bytes(entries) + rest =~= node_bytes(e.0) + s1);
        lemma_node(e.0, s1);
        lemma_read_text(e.1, s2);
        lemma_read_byte_string(e.2, s3);
        assert forall|i: int| 0 <= i < tail.len() implies roster_entry_fits(#[trigger] tail[i]) by {
            assert(roster_entry_fits(entries[i + 1]));
        }
        lemma_roster(tail, rest);
        assert(seq![e] + tail =~= entries);
    }
}

#[verifier::spinoff_prover]
proof fn lemma_presence(p: PresenceEventView, rest: Seq<u8>)
    requires
        frame_fits(FrameView::Presence(p)),
    ensures
        read_presence(presence_bytes(p) + rest) == Some((p, rest)),
{
    match p {
        PresenceEventView::Join { node, nickname } => {
            let s2 = text(nickname) + rest;
            let s1 = node_bytes(node) + s2;
            assert(presence_bytes(p) + rest =~= varint(0) + s1);
            lemma_read_u32(0, s1);
            lemma_node(node, s2);
            lemma_read_text(nickname, rest);
        },
        PresenceEventView::Leave { node } => {
            let s1 = node_bytes(node) + rest;
            assert(presence_bytes(p) + rest =~= varint(1) + s1);
            lemma_read_u32(1, s1);
            lemma_node(node, rest);
        },
        PresenceEventView::Ready { node, ready } => {
            let s2 = flag(ready) + rest;
            let s1 = node_bytes(node) + s2;
            assert(presence_bytes(p) + rest =~= varint(2) + s1);
            lemma_read_u32(2, s1);
            lemma_node(node, s2);
            lemma_read_flag(ready, rest);
        },
        PresenceEventView::Rename { node, nickname } => {
            let s2 = text(nickname) + rest;
            let s1 = node_bytes(node) + s2;
            assert(presence_bytes(p) + rest =~= varint(3) + s1);
            lemma_read_u32(3, s1);
            lemma_node(node, s2);
            lemma_read_text(nickname, rest);
        },
        PresenceEventView::PeerList { peers } => {
            let s2 = roster_bytes(peers) + rest;
            let s1 = varint(peers.len()) + s2;
            assert(presence_bytes(p) + rest =~= varint(4) + s1);
            lemma_read_u32(4, s1);
            lemma_read_len(peers.len() as usize, s2);
            lemma_roster(peers, rest);
        },
        PresenceEventView::AddrAnnounce { node, addr_bytes } => {
            let s2 = byte_string(addr_bytes) + rest;
            let s1 = node_bytes(node) + s2;
            assert(presence_bytes(p) + rest =~= varint(5) + s1);
            lemma_read_u32(5, s1);
            lemma_node(node, s2);
            lemma_read_byte_string(addr_bytes, rest);
        },
    }
}

proof fn lemma_chat(msg: ChatMessageView, rest: Seq<u8>)
    requires
        text_fits(msg.text),
    ensures
        read_chat(chat_bytes(msg) + rest) == Some((msg, rest)),
{
    let s3 = text(msg.text) + rest;
    let s2 = varint(msg.origin_ts_ms as nat) + s3;
    assert(chat_bytes(msg) + rest =~= node_bytes(msg.origin) + s2);
    lemma_node(msg.origin, s2);
    lemma_read_u64(msg.origin_ts_ms, s3);
    lemma_read_text(msg.text, rest);
}

/// Decoding gives back what was encoded, and leaves alone whatever follows it.
pub proof fn law_decode_inverts_encode(f: FrameView, rest: Seq<u8>)
    requires
        frame_fits(f),
    ensures
        read_frame(frame_bytes(f) + rest) == Some((f, rest)),
        decoded(frame_bytes(f)) == Some(f),
{
    lemma_frame(f, rest);
    lemma_frame(f, Seq::empty());
    assert(frame_bytes(f) + Seq::<u8>::empty() =~= frame_bytes(f));
}

proof fn lemma_frame(f: FrameView, rest: Seq<u8>)
    requires
        frame_fits(f),
    ensures
        read_frame(frame_bytes(f) + rest) == Some((f, rest)),
{
    match f {
        FrameView::Control(ev) => {
            lemma_control_frame(ev, rest);
        },
        FrameView::Heartbeat(hb) => {
            lemma_heartbeat_frame(hb, rest);
        },
        FrameView::Presence(p) => {
            lemma_presence_frame(p, rest);
        },
        FrameView::Chat(msg) => {
            lemma_chat_frame(msg, rest);
        },
    }
}

/// Reading a frame starts with its number.
proof fn lemma_frame_tag(tag: u32, body: Seq<u8>, rest: Seq<u8>)
    ensures
        read_u32((varint(tag as nat) + body) + rest) == Some((tag as nat, body + rest)),
{
    assert((varint(tag as nat) + body) + rest =~= varint(tag as nat) + (body + rest));
    lemma_read_u32(tag, body + rest);
}

#[verifier::spinoff_prover]
proof fn lemma_control_frame(ev: ControlEventView, rest: Seq<u8>)
    requires
        frame_fits(FrameView::Control(ev)),
    ensures
        read_frame(frame_bytes(FrameView::Control(ev)) + rest) == Some(
            (FrameView::Control(ev), rest),
        ),
{
    lemma_frame_tag(0, event_bytes(ev), rest);
    assert(read_event(event_bytes(ev) + rest) == Some((ev, rest))) by {
        lemma_event(ev, rest);
    }
}

#[verifier::spinoff_prover]
proof fn lemma_heartbeat_frame(hb: StateHeartbeatView, rest: Seq<u8>)
    requires
        frame_fits(FrameView::Heartbeat(hb)),
    ensures
        read_frame(frame_bytes(FrameView::Heartbeat(hb)) + rest) == Some(
            (FrameView::Heartbeat(hb), rest),
        ),
{
    lemma_frame_tag(1, heartbeat_bytes(hb), rest);
    assert(read_heartbeat(heartbeat_bytes(hb) + rest) == Some((hb, rest))) by {
        lemma_heartbeat(hb, rest);
    }
}

#[verifier::spinoff_prover]
proof fn lemma_presence_frame(p: PresenceEventView, rest: Seq<u8>)
    requires
        frame_fits(FrameView::Presence(p)),
    ensures
        read_frame(frame_bytes(FrameView::Presence(p)) + rest) == Some(
            (FrameView::Presence(p), rest),
        ),
{
    lemma_frame_tag(2, presence_bytes(p), rest);
    assert(read_presence(presence_bytes(p) + rest) == Some((p, rest))) by {
        lemma_presence(p, rest);
    }
}

#[verifier::spinoff_prover]
proof fn lemma_chat_frame(msg: ChatMessageView, rest: Seq<u8>)
    requires
        frame_fits(FrameView::Chat(msg)),
    ensures
        read_frame(frame_bytes(FrameView::Chat(msg)) + rest) == Some((FrameView::Chat(msg), rest)),
{
    lemma_frame_tag(3, chat_bytes(msg), rest);
    assert(read_chat(chat_bytes(msg) + rest) == Some((msg, rest))) by {
        lemma_chat(msg, rest);
    }
}

/// Different frames have different wire forms.
pub proof fn law_encoding_is_injective(f: FrameView, g: FrameView)
    requires
        frame_fits(f),
        frame_fits(g),
        frame_bytes(f) == frame_bytes(g),
    ensures
        f == g,
{
    law_decode_inverts_encode(f, Seq::empty());
    law_decode_inverts_encode(g, Seq::empty());
}

/// A control event that names no file takes at most 64 bytes.
pub proof fn law_control_event_stays_compact(ev: ControlEventView)
    requires
        !(ev.action is MediaChanged),
    ensures
        frame_bytes(FrameView::Control(ev)).len() <= 64,
{
    let nothing = Seq::<u8>::empty();
    lemma_read_u64(ev.origin_ts_ms, nothing);
    lemma_read_u64(ev.seq, nothing);
    match ev.action {
        ControlActionView::Play { media_pos_ms } => lemma_read_u64(media_pos_ms, nothing),
        ControlActionView::Pause { media_pos_ms } => lemma_read_u64(media_pos_ms, nothing),
        ControlActionView::Seek { media_pos_ms } => lemma_read_u64(media_pos_ms, nothing),
        ControlActionView::SetSpeed { speed_centi } => lemma_read_u16(speed_centi, nothing),
        _ => {},
    }
}

/// The wire form field by field: the number of the variant, then its fields in
/// order, each as postcard writes it. Positions, times and numbers are varints,
/// identifiers their 32 bytes.
pub proof fn law_wire_form_field_by_field(f: FrameView)
    ensures
        match f {
            FrameView::Control(ev) => frame_bytes(f) == seq![0u8] + ev.origin.0@ + varint(
                ev.origin_ts_ms as nat,
            ) + varint(ev.seq as nat) + match ev.action {
                ControlActionView::Play { media_pos_ms } => seq![0u8] + varint(media_pos_ms as nat),
                ControlActionView::Pause { media_pos_ms } => seq![1u8] + varint(
                    media_pos_ms as nat,
                ),
                ControlActionView::Seek { media_pos_ms } => seq![2u8] + varint(media_pos_ms as nat),
                ControlActionView::SetSpeed { speed_centi } => seq![3u8] + varint(
                    speed_centi as nat,
                ),
                ControlActionView::MediaChanged { id } => seq![4u8] + text(id.filename_lower)
                    + varint(id.size_bytes as nat) + varint(id.duration_s as nat),
            },
            FrameView::Heartbeat(hb) => frame_bytes(f) == seq![1u8] + hb.origin.0@ + varint(
                hb.origin_ts_ms as nat,
            ) + varint(hb.media_pos_ms as nat) + flag(hb.paused) + varint(hb.speed_centi as nat)
                + flag(hb.ready) + match hb.media_id {
                Some(id) => seq![1u8] + text(id.filename_lower) + varint(id.size_bytes as nat)
                    + varint(id.duration_s as nat),
                None => seq![0u8],
            },
            FrameView::Presence(p) => frame_bytes(f) == seq![2u8] + match p {
                PresenceEventView::Join { node, nickname } => seq![0u8] + node.0@ + text(nickname),
                PresenceEventView::Leave { node } => seq![1u8] + node.0@,
                PresenceEventView::Ready { node, ready } => seq![2u8] + node.0@ + flag(ready),
                PresenceEventView::Rename { node, nickname } => seq![3u8] + node.0@ + text(nickname),
                PresenceEventView::PeerList { peers } => seq![4u8] + varint(peers.len())
                    + roster_bytes(peers),
                PresenceEventView::AddrAnnounce { node, addr_bytes } => seq![5u8] + node.0@
                    + byte_string(addr_bytes),
            },
            FrameView::Chat(msg) => frame_bytes(f) == seq![3u8] + msg.origin.0@ + varint(
                msg.origin_ts_ms as nat,
            ) + text(msg.text),
        },
{
    let w = frame_bytes(f);
    match f {
        FrameView::Control(ev) => match ev.action {
            ControlActionView::Play { media_pos_ms } => {
                assert(w =~= seq![0u8] + ev.origin.0@ + varint(ev.origin_ts_ms as nat) + varint(
                    ev.seq as nat,
                ) + (seq![0u8] + varint(media_pos_ms as nat)));
            },
            ControlActionView::Pause { media_pos_ms } => {
                assert(w =~= seq![0u8] + ev.origin.0@ + varint(ev.origin_ts_ms as nat) + varint(
                    ev.seq as nat,
                ) + (seq![1u8] + varint(media_pos_ms as nat)));
            },
            ControlActionView::Seek { media_pos_ms } => {
                assert(w =~= seq![0u8] + ev.origin.0@ + varint(ev.origin_ts_ms as nat) + varint(
                    ev.seq as nat,
                ) + (seq![2u8] + varint(media_pos_ms as nat)));
            },
            ControlActionView::SetSpeed { speed_centi } => {
                assert(w =~= seq![0u8] + ev.origin.0@ + varint(ev.origin_ts_ms as nat) + varint(
                    ev.seq as nat,
                ) + (seq![3u8] + varint(speed_centi as nat)));
            },
            ControlActionView::MediaChanged { id } => {
                assert(w =~= seq![0u8] + ev.origin.0@ + varint(ev.origin_ts_ms as nat) + varint(
                    ev.seq as nat,
                ) + (seq![4u8] + text(id.filename_lower) + varint(id.size_bytes as nat) + varint(
                    id.duration_s as nat,
                )));
            },
        },
        FrameView::Heartbeat(hb) => {
            let tail = match hb.media_id {
                Some(id) => seq![1u8] + text(id.filename_lower) + varint(id.size_bytes as nat)
                    + varint(id.duration_s as nat),
                None => seq![0u8],
            };
            assert(optional_media_bytes(hb.media_id) =~= tail);
            assert(w =~= seq![1u8] + hb.origin.0@ + varint(hb.origin_ts_ms as nat) + varint(
                hb.media_pos_ms as nat,
            ) + flag(hb.paused) + varint(hb.speed_centi as nat) + flag(hb.ready) + tail);
        },
        FrameView::Presence(p) => {},
        FrameView::Chat(msg) => {
            assert(w =~= seq![3u8] + msg.origin.0@ + varint(msg.origin_ts_ms as nat) + text(
                msg.text,
            ));
        },
    }
}

/// A roster is written entry by entry: identifier, nickname, address.
pub proof fn law_rosters_are_written_in_order(entries: Seq<RosterEntryView>, e: RosterEntryView)
    ensures
        roster_bytes(Seq::empty()) == Seq::<u8>::empty(),
        roster_bytes(seq![e] + entries) == e.0.0@ + text(e.1) + byte_string(e.2) + roster_bytes(
            entries,
        ),
{
    let all = seq![e] + entries;
    assert(all.skip(1) =~= entries);
    assert(all[0] == e);
}

/// What follows a frame does not matter for decoding it, and what starts with no
/// number of a frame is none.
pub proof fn law_decoding_goes_by_the_start(f: FrameView, rest: Seq<u8>, s: Seq<u8>)
    ensures
        frame_fits(f) ==> decoded(frame_bytes(f) + rest) == Some(f),
        s.len() == 0 ==> decoded(s) is None,
        s.len() > 0 && 4 <= s[0] < 128 ==> decoded(s) is None,
        s.len() > 0 && s[0] == 0 && decoded(s) is Some ==> decoded(s)->0 is Control,
        s.len() > 0 && s[0] == 1 && decoded(s) is Some ==> decoded(s)->0 is Heartbeat,
        s.len() > 0 && s[0] == 2 && decoded(s) is Some ==> decoded(s)->0 is Presence,
        s.len() > 0 && s[0] == 3 && decoded(s) is Some ==> decoded(s)->0 is Chat,
{
    if frame_fits(f) {
        law_decode_inverts_encode(f, rest);
    }
}

} // verus!
