use std::collections::BTreeMap;
use std::rc::Rc;

use chat_chunks::chunks::{ChunkError, MsgChunk, RoomMsgChunks};
use chat_chunks::{Account, Datetime, Id, Msg, MsgViewData, Tb};

const BASE_MS: u64 = 1_700_000_000_000;

fn karol() -> Account {
    Account {
        acc_id: Id { tb: Tb::Acc, id: 7 },
        username: "Karol".into(),
        av: Rc::new(vec![1, 2, 3]),
    }
}

fn room() -> Id {
    Id { tb: Tb::Room, id: 99 }
}

fn msg_with(ms: u64, random: u128, n: u64) -> MsgViewData {
    let acc = karol();
    let id = Id { tb: Tb::Msg, id: ulid::Ulid::from_parts(ms, random).0 };
    let msg = Msg::new(id, room(), acc.acc_id, Datetime { unix_ms: ms }, format!("Really important message no: {}", n));
    MsgViewData { id, author: Rc::new(acc), room: room(), room_owner: false, msg: Rc::new(msg) }
}

fn msg_no(n: u64) -> MsgViewData {
    msg_with(BASE_MS + 2 * n, n as u128, n)
}

fn history(count: u64) -> RoomMsgChunks {
    let mut h = RoomMsgChunks::new(room());
    for n in 1..=count {
        h.append_new_msg(msg_no(n));
    }
    h
}

fn text(m: &MsgViewData) -> String {
    m.msg.text.current.clone()
}

#[test]
fn fifty_two_messages_make_three_chunks() {
    let h = history(52);
    assert_eq!(h.chunks_count, 3);
    assert_eq!(h.total_msgs, 52);
    let sizes: Vec<u8> = h.chunks.iter().map(|c| c.count).collect();
    assert_eq!(sizes, vec![20, 20, 12]);
    assert_eq!(h.chunks[1].first, msg_no(21).ulid());
    assert_eq!(h.chunks[1].last, msg_no(40).ulid());
}

#[test]
fn capacity_holds_after_every_append() {
    let mut h = RoomMsgChunks::new(room());
    for n in 1..=61 {
        h.append_new_msg(msg_no(n));
        let k = h.chunks.len();
        for c in &h.chunks[..k - 1] {
            assert_eq!(c.count, 20);
        }
        let last = h.chunks[k - 1].count;
        assert!(1 <= last && last <= 20);
    }
}

#[test]
fn appends_in_order_keep_history_sorted() {
    let h = history(45);
    let keys: Vec<u128> = h.chunks.iter().flat_map(|c| c.msgs.iter().map(|m| m.ulid())).collect();
    assert_eq!(keys.len(), 45);
    assert!(keys.windows(2).all(|w| w[0] <= w[1]));
}

#[test]
fn find_returns_every_appended_message() {
    let h = history(47);
    for n in 1..=47 {
        let want = msg_no(n);
        let found = h.find_msg(want.ulid()).unwrap();
        assert_eq!(found.id, want.id);
        assert_eq!(text(found), text(&want));
    }
    assert!(h.find_msg(msg_no(48).ulid()).is_none());
}

#[test]
fn first_view_takes_two_chunks_when_youngest_is_sparse() {
    let mut h = history(52);
    let r = h.load_new_content(None, false);
    assert_eq!(r.len(), 32);
    assert_eq!(text(&r[0]), "Really important message no: 21");
    assert!(h.display_state);
    assert_eq!((h.oldest_display_chunk_idx, h.youngest_display_chunk_idx), (1, 2));
}

#[test]
fn first_view_takes_youngest_chunk_when_full_enough() {
    let mut h = history(58);
    let r = h.load_new_content(None, true);
    assert_eq!(r.len(), 18);
    assert_eq!(text(&r[0]), "Really important message no: 41");
    assert_eq!((h.oldest_display_chunk_idx, h.youngest_display_chunk_idx), (2, 2));

    let mut single = history(15);
    assert_eq!(single.load_new_content(None, false).len(), 15);
    assert_eq!((single.oldest_display_chunk_idx, single.youngest_display_chunk_idx), (0, 0));

    let mut empty = RoomMsgChunks::new(room());
    assert!(empty.load_new_content(None, false).is_empty());
    assert!(!empty.display_state);
}

#[test]
fn limited_fetch_cuts_to_youngest_chunks() {
    let mut h = history(52);
    let r = h.load_new_content(Some(msg_no(1).ulid()), true);
    assert_eq!(r.len(), 32);
    assert_eq!(text(&r[0]), "Really important message no: 21");
    assert_eq!((h.oldest_display_chunk_idx, h.youngest_display_chunk_idx), (1, 2));

    let r = h.load_new_content(Some(msg_no(25).ulid()), true);
    assert_eq!(r.len(), 27);
    assert_eq!(text(&r[0]), "Really important message no: 26");

    let r = h.load_new_content(Some(msg_no(45).ulid()), true);
    assert_eq!(r.len(), 7);
    assert_eq!((h.oldest_display_chunk_idx, h.youngest_display_chunk_idx), (2, 2));

    let mut full = history(58);
    let r = full.load_new_content(Some(msg_no(1).ulid()), true);
    assert_eq!(r.len(), 18);
    assert_eq!(text(&r[0]), "Really important message no: 41");
    assert_eq!((full.oldest_display_chunk_idx, full.youngest_display_chunk_idx), (2, 2));
}

#[test]
fn fetch_after_last_of_full_youngest_chunk_is_empty() {
    let mut h = history(40);
    let r = h.load_new_content(Some(msg_no(40).ulid()), false);
    assert!(r.is_empty());
    assert_eq!((h.oldest_display_chunk_idx, h.youngest_display_chunk_idx), (1, 1));
}

#[test]
fn fetch_after_unknown_message_changes_nothing() {
    let mut h = history(30);
    let r = h.load_new_content(Some(msg_no(31).ulid()), false);
    assert!(r.is_empty());
    assert!(!h.display_state);
}

#[test]
fn chunk_index_goes_by_millisecond_timestamp() {
    // Two messages in the same millisecond: the first chunk ends with the
    // smaller one, yet a lookup of the larger one stops at that chunk.
    let mut h = RoomMsgChunks::new(room());
    for n in 1..=20 {
        h.append_new_msg(msg_with(BASE_MS + 2 * n, 0, n));
    }
    let same_ms = msg_with(BASE_MS + 40, 5, 21);
    h.append_new_msg(same_ms.clone());
    assert_eq!(h.chunks_count, 2);
    assert_eq!(h.msg_chunk_idx(&same_ms.ulid()), 0);
    assert_eq!(h.msg_chunk_idx(&msg_with(BASE_MS + 100, 0, 0).ulid()), 0);
}

#[test]
fn new_from_msgs_sorts_and_partitions() {
    let batch: BTreeMap<u128, MsgViewData> = (1..=45).rev().map(msg_no).map(|m| (m.ulid(), m)).collect();
    let h = RoomMsgChunks::new_from_msgs(batch, room());
    assert_eq!(h.total_msgs, 45);
    let sizes: Vec<u8> = h.chunks.iter().map(|c| c.count).collect();
    assert_eq!(sizes, vec![20, 20, 5]);
    assert_eq!(h.chunks[0].msgs[0].ulid(), msg_no(1).ulid());
    assert_eq!(h.last_msg().unwrap().ulid(), msg_no(45).ulid());
    assert!(!h.display_state);

    let empty = RoomMsgChunks::new_from_msgs(BTreeMap::new(), room());
    assert_eq!(empty.chunks_count, 0);
    assert!(empty.last_msg().is_none());
}

#[test]
fn chunk_new_sorts_its_messages() {
    let chunk = MsgChunk::new(vec![msg_no(3), msg_no(1), msg_no(2)]);
    assert_eq!(chunk.count, 3);
    assert_eq!(chunk.first, msg_no(1).ulid());
    assert_eq!(chunk.last, msg_no(3).ulid());
    assert_eq!(chunk.msgs[1].ulid(), msg_no(2).ulid());
    assert_eq!(chunk.last_msg().unwrap().ulid(), msg_no(3).ulid());
    let single = MsgChunk::new(vec![msg_no(9)]);
    assert_eq!((single.first, single.last), (msg_no(9).ulid(), msg_no(9).ulid()));
}

#[test]
fn chunk_new_v2_rejects_empty_and_oversized() {
    assert!(MsgChunk::new_v2(Vec::new()).is_none());
    assert!(MsgChunk::new_v2((1..=21).map(msg_no).collect()).is_none());
    let c = MsgChunk::new_v2(vec![msg_no(5), msg_no(4)]).unwrap();
    assert_eq!((c.first, c.last), (msg_no(4).ulid(), msg_no(5).ulid()));
}

#[test]
fn chunk_add_msg_tracks_extremes() {
    let mut chunk = MsgChunk::new_v2(vec![msg_no(1)]).unwrap();
    chunk.add_msg(msg_no(2));
    assert_eq!(chunk.count, 2);
    assert_eq!(chunk.first, msg_no(1).ulid());
    assert_eq!(chunk.last, msg_no(2).ulid());
}

#[test]
fn older_chunks_and_markers() {
    let mut h = history(52);
    h.set_display(2, 2);
    assert!(!h.anymore_available());
    h.set_display(1, 2);
    assert!(h.anymore_available());
    let r = h.load_older_chunk();
    assert_eq!(r.len(), 20);
    assert_eq!(text(&r[0]), "Really important message no: 1");
    assert_eq!(h.oldest_display_chunk_idx, 0);
    assert!(h.load_older_chunk().is_empty());
    h.reset_display();
    assert!(!h.display_state);
    assert_eq!((h.oldest_display_chunk_idx, h.youngest_display_chunk_idx), (0, 0));
    h.update_display_markers(2, 2);
    assert!(!h.display_state);
    assert_eq!(h.oldest_display_chunk_idx, 2);
}

#[test]
fn youngest_message_moves_youngest_marker() {
    let mut h = history(45);
    assert_eq!(h.youngest_display_chunk_idx, 0);
    let m = h.load_youngest_msg().unwrap().ulid();
    assert_eq!(m, msg_no(45).ulid());
    assert_eq!(h.youngest_display_chunk_idx, 2);
    let mut empty = RoomMsgChunks::new(room());
    assert!(empty.load_youngest_msg().is_none());
}

#[test]
fn update_of_unknown_message_changes_nothing() {
    let mut h = history(25);
    h.update_one(&msg_no(26));
    assert_eq!(h.total_msgs, 25);
    assert_eq!(text(h.find_msg(msg_no(25).ulid()).unwrap()), "Really important message no: 25");
}

#[test]
fn single_message_history() {
    let m = msg_no(1);
    let h = RoomMsgChunks::new_from_single_msg(m.clone());
    assert_eq!(h.room_id, room());
    assert_eq!((h.total_msgs, h.chunks_count), (1, 1));
    assert_eq!((h.chunks[0].first, h.chunks[0].last), (m.ulid(), m.ulid()));
}

#[test]
fn record_copies_share_payload() {
    let m = msg_no(3);
    let c = m.clone();
    assert!(Rc::ptr_eq(&m.msg, &c.msg));
    assert!(Rc::ptr_eq(&m.author, &c.author));
    assert_eq!(m, c);
}

#[test]
fn fresh_ids_carry_their_table() {
    let a = Id::new(Tb::Room);
    let b = Id::new(Tb::Room);
    assert_eq!(a.tb, Tb::Room);
    assert_ne!(a.id, b.id);
}

#[test]
fn chunk_try_new_names_the_capacity_error() {
    assert_eq!(MsgChunk::try_new(Vec::new()).err(), Some(ChunkError::EmptyChunk));
    assert_eq!(MsgChunk::try_new((1..=21).map(msg_no).collect()).err(), Some(ChunkError::ChunkOverflow));
    let c = MsgChunk::try_new((1..=20).map(msg_no).collect()).unwrap();
    assert_eq!(c.count, 20);
}

#[test]
fn fetch_after_message_sharing_a_millisecond_across_chunks() {
    // The youngest message of the full first chunk and the oldest of the
    // second are created in the same millisecond.
    let mut h = RoomMsgChunks::new(room());
    for n in 1..=20 {
        h.append_new_msg(msg_with(BASE_MS + 2 * n, 0, n));
    }
    let shared_ms = BASE_MS + 40;
    h.append_new_msg(msg_with(shared_ms, 5, 21));
    for n in 22..=25 {
        h.append_new_msg(msg_with(BASE_MS + 2 * n, 0, n));
    }
    let r = h.load_new_content(Some(msg_with(shared_ms, 5, 21).ulid()), false);
    assert_eq!(r.len(), 4);
    assert_eq!(text(&r[0]), "Really important message no: 22");
    assert!(h.display_state);
    assert_eq!((h.oldest_display_chunk_idx, h.youngest_display_chunk_idx), (1, 1));
}

#[test]
fn new_from_msgs_takes_a_full_u16_batch() {
    let batch: BTreeMap<u128, MsgViewData> = (1..=u16::MAX as u64).map(msg_no).map(|m| (m.ulid(), m)).collect();
    let h = RoomMsgChunks::new_from_msgs(batch, room());
    assert_eq!(h.total_msgs, u16::MAX);
    assert_eq!(h.chunks_count as usize, (u16::MAX as usize + 19) / 20);
    assert_eq!(h.chunks.last().unwrap().count, 15);
    assert_eq!(h.chunks[0].msgs[0].ulid(), msg_no(1).ulid());
    assert_eq!(h.last_msg().unwrap().ulid(), msg_no(u16::MAX as u64).ulid());
    assert_eq!((h.oldest_display_chunk_idx, h.youngest_display_chunk_idx), (0, 0));
}
