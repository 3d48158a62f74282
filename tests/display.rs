use std::rc::Rc;

use chat_chunks::display::{DisplayChunks, DisplayStatus};
use chat_chunks::{Account, Datetime, Id, Msg, MsgViewData, Tb};

const BASE_MS: u64 = 1_700_000_000_000;

fn karol() -> Account {
    Account {
        acc_id: Id { tb: Tb::Acc, id: 7 },
        username: "Karol".into(),
        av: Rc::new(vec![]),
    }
}

fn msg_no(n: u64) -> MsgViewData {
    let acc = karol();
    let room = Id { tb: Tb::Room, id: 99 };
    let ms = BASE_MS + 2 * n;
    let id = Id { tb: Tb::Msg, id: ulid::Ulid::from_parts(ms, n as u128).0 };
    let mut msg = Msg::new(id, room, acc.acc_id, Datetime { unix_ms: ms - 5000 }, format!("Really important message no: {}", n));
    msg.sent = Some(Datetime { unix_ms: ms });
    MsgViewData { id, author: Rc::new(acc), room, room_owner: true, msg: Rc::new(msg) }
}

fn messages(count: u64) -> Vec<MsgViewData> {
    (1..=count).map(msg_no).collect()
}

#[test]
fn display_append_edit_test() {
    let msg_vec = messages(22);
    let mut display = DisplayChunks::new();
    let edited = msg_vec.get(5).cloned().unwrap();

    display.append_new(msg_vec.get(0).cloned().unwrap());
    assert_eq!(display.total_stored, 1);

    display.append_many(&msg_vec[1..]);
    assert_eq!(display.total_stored, 22);

    display.msg_edited(edited.clone());
    assert_eq!(display.total_stored, 22);
    assert_eq!(display.vec.get(5).unwrap().id, edited.id);
}

#[test]
fn display_msg_removed_test() {
    let msg_vec = messages(22);
    let mut display = DisplayChunks::new();
    let del_first = msg_vec.get(0).cloned().unwrap();
    let del_second = msg_vec.get(1).cloned().unwrap();
    let del_third = msg_vec.get(2).cloned().unwrap();

    assert_eq!(display.total_stored, 0);
    display.msg_removed(del_first.ulid());
    assert_eq!(display.total_stored, 0);
    display.append_new(del_first.clone());
    assert_eq!(display.total_stored, 1);
    display.msg_removed(del_first.ulid());
    assert_eq!(display.total_stored, 0);
    display.append_many(&msg_vec[0..2]);
    assert_eq!(display.total_stored, 2);
    display.msg_removed(del_first.ulid());
    assert_eq!(display.total_stored, 1);
    display.msg_removed(del_second.ulid());
    assert_eq!(display.total_stored, 0);
    display.append_many(&msg_vec[0..3]);
    assert_eq!(display.total_stored, 3);
    display.msg_removed(del_third.ulid());
    assert_eq!(display.total_stored, 2);
}

#[test]
fn display_append_older_chunk_test() {
    let msg_vec = messages(62);
    let mut display = DisplayChunks::new();
    let mut display_alt = DisplayChunks::new();
    display.append_many(&msg_vec[40..]);
    display_alt.append_many(&msg_vec[40..]);

    display.append_older_chunk(&msg_vec[20..40]);
    display_alt.append_older_chunk_alt(&msg_vec[20..40]);
    assert_eq!(display.total_stored, 42);
    assert_eq!(display.start.1, msg_vec[20].ulid());
    assert_eq!(display_alt.total_stored, 42);
    assert_eq!(display_alt.vec.front().unwrap().ulid(), msg_vec[20].ulid());

    display.append_older_chunk(&msg_vec[..20]);
    display_alt.append_older_chunk_alt(&msg_vec[..20]);
    assert_eq!(display.total_stored, 62);
    assert_eq!(display.vec.front().unwrap().ulid(), msg_vec[0].ulid());
    assert_eq!(display_alt.total_stored, 62);
    assert_eq!(display_alt.vec.front().unwrap().ulid(), msg_vec[0].ulid());
}

#[test]
fn display_hide_point_follows_total() {
    let msg_vec = messages(42);
    let mut display = DisplayChunks::new();
    display.append_many(&msg_vec[..5]);
    assert!(!display.check_need_for_reload());
    assert_eq!(display.status, DisplayStatus::AllVisible);
    display.append_many(&msg_vec[5..19]);
    assert!(!display.check_need_for_reload());
    assert_eq!(display.status, DisplayStatus::AllVisible);
    // The twentieth message hides nothing yet: the hide point is index 0.
    display.append_new(msg_vec[19].clone());
    assert!(display.check_need_for_reload());
    assert_eq!(display.status, DisplayStatus::PartiallyHidden(0, msg_vec[0].ulid()));
    // Up to four more messages leave the hide point where it is.
    display.append_many(&msg_vec[20..24]);
    assert!(!display.check_need_for_reload());
    assert_eq!(display.status, DisplayStatus::PartiallyHidden(0, msg_vec[0].ulid()));
    // A fifth one moves it.
    display.append_new(msg_vec[24].clone());
    assert!(display.check_need_for_reload());
    assert_eq!(display.status, DisplayStatus::PartiallyHidden(5, msg_vec[5].ulid()));
    assert_eq!(display.get_visible_indicies(), (5..25).collect::<Vec<usize>>());
}

#[test]
fn display_reload_twice_is_quiet() {
    let msg_vec = messages(42);
    for total in [0usize, 7, 19, 20, 21, 33, 42] {
        let mut display = DisplayChunks::new();
        display.append_many(&msg_vec[..total]);
        display.check_need_for_reload();
        assert!(!display.check_need_for_reload());
    }
}

#[test]
fn display_window_starts_twenty_before_end() {
    let msg_vec = messages(42);
    for total in [20usize, 21, 30, 42] {
        let mut display = DisplayChunks::new();
        display.append_many(&msg_vec[..total]);
        assert!(display.check_need_for_reload());
        let visible = display.get_visible_indicies();
        assert_eq!(visible[0], total - 20);
        assert_eq!(visible.len(), 20);
    }
}

#[test]
fn display_remove_sole_and_back() {
    let msg_vec = messages(3);
    let mut display = DisplayChunks::new();
    display.append_new(msg_vec[0].clone());
    display.msg_removed(msg_vec[0].ulid());
    assert_eq!(display.total_stored, 0);
    assert_eq!(display.start, (0, 0));
    assert_eq!(display.last, (0, 0));
    assert_eq!(display.get_last_msg(), None);

    display.append_many(&msg_vec);
    assert_eq!(display.last, (2, msg_vec[2].ulid()));
    display.msg_removed(msg_vec[2].ulid());
    assert_eq!(display.total_stored, 2);
    assert_eq!(display.last, (1, msg_vec[1].ulid()));
    assert_eq!(display.get_last_msg(), Some(msg_vec[1].ulid()));
    display.msg_removed(msg_vec[0].ulid());
    assert_eq!(display.start, (0, msg_vec[1].ulid()));
    assert_eq!(display.last, (0, msg_vec[1].ulid()));
    // An unknown key changes nothing.
    display.msg_removed(12345);
    assert_eq!(display.total_stored, 1);
}

#[test]
fn display_edit_front_back_middle_and_unknown() {
    let msg_vec = messages(5);
    let mut display = DisplayChunks::new();
    display.append_many(&msg_vec);
    for i in [0usize, 4, 2] {
        let mut edited = msg_vec[i].clone();
        let mut m = edited.msg.clone();
        Rc::make_mut(&mut m).text.current = format!("edited {}", i);
        edited.msg = m;
        display.msg_edited(edited);
        assert_eq!(display.vec.get(i).unwrap().msg.text.current, format!("edited {}", i));
    }
    display.msg_edited(msg_no(40));
    assert_eq!(display.total_stored, 5);
    assert_eq!(display.extract_idx(&msg_vec[3]), 3);
    assert_eq!(display.extract_idx(&msg_no(40)), 0);
}

#[test]
fn display_into_visible_honours_hidden_prefix() {
    let msg_vec = messages(30);
    let mut display = DisplayChunks::new();
    display.append_many(&msg_vec[..12]);
    let all = {
        let mut d = DisplayChunks::new();
        d.append_many(&msg_vec[..12]);
        d.into_visible_msgs()
    };
    assert_eq!(all.len(), 12);
    display.append_many(&msg_vec[12..]);
    display.check_need_for_reload();
    let visible = display.into_visible_msgs();
    assert_eq!(visible.len(), 20);
    assert_eq!(visible[0].ulid(), msg_vec[10].ulid());
    assert_eq!(visible[19].ulid(), msg_vec[29].ulid());
}
