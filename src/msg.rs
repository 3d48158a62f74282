use std::rc::Rc;

use vstd::prelude::*;

use crate::util::{Id, Tb};

verus! {

/// Relies on `Rc::clone`: the new handle points to the same allocation.
#[verifier::external_body]
fn share<T>(handle: &Rc<T>) -> (r: Rc<T>)
    ensures
        r == *handle,
{
    Rc::clone(handle)
}

/// A point in time, in milliseconds since the UNIX epoch.
#[derive(Clone, Copy, Debug, PartialEq, Eq, Structural, Hash)]
pub struct Datetime {
    pub unix_ms: u64,
}

/// A chat account.
#[derive(Debug, PartialEq, Eq)]
pub struct Account {
    pub acc_id: Id,
    pub username: String,
    pub av: Rc<Vec<u8>>,
}

impl Clone for Account {
    fn clone(&self) -> (r: Self)
        ensures
            r == *self,
    {
        Account { acc_id: self.acc_id, username: self.username.clone(), av: share(&self.av) }
    }
}

/// Name of the demo account handed out for request number `counter`.
pub open spec fn demo_username(counter: u8) -> Seq<char> {
    if counter == 0 {
        "Karol"@
    } else if counter == 1 {
        "Konrad"@
    } else {
        "Mama"@
    }
}

/// Number of demo accounts.
pub const DEMO_ACCOUNTS: u8 = 3;

/// Name and avatar of the demo account handed out for request number
/// `counter`: three accounts in turn, then none. The avatar is the entry of
/// `avatars` at the same position, or empty when `avatars` has none there.
pub fn get_username_and_avatar(counter: u8, avatars: &Vec<Vec<u8>>) -> (r: Option<(String, Vec<u8>)>)
    ensures
        counter >= DEMO_ACCOUNTS ==> r is None,
        counter < DEMO_ACCOUNTS ==> (r matches Some((name, av)) && name@ == demo_username(counter) && av@
            == if (counter as int) < avatars@.len() {
            avatars@[counter as int]@
        } else {
            Seq::<u8>::empty()
        }),
{
    if counter >= DEMO_ACCOUNTS {
        return None;
    }
    let name = if counter == 0 {
        "Karol".to_owned()
    } else if counter == 1 {
        "Konrad".to_owned()
    } else {
        "Mama".to_owned()
    };
    let i = counter as usize;
    let av = if i < avatars.len() {
        let av = avatars[i].clone();
        assert(av@ =~= avatars@[i as int]@);
        av
    } else {
        Vec::new()
    };
    Some((name, av))
}

impl Account {
    /// The demo account for request number `counter`, with a fresh id; see
    /// [`get_username_and_avatar`].
    pub fn new_from_click(counter: u8, avatars: &Vec<Vec<u8>>) -> (r: Option<Self>)
        ensures
            counter >= DEMO_ACCOUNTS ==> r is None,
            counter < DEMO_ACCOUNTS ==> (r matches Some(acc) && acc.acc_id.tb == Tb::Acc
                && acc.username@ == demo_username(counter) && (*acc.av)@ == if (counter as int)
                < avatars@.len() {
                avatars@[counter as int]@
            } else {
                Seq::<u8>::empty()
            }),
    {
        match get_username_and_avatar(counter, avatars) {
            Some((us, av)) => Some(Account { acc_id: Id::new(Tb::Acc), username: us, av: Rc::new(av) }),
            None => None,
        }
    }
}

/// Allowed media types.
#[derive(Clone, Copy, Debug, PartialEq, Eq, Structural, Hash)]
pub enum MediaExt {
    Txt,
    Jpg,
    Png,
    Mp3,
    Flac,
    Wav,
}

/// A media file attached to a message.
#[derive(Clone, Debug, PartialEq, Eq)]
pub enum MediaType {
    Picture {
        media_id: Id,
        room_id: Id,
        msg_id: Id,
        stored_on: String,
        data: Vec<u8>,
        data_size: u64,
        name: String,
        media_ext: MediaExt,
        edit_history: Option<Vec<MsgEdit>>,
        last_edited: Option<Datetime>,
        is_upt: Option<Id>,
    },
    Audio {
        media_id: Id,
        room_id: Id,
        msg_id: Id,
        stored_on: String,
        data: Vec<u8>,
        data_size: u64,
        name: String,
        media_ext: MediaExt,
        edit_history: Option<Vec<MsgEdit>>,
        last_edited: Option<Datetime>,
        is_upt: Option<Id>,
    },
    File {
        media_id: Id,
        room_id: Id,
        msg_id: Id,
        stored_on: String,
        data: Vec<u8>,
        data_size: u64,
        name: String,
        media_ext: MediaExt,
        edit_history: Option<Vec<MsgEdit>>,
        last_edited: Option<Datetime>,
        is_upt: Option<Id>,
    },
}

impl MediaType {
    /// Which kind of media this is.
    pub open spec fn kind_of(&self) -> int {
        match self {
            MediaType::Picture { .. } => 0,
            MediaType::Audio { .. } => 1,
            MediaType::File { .. } => 2,
        }
    }

    /// The `media_id` of whichever kind of media this is.
    pub open spec fn media_id_of(&self) -> Id {
        match self {
            MediaType::Picture { media_id, .. } => *media_id,
            MediaType::Audio { media_id, .. } => *media_id,
            MediaType::File { media_id, .. } => *media_id,
        }
    }

    /// The `room_id` of whichever kind of media this is.
    pub open spec fn room_id_of(&self) -> Id {
        match self {
            MediaType::Picture { room_id, .. } => *room_id,
            MediaType::Audio { room_id, .. } => *room_id,
            MediaType::File { room_id, .. } => *room_id,
        }
    }

    /// The `msg_id` of whichever kind of media this is.
    pub open spec fn msg_id_of(&self) -> Id {
        match self {
            MediaType::Picture { msg_id, .. } => *msg_id,
            MediaType::Audio { msg_id, .. } => *msg_id,
            MediaType::File { msg_id, .. } => *msg_id,
        }
    }

    /// The `stored_on` of whichever kind of media this is.
    pub open spec fn stored_on_of(&self) -> String {
        match self {
            MediaType::Picture { stored_on, .. } => *stored_on,
            MediaType::Audio { stored_on, .. } => *stored_on,
            MediaType::File { stored_on, .. } => *stored_on,
        }
    }

    /// The `data` of whichever kind of media this is.
    pub open spec fn data_of(&self) -> Vec<u8> {
        match self {
            MediaType::Picture { data, .. } => *data,
            MediaType::Audio { data, .. } => *data,
            MediaType::File { data, .. } => *data,
        }
    }

    /// The `data_size` of whichever kind of media this is.
    pub open spec fn data_size_of(&self) -> u64 {
        match self {
            MediaType::Picture { data_size, .. } => *data_size,
            MediaType::Audio { data_size, .. } => *data_size,
            MediaType::File { data_size, .. } => *data_size,
        }
    }

    /// The `name` of whichever kind of media this is.
    pub open spec fn name_of(&self) -> String {
        match self {
            MediaType::Picture { name, .. } => *name,
            MediaType::Audio { name, .. } => *name,
            MediaType::File { name, .. } => *name,
        }
    }

    /// The `media_ext` of whichever kind of media this is.
    pub open spec fn media_ext_of(&self) -> MediaExt {
        match self {
            MediaType::Picture { media_ext, .. } => *media_ext,
            MediaType::Audio { media_ext, .. } => *media_ext,
            MediaType::File { media_ext, .. } => *media_ext,
        }
    }

    /// The `edit_history` of whichever kind of media this is.
    pub open spec fn edit_history_of(&self) -> Option<Vec<MsgEdit>> {
        match self {
            MediaType::Picture { edit_history, .. } => *edit_history,
            MediaType::Audio { edit_history, .. } => *edit_history,
            MediaType::File { edit_history, .. } => *edit_history,
        }
    }

    /// The `last_edited` of whichever kind of media this is.
    pub open spec fn last_edited_of(&self) -> Option<Datetime> {
        match self {
            MediaType::Picture { last_edited, .. } => *last_edited,
            MediaType::Audio { last_edited, .. } => *last_edited,
            MediaType::File { last_edited, .. } => *last_edited,
        }
    }

    /// The `is_upt` of whichever kind of media this is.
    pub open spec fn is_upt_of(&self) -> Option<Id> {
        match self {
            MediaType::Picture { is_upt, .. } => *is_upt,
            MediaType::Audio { is_upt, .. } => *is_upt,
            MediaType::File { is_upt, .. } => *is_upt,
        }
    }

    /// Id of the media file.
    pub fn get_id(&self) -> (r: &Id)
        ensures
            *r == self.media_id_of(),
    {
        match self {
            MediaType::Picture { media_id, .. } => media_id,
            MediaType::Audio { media_id, .. } => media_id,
            MediaType::File { media_id, .. } => media_id,
        }
    }

    /// Id of the room the media belongs to.
    pub fn get_room_id(&self) -> (r: &Id)
        ensures
            *r == self.room_id_of(),
    {
        match self {
            MediaType::Picture { room_id, .. } => room_id,
            MediaType::Audio { room_id, .. } => room_id,
            MediaType::File { room_id, .. } => room_id,
        }
    }

    /// Id of the message the media is attached to.
    pub fn get_msg_id(&self) -> (r: &Id)
        ensures
            *r == self.msg_id_of(),
    {
        match self {
            MediaType::Picture { msg_id, .. } => msg_id,
            MediaType::Audio { msg_id, .. } => msg_id,
            MediaType::File { msg_id, .. } => msg_id,
        }
    }

    /// Where the media file is stored.
    pub fn get_path(&self) -> (r: &str)
        ensures
            r@ == self.stored_on_of()@,
    {
        match self {
            MediaType::Picture { stored_on, .. } => stored_on.as_str(),
            MediaType::Audio { stored_on, .. } => stored_on.as_str(),
            MediaType::File { stored_on, .. } => stored_on.as_str(),
        }
    }

    /// Sets where the media file is stored.
    pub fn update_path(&mut self, new: String)
        ensures
            final(self).stored_on_of() == new,
            final(self).kind_of() == old(self).kind_of(),
            final(self).media_id_of() == old(self).media_id_of(),
            final(self).room_id_of() == old(self).room_id_of(),
            final(self).msg_id_of() == old(self).msg_id_of(),
            final(self).data_of() == old(self).data_of(),
            final(self).data_size_of() == old(self).data_size_of(),
            final(self).name_of() == old(self).name_of(),
            final(self).media_ext_of() == old(self).media_ext_of(),
            final(self).edit_history_of() == old(self).edit_history_of(),
            final(self).last_edited_of() == old(self).last_edited_of(),
            final(self).is_upt_of() == old(self).is_upt_of(),
    {
        match self {
            MediaType::Picture { stored_on, .. } => *stored_on = new,
            MediaType::Audio { stored_on, .. } => *stored_on = new,
            MediaType::File { stored_on, .. } => *stored_on = new,
        }
    }

    /// Size of the media data.
    pub fn get_size(&self) -> (r: &u64)
        ensures
            *r == self.data_size_of(),
    {
        match self {
            MediaType::Picture { data_size, .. } => data_size,
            MediaType::Audio { data_size, .. } => data_size,
            MediaType::File { data_size, .. } => data_size,
        }
    }

    /// Name of the media file.
    pub fn get_name(&self) -> (r: &str)
        ensures
            r@ == self.name_of()@,
    {
        match self {
            MediaType::Picture { name, .. } => name.as_str(),
            MediaType::Audio { name, .. } => name.as_str(),
            MediaType::File { name, .. } => name.as_str(),
        }
    }

    /// Extension of the media file.
    pub fn get_ext(&self) -> (r: &MediaExt)
        ensures
            *r == self.media_ext_of(),
    {
        match self {
            MediaType::Picture { media_ext, .. } => media_ext,
            MediaType::Audio { media_ext, .. } => media_ext,
            MediaType::File { media_ext, .. } => media_ext,
        }
    }

    /// Previous versions of the media, if any.
    pub fn get_edit_history(&self) -> (r: &Option<Vec<MsgEdit>>)
        ensures
            *r == self.edit_history_of(),
    {
        match self {
            MediaType::Picture { edit_history, .. } => edit_history,
            MediaType::Audio { edit_history, .. } => edit_history,
            MediaType::File { edit_history, .. } => edit_history,
        }
    }

    /// Records `new_edit` after the previous ones.
    pub fn update_edit_history(&mut self, new_edit: MsgEdit)
        ensures
            final(self).edit_history_of() matches Some(edits) && edits@ == match old(self).edit_history_of() {
                Some(prev) => prev@,
                None => Seq::<MsgEdit>::empty(),
            }.push(new_edit),
            final(self).kind_of() == old(self).kind_of(),
            final(self).media_id_of() == old(self).media_id_of(),
            final(self).room_id_of() == old(self).room_id_of(),
            final(self).msg_id_of() == old(self).msg_id_of(),
            final(self).stored_on_of() == old(self).stored_on_of(),
            final(self).data_of() == old(self).data_of(),
            final(self).data_size_of() == old(self).data_size_of(),
            final(self).name_of() == old(self).name_of(),
            final(self).media_ext_of() == old(self).media_ext_of(),
            final(self).last_edited_of() == old(self).last_edited_of(),
            final(self).is_upt_of() == old(self).is_upt_of(),
    {
        match self {
            MediaType::Picture { edit_history, .. } => {
                let mut edits = match edit_history.take() {
                    Some(edits) => edits,
                    None => Vec::new(),
                };
                edits.push(new_edit);
                *edit_history = Some(edits);
            },
            MediaType::Audio { edit_history, .. } => {
                let mut edits = match edit_history.take() {
                    Some(edits) => edits,
                    None => Vec::new(),
                };
                edits.push(new_edit);
                *edit_history = Some(edits);
            },
            MediaType::File { edit_history, .. } => {
                let mut edits = match edit_history.take() {
                    Some(edits) => edits,
                    None => Vec::new(),
                };
                edits.push(new_edit);
                *edit_history = Some(edits);
            },
        }
    }

    /// Id of the media this one updates, if any.
    pub fn is_update(&self) -> (r: Option<Id>)
        ensures
            r == self.is_upt_of(),
    {
        match self {
            MediaType::Picture { is_upt, .. } => *is_upt,
            MediaType::Audio { is_upt, .. } => *is_upt,
            MediaType::File { is_upt, .. } => *is_upt,
        }
    }

    /// When the media was last edited, if ever.
    pub fn get_last_edited(&self) -> (r: &Option<Datetime>)
        ensures
            *r == self.last_edited_of(),
    {
        match self {
            MediaType::Picture { last_edited, .. } => last_edited,
            MediaType::Audio { last_edited, .. } => last_edited,
            MediaType::File { last_edited, .. } => last_edited,
        }
    }

    /// Records `stamp` as the last edit.
    pub fn update_last_edited(&mut self, stamp: Datetime)
        ensures
            final(self).last_edited_of() == Some(stamp),
            final(self).kind_of() == old(self).kind_of(),
            final(self).media_id_of() == old(self).media_id_of(),
            final(self).room_id_of() == old(self).room_id_of(),
            final(self).msg_id_of() == old(self).msg_id_of(),
            final(self).stored_on_of() == old(self).stored_on_of(),
            final(self).data_of() == old(self).data_of(),
            final(self).data_size_of() == old(self).data_size_of(),
            final(self).name_of() == old(self).name_of(),
            final(self).media_ext_of() == old(self).media_ext_of(),
            final(self).edit_history_of() == old(self).edit_history_of(),
            final(self).is_upt_of() == old(self).is_upt_of(),
    {
        match self {
            MediaType::Picture { last_edited, .. } => *last_edited = Some(stamp),
            MediaType::Audio { last_edited, .. } => *last_edited = Some(stamp),
            MediaType::File { last_edited, .. } => *last_edited = Some(stamp),
        }
    }

    /// The media data.
    pub fn get_data(&self) -> (r: &[u8])
        ensures
            r@ == self.data_of()@,
    {
        match self {
            MediaType::Picture { data, .. } => data.as_slice(),
            MediaType::Audio { data, .. } => data.as_slice(),
            MediaType::File { data, .. } => data.as_slice(),
        }
    }

    /// Replaces the media data.
    pub fn update_data(&mut self, new_data: Vec<u8>)
        ensures
            final(self).data_of() == new_data,
            final(self).kind_of() == old(self).kind_of(),
            final(self).media_id_of() == old(self).media_id_of(),
            final(self).room_id_of() == old(self).room_id_of(),
            final(self).msg_id_of() == old(self).msg_id_of(),
            final(self).stored_on_of() == old(self).stored_on_of(),
            final(self).data_size_of() == old(self).data_size_of(),
            final(self).name_of() == old(self).name_of(),
            final(self).media_ext_of() == old(self).media_ext_of(),
            final(self).edit_history_of() == old(self).edit_history_of(),
            final(self).last_edited_of() == old(self).last_edited_of(),
            final(self).is_upt_of() == old(self).is_upt_of(),
    {
        match self {
            MediaType::Picture { data, .. } => *data = new_data,
            MediaType::Audio { data, .. } => *data = new_data,
            MediaType::File { data, .. } => *data = new_data,
        }
    }

}

/// A comment on a message.
#[derive(Clone, Debug, PartialEq, Eq)]
pub struct MsgComment {
    pub com_id: Id,
    pub author: Id,
    pub parent_id: Id,
    pub room_id: Id,
    pub text: String,
    pub created: Datetime,
    pub reactions: Option<Vec<Reaction>>,
    pub updated: Option<Datetime>,
    /// If the comment was delivered to all room members.
    pub delivered_to_all: bool,
    /// If the comment was viewed by all room members.
    pub viewed_by_all: bool,
}

/// An emoji reaction on a message or a comment.
#[derive(Clone, Debug, PartialEq, Eq)]
pub struct Reaction {
    pub rea_id: Id,
    pub author: Id,
    /// The message, when the parent is a comment.
    pub grandparent_id: Option<Id>,
    /// The message or comment reacted to.
    pub parent_id: Id,
    pub room_id: Id,
    pub emoji: char,
    pub created: Datetime,
    /// If the reaction was delivered to all room members.
    pub delivered_to_all: bool,
    /// If the reaction was viewed by all room members.
    pub viewed_by_all: bool,
}

/// A room member since a point in time.
#[derive(Clone, Copy, Debug, PartialEq, Eq, Structural)]
pub struct Member {
    pub member_id: Id,
    pub since: Datetime,
}

/// A chat room.
#[derive(Clone, Debug, PartialEq, Eq)]
pub struct Room {
    pub room_id: Id,
    pub members: Vec<Member>,
    pub active_members: Vec<Id>,
    pub active_invites: Option<Vec<u8>>,
    pub owner: Id,
    pub created: Datetime,
    pub description: Option<String>,
    pub avatar: Option<Vec<u8>>,
}

/// Read request for a specific message.
pub struct QueryMsg(pub Id);

impl MsgEdit {
    /// An edit recording `content` as it was at `stamp`.
    pub fn new(content: &str, stamp: &Datetime) -> (r: Self)
        ensures
            r.content@ == content@,
            r.stamp == *stamp,
    {
        MsgEdit { stamp: *stamp, content: content.to_owned() }
    }
}

impl Msg {
    /// A message with text `text` and nothing else attached.
    pub fn new(msg_id: Id, room_id: Id, author: Id, created: Datetime, text: String) -> (r: Self)
        ensures
            r.msg_id == msg_id,
            r.room_id == room_id,
            r.author == author,
            r.created == created,
            r.text.current == text,
            r.text.edits is None,
            r.text.last_edited is None,
            r.sent is None,
            r.media is None,
            r.edited is None,
            r.comments is None,
            r.reactions is None,
            !r.delivered_to_all,
            !r.viewed_by_all,
    {
        Msg {
            msg_id,
            room_id,
            author,
            created,
            media: None,
            comments: None,
            reactions: None,
            delivered_to_all: false,
            viewed_by_all: false,
            text: Text { current: text, edits: None, last_edited: None },
            edited: None,
            sent: None,
        }
    }

    /// Replaces the text with `new_text`, recording the previous text as an
    /// edit at `stamp` and counting the edit.
    pub fn update_text(&mut self, stamp: Datetime, new_text: &str)
        ensures
            final(self).text.current@ == new_text@,
            final(self).text.last_edited == Some(stamp),
            final(self).text.edits matches Some(edits) && ({
                let prev = match old(self).text.edits {
                    Some(prev) => prev@,
                    None => Seq::<MsgEdit>::empty(),
                };
                &&& edits@.len() == prev.len() + 1
                &&& edits@.subrange(0, prev.len() as int) == prev
                &&& edits@.last().stamp == stamp
                &&& edits@.last().content@ == old(self).text.current@
            }),
            final(self).edited == Some(match old(self).edited {
                Some(n) => if n < u8::MAX {
                    (n + 1) as u8
                } else {
                    n
                },
                None => 1u8,
            }),
            final(self).msg_id == old(self).msg_id,
    {
        let previous = MsgEdit::new(self.text.current.as_str(), &stamp);
        self.text.current = new_text.to_owned();
        self.text.last_edited = Some(stamp);
        let mut edits = match self.text.edits.take() {
            Some(edits) => edits,
            None => Vec::new(),
        };
        let ghost prev = edits@;
        edits.push(previous);
        assert(edits@.subrange(0, prev.len() as int) =~= prev);
        self.text.edits = Some(edits);
        self.edited = Some(match self.edited {
            Some(n) => if n < u8::MAX {
                n + 1
            } else {
                n
            },
            None => 1,
        });
    }
}

impl MediaExt {
    /// File extension of the media type.
    pub fn name(&self) -> (r: &'static str)
        ensures
            r@ == match self {
                MediaExt::Txt => "txt"@,
                MediaExt::Jpg => "jpg"@,
                MediaExt::Png => "png"@,
                MediaExt::Mp3 => "mp3"@,
                MediaExt::Flac => "flac"@,
                MediaExt::Wav => "wav"@,
            },
    {
        match self {
            MediaExt::Txt => "txt",
            MediaExt::Jpg => "jpg",
            MediaExt::Png => "png",
            MediaExt::Mp3 => "mp3",
            MediaExt::Flac => "flac",
            MediaExt::Wav => "wav",
        }
    }
}

/// A single edit of a message text or of its media file.
#[derive(Clone, Debug, PartialEq, Eq)]
pub struct MsgEdit {
    /// Edit stamp.
    pub stamp: Datetime,
    /// Previous text or path to the previous media attachment.
    pub content: String,
}

/// Current text of a message with its edit history.
#[derive(Clone, Debug, PartialEq, Eq)]
pub struct Text {
    /// Most recent text content.
    pub current: String,
    /// History of the edits.
    pub edits: Option<Vec<MsgEdit>>,
    /// Timestamp of the last text edit.
    pub last_edited: Option<Datetime>,
}

/// Holds all data connected to a single message.
#[derive(Clone, Debug, PartialEq, Eq)]
pub struct Msg {
    pub msg_id: Id,
    pub room_id: Id,
    pub author: Id,
    pub created: Datetime,
    pub sent: Option<Datetime>,
    /// Main text of the message with the edits.
    pub text: Text,
    /// Media file attached to the message, if any.
    pub media: Option<MediaType>,
    /// How many edits were made to the message, if any.
    pub edited: Option<u8>,
    /// Comments on the message, if any.
    pub comments: Option<Vec<MsgComment>>,
    /// Reaction emojis on the message, if any.
    pub reactions: Option<Vec<Reaction>>,
    /// If the message was delivered to all room members.
    pub delivered_to_all: bool,
    /// If the message was viewed by all room members.
    pub viewed_by_all: bool,
}

/// A message record as the history stores it: its identifier, the room it
/// belongs to and a shared handle on its payload.
#[derive(Debug)]
pub struct MsgViewData {
    pub id: Id,
    pub author: Rc<Account>,
    pub room: Id,
    pub room_owner: bool,
    pub msg: Rc<Msg>,
}

impl MsgViewData {
    /// A record of `msg` by `author`, with a fresh id, in the room of `msg`.
    pub fn new(msg: Msg, author: &Account, owner: bool) -> (r: Self)
        ensures
            r.id.tb == Tb::Msg,
            r.room == msg.room_id,
            r.room_owner == owner,
            *r.msg == msg,
            *r.author == *author,
    {
        MsgViewData {
            author: Rc::new(author.clone()),
            room: msg.room_id,
            msg: Rc::new(msg),
            room_owner: owner,
            id: Id::new(Tb::Msg),
        }
    }

    /// The ULID value that orders and identifies this record.
    pub open spec fn key(&self) -> u128 {
        self.id.id
    }

    /// The ULID value that orders and identifies this record.
    pub fn ulid(&self) -> (r: u128)
        ensures
            r == self.key(),
    {
        self.id.id
    }
}

impl Clone for MsgViewData {
    fn clone(&self) -> (r: Self)
        ensures
            r == *self,
    {
        MsgViewData {
            id: self.id,
            author: share(&self.author),
            room: self.room,
            room_owner: self.room_owner,
            msg: share(&self.msg),
        }
    }
}

impl PartialEq for MsgViewData {
    fn eq(&self, other: &MsgViewData) -> (r: bool) {
        self.id.id == other.id.id
    }
}

impl vstd::std_specs::cmp::PartialEqSpecImpl for MsgViewData {
    open spec fn obeys_eq_spec() -> bool {
        true
    }

    open spec fn eq_spec(&self, other: &MsgViewData) -> bool {
        self.id.id == other.id.id
    }
}

} // verus!
