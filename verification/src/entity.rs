//! Decoded events and what is read out of them.

use crate::json::{find_member, lemma_tree_parts, lookup, pairs, trees};
use crate::json::{Json, JsonView, Member};
use vstd::prelude::*;
use vstd::string::StringExecFns;

verus! {

/// The structured part of an event.
#[derive(Debug, Clone)]
pub struct Data {
    pub uname: String,
    pub action: String,
    pub gift_name: String,
}

pub ghost struct DataView {
    pub uname: Seq<char>,
    pub action: Seq<char>,
    pub gift_name: Seq<char>,
}

impl View for Data {
    type V = DataView;

    open spec fn view(&self) -> DataView {
        DataView { uname: self.uname@, action: self.action@, gift_name: self.gift_name@ }
    }
}

impl Default for Data {
    fn default() -> (r: Data)
        ensures
            r@ == empty_data(),
    {
        Data { uname: String::new(), action: String::new(), gift_name: String::new() }
    }
}

/// One decoded event.
#[derive(Debug, Clone)]
pub struct LiveMsg {
    pub cmd: String,
    pub data: Data,
    pub info: Vec<Json>,
}

pub ghost struct LiveMsgView {
    pub cmd: Seq<char>,
    pub data: DataView,
    pub info: Seq<JsonView>,
}

impl View for LiveMsg {
    type V = LiveMsgView;

    open spec fn view(&self) -> LiveMsgView {
        LiveMsgView { cmd: self.cmd@, data: self.data@, info: trees(self.info@) }
    }
}

/// A chat message: who said what.
#[derive(Debug, Clone)]
pub struct Danmaku {
    pub uname: String,
    pub text: String,
}

pub ghost struct DanmakuView {
    pub uname: Seq<char>,
    pub text: Seq<char>,
}

impl View for Danmaku {
    type V = DanmakuView;

    open spec fn view(&self) -> DanmakuView {
        DanmakuView { uname: self.uname@, text: self.text@ }
    }
}

pub open spec fn empty_data() -> DataView {
    DataView { uname: Seq::empty(), action: Seq::empty(), gift_name: Seq::empty() }
}

/// A text field that may be absent: absent reads as the empty text, a text
/// as itself, and anything else is a mismatch.
pub open spec fn text_or_empty(found: Option<JsonView>) -> Option<Seq<char>> {
    match found {
        None => Some(Seq::empty()),
        Some(JsonView::Text(s)) => Some(s),
        Some(_) => None,
    }
}

/// The structured part that may be absent: absent reads as three empty
/// texts, an object by its three text fields, anything else is a mismatch.
pub open spec fn data_or_empty(found: Option<JsonView>) -> Option<DataView> {
    match found {
        None => Some(empty_data()),
        Some(JsonView::Object(members)) => {
            let uname = text_or_empty(lookup(members, "uname"@));
            let action = text_or_empty(lookup(members, "action"@));
            let gift_name = text_or_empty(lookup(members, "giftName"@));
            if uname is Some && action is Some && gift_name is Some {
                Some(
                    DataView {
                        uname: uname->Some_0,
                        action: action->Some_0,
                        gift_name: gift_name->Some_0,
                    },
                )
            } else {
                None
            }
        },
        Some(_) => None,
    }
}

/// A list field that may be absent: absent reads as the empty list, a list
/// as itself, anything else is a mismatch.
pub open spec fn list_or_empty(found: Option<JsonView>) -> Option<Seq<JsonView>> {
    match found {
        None => Some(Seq::empty()),
        Some(JsonView::List(items)) => Some(items),
        Some(_) => None,
    }
}

/// The event that a JSON document stands for, `None` where the document is
/// no object or a known field has the wrong kind.
pub open spec fn event_of(doc: JsonView) -> Option<LiveMsgView> {
    match doc {
        JsonView::Object(members) => {
            let cmd = text_or_empty(lookup(members, "cmd"@));
            let data = data_or_empty(lookup(members, "data"@));
            let info = list_or_empty(lookup(members, "info"@));
            if cmd is Some && data is Some && info is Some {
                Some(LiveMsgView { cmd: cmd->Some_0, data: data->Some_0, info: info->Some_0 })
            } else {
                None
            }
        },
        _ => None,
    }
}

/// The text at `i`, empty where there is no text there.
pub open spec fn text_at(items: Seq<JsonView>, i: int) -> Seq<char> {
    if 0 <= i < items.len() {
        match items[i] {
            JsonView::Text(s) => s,
            _ => Seq::empty(),
        }
    } else {
        Seq::empty()
    }
}

/// The list at `i`, empty where there is no list there.
pub open spec fn list_at(items: Seq<JsonView>, i: int) -> Seq<JsonView> {
    if 0 <= i < items.len() {
        match items[i] {
            JsonView::List(inner) => inner,
            _ => Seq::empty(),
        }
    } else {
        Seq::empty()
    }
}

/// The chat message in an event: the text is `info[1]`, the sender
/// `info[2][1]`.
pub open spec fn danmaku_of(m: LiveMsgView) -> Option<DanmakuView> {
    if m.cmd == "DANMU_MSG"@ {
        Some(DanmakuView { uname: text_at(list_at(m.info, 2), 1), text: text_at(m.info, 1) })
    } else {
        None
    }
}

/// The line shown for an event.
pub open spec fn display_line(m: LiveMsgView) -> Option<Seq<char>> {
    if m.cmd == "DANMU_MSG"@ {
        Some(text_at(list_at(m.info, 2), 1) + ": "@ + text_at(m.info, 1))
    } else if m.cmd == "SEND_GIFT"@ {
        Some(m.data.uname + ": "@ + m.data.action + " "@ + m.data.gift_name + "\n"@)
    } else {
        None
    }
}

fn read_text(members: &Vec<Member>, key: &str) -> (r: Option<String>)
    ensures
        match r {
            Some(s) => text_or_empty(lookup(pairs(members@), key@)) == Some(s@),
            None => text_or_empty(lookup(pairs(members@), key@)) is None,
        },
{
    let key = String::from_str(key);
    match find_member(members, &key) {
        None => Some(String::new()),
        Some(i) => match &members[i].value {
            Json::Text(s) => Some(s.clone()),
            _ => None,
        },
    }
}

fn read_data(members: &Vec<Member>) -> (r: Option<Data>)
    ensures
        match r {
            Some(d) => data_or_empty(lookup(pairs(members@), "data"@)) == Some(d@),
            None => data_or_empty(lookup(pairs(members@), "data"@)) is None,
        },
{
    let key = String::from_str("data");
    match find_member(members, &key) {
        None => Some(Data::default()),
        Some(i) => match &members[i].value {
            Json::Object(inner) => {
                proof {
                    lemma_tree_parts(members[i as int].value);
                }
                let uname = read_text(inner, "uname");
                let action = read_text(inner, "action");
                let gift_name = read_text(inner, "giftName");
                match (uname, action, gift_name) {
                    (Some(uname), Some(action), Some(gift_name)) => Some(
                        Data { uname, action, gift_name },
                    ),
                    _ => None,
                }
            },
            _ => None,
        },
    }
}

fn take_list(members: Vec<Member>) -> (r: Option<Vec<Json>>)
    ensures
        match r {
            Some(items) => list_or_empty(lookup(pairs(members@), "info"@)) == Some(trees(items@)),
            None => list_or_empty(lookup(pairs(members@), "info"@)) is None,
        },
{
    let mut members = members;
    let ghost before = members@;
    let key = String::from_str("info");
    match find_member(&members, &key) {
        None => Some(Vec::new()),
        Some(i) => {
            let member = members.remove(i);
            assert(member == before[i as int]);
            proof {
                lemma_tree_parts(member.value);
            }
            match member.value {
                Json::List(items) => Some(items),
                _ => None,
            }
        },
    }
}

/// Maps a JSON document to an event. Fields that are absent read as empty;
/// a document that is no object, or a known field of the wrong kind, gives
/// `None`.
pub fn live_msg_from_json(doc: Json) -> (r: Option<LiveMsg>)
    ensures
        match r {
            Some(m) => event_of(doc@) == Some(m@),
            None => event_of(doc@) is None,
        },
{
    proof {
        lemma_tree_parts(doc);
    }
    match doc {
        Json::Object(members) => {
            let cmd = read_text(&members, "cmd");
            let data = read_data(&members);
            let info = take_list(members);
            match (cmd, data, info) {
                (Some(cmd), Some(data), Some(info)) => Some(LiveMsg { cmd, data, info }),
                _ => None,
            }
        },
        _ => None,
    }
}

/// The text at `i` of a list, empty where there is no text there.
fn text_item(items: &Vec<Json>, i: usize) -> (r: String)
    ensures
        r@ == text_at(trees(items@), i as int),
{
    if i < items.len() {
        match &items[i] {
            Json::Text(s) => s.clone(),
            _ => String::new(),
        }
    } else {
        String::new()
    }
}

impl LiveMsg {
    pub const CMD_DANMU_MSG: &'static str = "DANMU_MSG";

    pub const CMD_SEND_GIFT: &'static str = "SEND_GIFT";

    /// Whether this is a chat message.
    pub fn is_danmaku(&self) -> (r: bool)
        ensures
            r == (self@.cmd == "DANMU_MSG"@),
    {
        let tag = String::from_str("DANMU_MSG");
        self.cmd == tag
    }

    /// Whether this is a gift.
    pub fn is_send_gift(&self) -> (r: bool)
        ensures
            r == (self@.cmd == "SEND_GIFT"@),
    {
        let tag = String::from_str("SEND_GIFT");
        self.cmd == tag
    }

    /// Reads a chat message out of the event: `None` unless the command is
    /// the chat one; a part that is missing or no text reads as empty.
    pub fn as_danmaku(&self) -> (r: Option<Danmaku>)
        ensures
            match r {
                Some(d) => danmaku_of(self@) == Some(d@),
                None => danmaku_of(self@) is None,
            },
    {
        if !self.is_danmaku() {
            return None;
        }
        let text = text_item(&self.info, 1);
        let uname = if 2 < self.info.len() {
            proof {
                lemma_tree_parts(self.info[2]);
            }
            match &self.info[2] {
                Json::List(inner) => text_item(inner, 1),
                _ => String::new(),
            }
        } else {
            String::new()
        };
        Some(Danmaku { uname, text })
    }

    /// The line to show for the event: `sender: text` for a chat message,
    /// `sender: action gift` and a line break for a gift, `None` for the
    /// rest.
    pub fn display_text(&self) -> (r: Option<String>)
        ensures
            match r {
                Some(line) => display_line(self@) == Some(line@),
                None => display_line(self@) is None,
            },
    {
        match self.as_danmaku() {
            Some(d) => {
                let line = d.uname.concat(": ").concat(d.text.as_str());
                Some(line)
            },
            None => {
                if self.is_send_gift() {
                    let mut line = self.data.uname.clone();
                    line.append(": ");
                    line.append(self.data.action.as_str());
                    line.append(" ");
                    line.append(self.data.gift_name.as_str());
                    line.append("\n");
                    Some(line)
                } else {
                    None
                }
            },
        }
    }
}

} // verus!
