//! The client session protocol: the context line, the item lines, and the
//! reply line.
use vstd::prelude::*;

use crate::json::{json_parse, parse_json, str_eq, JsonValue};
use crate::source::{
    copy_opt_string, field_value, line_is_item, line_item, member_of, DmenuItem, SourceItem,
};

verus! {

/// The format of a client's item lines.
#[derive(Debug, Clone, Copy, PartialEq, Eq, Structural)]
pub enum IpcFormat {
    Text,
    Jsonl,
}

/// What `str::trim` leaves of a text.
pub uninterp spec fn trim_of(s: Seq<char>) -> Seq<char>;

/// Relies on `str::trim`: the text without leading and trailing white space,
/// which depends on the text alone.
#[verifier::external_body]
pub(crate) fn trim_text(s: &str) -> (r: &str)
    ensures
        r@ == trim_of(s@),
{
    s.trim()
}

/// `s` without the trailing characters `c`.
pub open spec fn strip_trailing(s: Seq<char>, c: char) -> Seq<char>
    decreases s.len(),
{
    if s.len() > 0 && s.last() == c {
        strip_trailing(s.drop_last(), c)
    } else {
        s
    }
}

/// A line without its trailing newlines, then without its trailing carriage returns.
pub open spec fn strip_eol(s: Seq<char>) -> Seq<char> {
    strip_trailing(strip_trailing(s, '\n'), '\r')
}

/// The non-empty lines among `lines`, each without its line ending.
pub open spec fn kept_lines(lines: Seq<String>) -> Seq<Seq<char>>
    decreases lines.len(),
{
    if lines.len() == 0 {
        Seq::empty()
    } else {
        let rest = kept_lines(lines.drop_last());
        let l = strip_eol(lines.last()@);
        if l.len() > 0 {
            rest.push(l)
        } else {
            rest
        }
    }
}

/// The format that a context line names: `jsonl`, or text for any other
/// string; nothing when the line is not a JSON object with a string `format`.
pub open spec fn context_format(line: Seq<char>) -> Option<IpcFormat> {
    match json_parse(line) {
        Some(JsonValue::Object(f)) => match member_of(f@, "format"@) {
            Some(JsonValue::Str(s)) => Some(
                if s@ == "jsonl"@ {
                    IpcFormat::Jsonl
                } else {
                    IpcFormat::Text
                },
            ),
            _ => None,
        },
        _ => None,
    }
}

/// The format of a session whose first line is `first`.
pub open spec fn session_format(first: Seq<char>) -> IpcFormat {
    match context_format(trim_of(first)) {
        Some(f) => f,
        None => IpcFormat::Text,
    }
}

/// The raw item lines of a session: the first line, trimmed, where it is no
/// context line and not empty, then every other non-empty line.
pub open spec fn session_raw_lines(lines: Seq<String>) -> Seq<Seq<char>> {
    let first = trim_of(lines[0]@);
    let head = if context_format(first) is Some || first.len() == 0 {
        Seq::<Seq<char>>::empty()
    } else {
        seq![first]
    };
    head + kept_lines(lines.subrange(1, lines.len() as int))
}

/// The positions of the lines that describe menu items.
pub open spec fn item_positions(raw: Seq<Seq<char>>) -> Seq<int>
    decreases raw.len(),
{
    if raw.len() == 0 {
        Seq::empty()
    } else {
        let rest = item_positions(raw.drop_last());
        if line_is_item(raw.last()) {
            rest.push(raw.len() - 1)
        } else {
            rest
        }
    }
}

/// The positions `0 .. n`.
pub open spec fn all_positions(n: int) -> Seq<int> {
    Seq::new(n as nat, |i: int| i)
}

/// One client session: the lines it sent, the items it is shown, and for each
/// item the position of its line.
pub struct DmenuSession {
    pub format: IpcFormat,
    pub raw_lines: Vec<String>,
    pub items: Vec<SourceItem>,
    pub index_map: Vec<usize>,
    /// The menu items read from the lines, in the order of `items` (JSON lines only).
    pub parsed: Vec<DmenuItem>,
}

impl DmenuSession {
    pub open spec fn raw(&self) -> Seq<Seq<char>> {
        self.raw_lines@.map_values(|l: String| l@)
    }

    pub open spec fn positions(&self) -> Seq<int> {
        self.index_map@.map_values(|i: usize| i as int)
    }

    /// The session's parts agree: each item knows its position and its line.
    pub open spec fn wf(&self) -> bool {
        &&& self.items@.len() == self.index_map@.len()
        &&& forall|i: int| 0 <= i < self.index_map@.len() ==> self.index_map@[i] < self.raw_lines@.len()
        &&& forall|i: int| 0 <= i < self.items@.len() ==> (#[trigger] self.items@[i]).id == Some(i as usize)
        &&& match self.format {
            IpcFormat::Text => {
                &&& self.positions() == all_positions(self.raw_lines@.len() as int)
                &&& forall|i: int| 0 <= i < self.items@.len() ==> {
                    &&& (#[trigger] self.items@[i]).title@ == self.raw_lines@[i]@
                    &&& self.items@[i].subtitle is None
                    &&& self.items@[i].exec_path@.len() == 0
                }
            },
            IpcFormat::Jsonl => {
                &&& self.positions() == item_positions(self.raw())
                &&& self.parsed@.len() == self.items@.len()
                &&& forall|i: int| 0 <= i < self.items@.len() ==> {
                    &&& line_item(self.raw_lines@[self.index_map@[i] as int]@, self.parsed@[i])
                    &&& (#[trigger] self.items@[i]).title == self.parsed@[i].title
                    &&& self.items@[i].subtitle == self.parsed@[i].subtitle
                    &&& self.items@[i].exec_path@ == field_value(self.parsed@[i], "data"@)
                }
            },
        }
        &&& forall|i: int| 0 <= i < self.items@.len() ==> {
            &&& (#[trigger] self.items@[i]).source_name@ == "dmenu"@
            &&& self.items@[i].icon is None
        }
    }

    /// The text of the reply to selection `selected` (an item's id), without
    /// its line ending: the item's raw line in text sessions, the item's `data`
    /// field in JSON sessions; nothing for a cancellation or an unknown id.
    pub open spec fn reply_text(&self, selected: Option<usize>) -> Seq<char> {
        match selected {
            Some(id) => if id < self.index_map@.len() {
                match self.format {
                    IpcFormat::Text => self.raw_lines@[self.index_map@[id as int] as int]@,
                    IpcFormat::Jsonl => field_value(self.parsed@[id as int], "data"@),
                }
            } else {
                Seq::empty()
            },
            None => Seq::empty(),
        }
    }
}

/// Removes the trailing newlines, then the trailing carriage returns, of a line.
pub fn strip_line_end(s: &str) -> (r: &str)
    ensures
        r@ == strip_eol(s@),
{
    let mut k: usize = s.unicode_len();
    assert(s@.subrange(0, k as int) =~= s@);
    while k > 0 && s.get_char(k - 1) == '\n'
        invariant
            k <= s@.len(),
            strip_trailing(s@, '\n') == strip_trailing(s@.subrange(0, k as int), '\n'),
        decreases k,
    {
        assert(s@.subrange(0, k as int).drop_last() =~= s@.subrange(0, k - 1));
        k = k - 1;
    }
    assert(strip_trailing(s@.subrange(0, k as int), '\n') == s@.subrange(0, k as int));
    let m: usize = k;
    while k > 0 && s.get_char(k - 1) == '\r'
        invariant
            k <= m <= s@.len(),
            strip_eol(s@) == strip_trailing(s@.subrange(0, k as int), '\r'),
        decreases k,
    {
        assert(s@.subrange(0, k as int).drop_last() =~= s@.subrange(0, k - 1));
        k = k - 1;
    }
    s.substring_char(0, k)
}

/// Reads a context line: the format it names, or nothing when it is not one.
pub fn parse_context(line: &str) -> (r: Option<IpcFormat>)
    ensures
        r == context_format(line@),
{
    match parse_json(line) {
        Some(v) => match v.get("format") {
            Some(JsonValue::Str(s)) => {
                if str_eq(s.as_str(), "jsonl") {
                    Some(IpcFormat::Jsonl)
                } else {
                    Some(IpcFormat::Text)
                }
            },
            _ => None,
        },
        None => None,
    }
}

impl DmenuSession {
    /// Builds a session from the lines a client sent, as read (line endings
    /// included). Nothing when there are no lines, or when no line gives an item.
    pub fn from_lines(lines: Vec<String>) -> (r: Option<DmenuSession>)
        ensures
            lines@.len() == 0 ==> r is None,
            lines@.len() > 0 ==> {
                let raw = session_raw_lines(lines@);
                let format = session_format(lines@[0]@);
                let count = match format {
                    IpcFormat::Text => raw.len() as int,
                    IpcFormat::Jsonl => item_positions(raw).len() as int,
                };
                &&& (r is None <==> count == 0)
                &&& r matches Some(s) ==> {
                    &&& s.wf()
                    &&& s.format == format
                    &&& s.raw() == raw
                }
            },
    {
        if lines.len() == 0 {
            return None;
        }
        let first = trim_text(lines[0].as_str());
        let ctx = parse_context(first);
        let format = match ctx {
            Some(f) => f,
            None => IpcFormat::Text,
        };
        let ghost head: Seq<Seq<char>> = if ctx is Some || first@.len() == 0 {
            Seq::empty()
        } else {
            seq![first@]
        };
        let mut raw: Vec<String> = Vec::new();
        match ctx {
            None => {
                if first.unicode_len() > 0 {
                    raw.push(first.to_owned());
                }
            },
            Some(_) => {},
        }
        let mut i: usize = 1;
        while i < lines.len()
            invariant
                1 <= i <= lines@.len(),
                raw@.len() == (head + kept_lines(lines@.subrange(1, i as int))).len(),
                forall|j: int|
                    0 <= j < raw@.len() ==> #[trigger] raw@[j]@ == (head + kept_lines(
                        lines@.subrange(1, i as int),
                    ))[j],
            decreases lines.len() - i,
        {
            let l = strip_line_end(lines[i].as_str());
            assert(lines@.subrange(1, i + 1).drop_last() =~= lines@.subrange(1, i as int));
            if l.unicode_len() > 0 {
                raw.push(l.to_owned());
            }
            i = i + 1;
        }
        assert(lines@.subrange(1, lines@.len() as int) =~= lines@.subrange(1, i as int));
        let ghost rawv = raw@.map_values(|l: String| l@);
        assert(rawv =~= session_raw_lines(lines@));
        let mut items: Vec<SourceItem> = Vec::new();
        let mut index_map: Vec<usize> = Vec::new();
        let mut parsed: Vec<DmenuItem> = Vec::new();
        let mut j: usize = 0;
        match format {
            IpcFormat::Text => {
                while j < raw.len()
                    invariant
                        j <= raw@.len(),
                        items@.len() == j,
                        index_map@.len() == j,
                        forall|t: int| 0 <= t < j ==> #[trigger] index_map@[t] == t,
                        forall|t: int| 0 <= t < j ==> {
                            &&& (#[trigger] items@[t]).id == Some(t as usize)
                            &&& items@[t].title@ == raw@[t]@
                            &&& items@[t].subtitle is None
                            &&& items@[t].exec_path@.len() == 0
                            &&& items@[t].source_name@ == "dmenu"@
                            &&& items@[t].icon is None
                        },
                    decreases raw.len() - j,
                {
                    items.push(
                        SourceItem {
                            id: Some(j),
                            title: raw[j].clone(),
                            subtitle: None,
                            exec_path: String::new(),
                            source_name: String::from_str("dmenu"),
                            icon: None,
                        },
                    );
                    index_map.push(j);
                    j = j + 1;
                }
                if items.len() == 0 {
                    return None;
                }
                let s = DmenuSession { format, raw_lines: raw, items, index_map, parsed };
                assert(s.positions() =~= all_positions(s.raw_lines@.len() as int));
                Some(s)
            },
            IpcFormat::Jsonl => {
                while j < raw.len()
                    invariant
                        j <= raw@.len(),
                        rawv == raw@.map_values(|l: String| l@),
                        items@.len() == index_map@.len(),
                        parsed@.len() == items@.len(),
                        index_map@.map_values(|i: usize| i as int) == item_positions(
                            rawv.subrange(0, j as int),
                        ),
                        forall|t: int| 0 <= t < index_map@.len() ==> #[trigger] index_map@[t] < j,
                        forall|t: int| 0 <= t < items@.len() ==> {
                            &&& (#[trigger] items@[t]).id == Some(t as usize)
                            &&& line_item(raw@[index_map@[t] as int]@, parsed@[t])
                            &&& items@[t].title == parsed@[t].title
                            &&& items@[t].subtitle == parsed@[t].subtitle
                            &&& items@[t].exec_path@ == field_value(parsed@[t], "data"@)
                            &&& items@[t].source_name@ == "dmenu"@
                            &&& items@[t].icon is None
                        },
                    decreases raw.len() - j,
                {
                    assert(rawv.subrange(0, j + 1).drop_last() =~= rawv.subrange(0, j as int));
                    assert(rawv.subrange(0, j + 1).last() == raw@[j as int]@);
                    match DmenuItem::parse_line(raw[j].as_str()) {
                        Some(di) => {
                            let exec = di.get_field("data");
                            let n = items.len();
                            items.push(
                                SourceItem {
                                    id: Some(n),
                                    title: di.title.clone(),
                                    subtitle: copy_opt_string(&di.subtitle),
                                    exec_path: exec,
                                    source_name: String::from_str("dmenu"),
                                    icon: None,
                                },
                            );
                            let ghost old_map = index_map@;
                            index_map.push(j);
                            assert(index_map@.map_values(|i: usize| i as int) =~= old_map.map_values(
                                |i: usize| i as int,
                            ).push(j as int));
                            parsed.push(di);
                        },
                        None => {},
                    }
                    j = j + 1;
                }
                assert(rawv.subrange(0, j as int) =~= rawv);
                if items.len() == 0 {
                    return None;
                }
                let s = DmenuSession { format, raw_lines: raw, items, index_map, parsed };
                Some(s)
            },
        }
    }

    /// The reply line for selection `selected` (an item's id; `None` for a
    /// cancellation), line ending included.
    pub fn reply_line(&self, selected: Option<usize>) -> (r: String)
        requires
            self.wf(),
        ensures
            r@ == self.reply_text(selected) + "\n"@,
    {
        let text = match selected {
            Some(id) => if id < self.index_map.len() {
                match self.format {
                    IpcFormat::Text => self.raw_lines[self.index_map[id]].clone(),
                    IpcFormat::Jsonl => self.parsed[id].get_field("data"),
                }
            } else {
                String::new()
            },
            None => String::new(),
        };
        text.concat("\n")
    }
}

/// Replies follow the selected item, however the items were ranked: in a
/// text session the reply to an item's id is that item's own line; in a JSON
/// session it is the `data` field of the item read from the item's own line,
/// where lines that are not items were skipped before it.
pub proof fn lemma_reply_follows_item(s: DmenuSession, i: int)
    requires
        s.wf(),
        0 <= i < s.items@.len(),
    ensures
        s.format == IpcFormat::Text ==> s.reply_text(s.items@[i].id) == s.raw_lines@[i]@
            && s.items@[i].title@ == s.raw_lines@[i]@,
        s.format == IpcFormat::Jsonl ==> {
            &&& s.reply_text(s.items@[i].id) == field_value(s.parsed@[i], "data"@)
            &&& s.index_map@[i] as int == item_positions(s.raw())[i]
            &&& line_item(s.raw_lines@[s.index_map@[i] as int]@, s.parsed@[i])
        },
{
    let item = s.items@[i];
    assert(s.items.len() == s.items@.len());
    assert(0 <= i < usize::MAX);
    assert(item.id == Some(i as usize));
    assert((i as usize) as int == i);
    assert(s.positions()[i] == s.index_map@[i] as int);
    if s.format == IpcFormat::Text {
        assert(s.positions().len() == s.index_map@.len());
        assert(all_positions(s.raw_lines@.len() as int).len() == s.raw_lines@.len());
        assert(s.positions()[i] == all_positions(s.raw_lines@.len() as int)[i]);
        assert(s.index_map@[i] == i);
    } else {
        assert(s.positions()[i] == item_positions(s.raw())[i]);
    }
}

} // verus!
