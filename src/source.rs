//! Menu items as sources and clients send them, the field extractor, and the
//! items that the finder displays.
use std::sync::Arc;
use vstd::prelude::*;

use crate::json::{lookup_from, parse_json, render_json, str_eq, json_parse, json_text, JsonValue};

verus! {

/// Relies on `Arc::clone`: the result points to the same allocation, so it
/// holds the same value.
#[verifier::external_body]
pub(crate) fn share<T>(p: &Arc<T>) -> (r: Arc<T>)
    ensures
        r == *p,
{
    p.clone()
}

/// One menu item of the line protocol between sources, clients and the daemon.
#[derive(Debug)]
pub struct DmenuItem {
    pub title: String,
    pub subtitle: Option<String>,
    pub icon_path: Option<String>,
    pub data: Option<Arc<JsonValue>>,
}

/// Icon data of a displayed item.
#[derive(Debug)]
pub enum IconData {
    /// RGBA pixels, shared between copies of an item.
    Rgba { width: u32, height: u32, pixels: Arc<Vec<u8>> },
    /// A text or emoji stand-in.
    Text(String),
}

/// An item displayed in the finder.
#[derive(Debug)]
pub struct SourceItem {
    /// Position marker within a session (for client sessions: the index in the parsed list).
    pub id: Option<usize>,
    pub title: String,
    pub subtitle: Option<String>,
    /// The value used for matching and execution.
    pub exec_path: String,
    /// The provider or session that the item came from.
    pub source_name: String,
    pub icon: Option<IconData>,
}

/// The characters of an optional string; none when absent.
pub open spec fn opt_text(s: Option<String>) -> Seq<char> {
    match s {
        Some(t) => t@,
        None => Seq::empty(),
    }
}

/// A JSON value as a plain string: strings as they are, numbers and booleans
/// in their canonical text, null as nothing, anything else as compact JSON.
pub open spec fn value_text(v: JsonValue) -> Seq<char> {
    match v {
        JsonValue::Str(s) => s@,
        JsonValue::Number(t) => t@,
        JsonValue::Bool(b) => if b {
            "true"@
        } else {
            "false"@
        },
        JsonValue::Null => Seq::empty(),
        _ => json_text(v),
    }
}

/// The position of the first '.' at or after `i`, or the length when there is none.
pub open spec fn dot_from(p: Seq<char>, i: int) -> int
    decreases p.len() - i,
{
    if i < 0 || i >= p.len() {
        p.len() as int
    } else if p[i] == '.' {
        i
    } else {
        dot_from(p, i + 1)
    }
}

/// Follows the dot-separated keys of `p` from position `i` into `v`.
pub open spec fn walk_from(v: JsonValue, p: Seq<char>, i: int) -> Option<JsonValue>
    decreases p.len() - i,
{
    let k = dot_from(p, i);
    if i < 0 || i > p.len() || k < i || k > p.len() {
        None
    } else {
        match v.member(p.subrange(i, k)) {
            None => None,
            Some(c) => if k >= p.len() {
                Some(c)
            } else {
                walk_from(c, p, k + 1)
            },
        }
    }
}

pub open spec fn starts_with(p: Seq<char>, prefix: Seq<char>) -> bool {
    p.len() >= prefix.len() && p.subrange(0, prefix.len() as int) == prefix
}

/// The value of field path `path` of `item`.
pub open spec fn field_value(item: DmenuItem, path: Seq<char>) -> Seq<char> {
    if path == "title"@ {
        item.title@
    } else if path == "subtitle"@ {
        opt_text(item.subtitle)
    } else if path == "icon_path"@ {
        opt_text(item.icon_path)
    } else if starts_with(path, "data"@) {
        match item.data {
            None => item.title@,
            Some(d) => if path == "data"@ {
                value_text(*d)
            } else if starts_with(path, "data."@) {
                match walk_from(*d, path, "data."@.len() as int) {
                    Some(v) => value_text(v),
                    None => Seq::empty(),
                }
            } else {
                item.title@
            },
        }
    } else {
        item.title@
    }
}

proof fn lemma_dot_from_bounds(p: Seq<char>, i: int)
    requires
        0 <= i <= p.len(),
    ensures
        i <= dot_from(p, i) <= p.len(),
        dot_from(p, i) < p.len() ==> p[dot_from(p, i)] == '.',
        forall|j: int| i <= j < dot_from(p, i) ==> p[j] != '.',
    decreases p.len() - i,
{
    if i < p.len() && p[i] != '.' {
        lemma_dot_from_bounds(p, i + 1);
    }
}

/// Field extraction is total (`get_field` has no precondition and always
/// returns a string), and the `data` path of an item whose data is JSON null
/// gives the empty string.
pub proof fn lemma_null_data_is_empty(item: DmenuItem)
    requires
        opt_data(item.data) == Some(JsonValue::Null),
    ensures
        field_value(item, "data"@) == Seq::<char>::empty(),
{
    reveal_strlit("title");
    reveal_strlit("subtitle");
    reveal_strlit("icon_path");
    reveal_strlit("data");
    assert("data"@.subrange(0, 4) =~= "data"@);
}

/// The characters of an optional string, as a `String`.
fn opt_string_text(s: &Option<String>) -> (r: String)
    ensures
        r@ == opt_text(*s),
{
    match s {
        Some(t) => t.clone(),
        None => String::new(),
    }
}

pub(crate) fn copy_opt_string(s: &Option<String>) -> (r: Option<String>)
    ensures
        r == *s,
{
    match s {
        Some(t) => Some(t.clone()),
        None => None,
    }
}

fn starts_with_str(s: &str, prefix: &str) -> (r: bool)
    ensures
        r == starts_with(s@, prefix@),
{
    let n = s.unicode_len();
    let m = prefix.unicode_len();
    if n < m {
        false
    } else {
        str_eq(s.substring_char(0, m), prefix)
    }
}

/// Renders a JSON value as a plain string.
pub fn value_to_string(v: &JsonValue) -> (r: String)
    ensures
        r@ == value_text(*v),
{
    match v {
        JsonValue::Str(s) => s.clone(),
        JsonValue::Number(t) => t.clone(),
        JsonValue::Bool(b) => if *b {
            String::from_str("true")
        } else {
            String::from_str("false")
        },
        JsonValue::Null => String::new(),
        _ => render_json(v),
    }
}

/// Follows the keys of `path` from position `start` into `v`.
fn walk_path<'a>(v: &'a JsonValue, path: &str, start: usize) -> (r: Option<&'a JsonValue>)
    requires
        start <= path@.len(),
    ensures
        match r {
            Some(x) => walk_from(*v, path@, start as int) == Some(*x),
            None => walk_from(*v, path@, start as int) is None,
        },
{
    let n = path.unicode_len();
    let mut cur: &'a JsonValue = v;
    let mut i: usize = start;
    loop
        invariant
            n == path@.len(),
            i <= n,
            walk_from(*v, path@, start as int) == walk_from(*cur, path@, i as int),
        decreases n - i,
    {
        let mut k: usize = i;
        while k < n && path.get_char(k) != '.'
            invariant
                n == path@.len(),
                i <= k <= n,
                dot_from(path@, i as int) == dot_from(path@, k as int),
            decreases n - k,
        {
            k = k + 1;
        }
        proof {
            lemma_dot_from_bounds(path@, i as int);
        }
        let key = path.substring_char(i, k);
        match cur.get(key) {
            None => {
                return None;
            },
            Some(c) => {
                if k >= n {
                    return Some(c);
                }
                cur = c;
                i = k + 1;
            },
        }
    }
}

/// An optional string member: absent or null gives `Some(None)`, a string
/// gives `Some(Some(..))`, anything else is invalid (`None`).
pub open spec fn opt_string_member(v: Option<JsonValue>) -> Option<Option<String>> {
    match v {
        None => Some(None),
        Some(JsonValue::Null) => Some(None),
        Some(JsonValue::Str(s)) => Some(Some(s)),
        _ => None,
    }
}

pub open spec fn member_of(fields: Seq<(String, JsonValue)>, key: Seq<char>) -> Option<JsonValue> {
    lookup_from(fields, key, 0)
}

/// Whether a JSON value describes a menu item: an object whose `title` is a
/// string and whose `subtitle` and `icon_path` are strings, null or absent.
pub open spec fn json_is_item(v: JsonValue) -> bool {
    match v {
        JsonValue::Object(f) => {
            &&& member_of(f@, "title"@) matches Some(JsonValue::Str(_))
            &&& opt_string_member(member_of(f@, "subtitle"@)) is Some
            &&& opt_string_member(member_of(f@, "icon_path"@)) is Some
        },
        _ => false,
    }
}

pub open spec fn opt_data(d: Option<Arc<JsonValue>>) -> Option<JsonValue> {
    match d {
        Some(a) => Some(*a),
        None => None,
    }
}

/// `item` holds the members of the menu-item object `v`.
pub open spec fn json_item_parts(v: JsonValue, item: DmenuItem) -> bool {
    match v {
        JsonValue::Object(f) => {
            &&& member_of(f@, "title"@) == Some(JsonValue::Str(item.title))
            &&& opt_string_member(member_of(f@, "subtitle"@)) == Some(item.subtitle)
            &&& opt_string_member(member_of(f@, "icon_path"@)) == Some(item.icon_path)
            &&& opt_data(item.data) == member_of(f@, "data"@)
        },
        _ => false,
    }
}

/// The item that a line of text describes, if it is one.
pub open spec fn line_item(line: Seq<char>, item: DmenuItem) -> bool {
    json_parse(line) matches Some(v) && json_item_parts(v, item)
}

pub open spec fn line_is_item(line: Seq<char>) -> bool {
    json_parse(line) matches Some(v) && json_is_item(v)
}

fn opt_string_from(v: Option<JsonValue>) -> (r: Option<Option<String>>)
    ensures
        r == opt_string_member(v),
{
    match v {
        None => Some(None),
        Some(JsonValue::Null) => Some(None),
        Some(JsonValue::Str(s)) => Some(Some(s)),
        _ => None,
    }
}

impl DmenuItem {
    /// Reads a menu item from a JSON value; members other than `title`,
    /// `subtitle`, `icon_path` and `data` are ignored.
    pub fn from_json(v: JsonValue) -> (r: Option<DmenuItem>)
        ensures
            r is Some <==> json_is_item(v),
            r matches Some(item) ==> json_item_parts(v, item),
    {
        let ghost v0 = v;
        match v {
            JsonValue::Object(mut fields) => {
                let ghost orig = fields@;
                let mut title: Option<JsonValue> = None;
                let mut subtitle: Option<JsonValue> = None;
                let mut icon_path: Option<JsonValue> = None;
                let mut data: Option<JsonValue> = None;
                while fields.len() > 0
                    invariant
                        fields@.len() <= orig.len(),
                        fields@ == orig.subrange(0, fields@.len() as int),
                        title == lookup_from(orig, "title"@, fields@.len() as int),
                        subtitle == lookup_from(orig, "subtitle"@, fields@.len() as int),
                        icon_path == lookup_from(orig, "icon_path"@, fields@.len() as int),
                        data == lookup_from(orig, "data"@, fields@.len() as int),
                    decreases fields@.len(),
                {
                    let ghost n = fields@.len() as int;
                    proof {
                        reveal_strlit("title");
                        reveal_strlit("subtitle");
                        reveal_strlit("icon_path");
                        reveal_strlit("data");
                        assert("title"@.len() == 5);
                        assert("subtitle"@.len() == 8);
                        assert("icon_path"@.len() == 9);
                        assert("data"@.len() == 4);
                    }
                    let last = fields.pop();
                    match last {
                        Some((k, x)) => {
                            assert(orig[n - 1] == (k, x));
                            if str_eq(k.as_str(), "title") {
                                title = Some(x);
                            } else if str_eq(k.as_str(), "subtitle") {
                                subtitle = Some(x);
                            } else if str_eq(k.as_str(), "icon_path") {
                                icon_path = Some(x);
                            } else if str_eq(k.as_str(), "data") {
                                data = Some(x);
                            }
                            assert(fields@ =~= orig.subrange(0, fields@.len() as int));
                        },
                        None => {},
                    }
                }
                let title = match title {
                    Some(JsonValue::Str(t)) => t,
                    _ => {
                        return None;
                    },
                };
                let subtitle = match opt_string_from(subtitle) {
                    Some(s) => s,
                    None => {
                        return None;
                    },
                };
                let icon_path = match opt_string_from(icon_path) {
                    Some(s) => s,
                    None => {
                        return None;
                    },
                };
                let data = match data {
                    None => None,
                    Some(d) => Some(Arc::new(d)),
                };
                Some(DmenuItem { title, subtitle, icon_path, data })
            },
            _ => None,
        }
    }

    /// Reads a menu item from one line of JSON text.
    pub fn parse_line(line: &str) -> (r: Option<DmenuItem>)
        ensures
            r is Some <==> line_is_item(line@),
            r matches Some(item) ==> line_item(line@, item),
    {
        match parse_json(line) {
            Some(v) => DmenuItem::from_json(v),
            None => None,
        }
    }

    /// The value of a dot-separated field path: `title`, `subtitle`, `icon_path`,
    /// `data` or `data.<key>.<key>...`; any other path gives the title.
    pub fn get_field(&self, field: &str) -> (r: String)
        ensures
            r@ == field_value(*self, field@),
    {
        if str_eq(field, "title") {
            return self.title.clone();
        }
        if str_eq(field, "subtitle") {
            return opt_string_text(&self.subtitle);
        }
        if str_eq(field, "icon_path") {
            return opt_string_text(&self.icon_path);
        }
        if !starts_with_str(field, "data") {
            return self.title.clone();
        }
        match &self.data {
            None => self.title.clone(),
            Some(d) => {
                if str_eq(field, "data") {
                    value_to_string(d)
                } else if starts_with_str(field, "data.") {
                    let skip = "data.".unicode_len();
                    match walk_path(d, field, skip) {
                        Some(v) => value_to_string(v),
                        None => String::new(),
                    }
                } else {
                    self.title.clone()
                }
            },
        }
    }

    /// A copy equal to `self`; the data is shared.
    pub fn duplicate(&self) -> (r: DmenuItem)
        ensures
            r == *self,
    {
        DmenuItem {
            title: self.title.clone(),
            subtitle: copy_opt_string(&self.subtitle),
            icon_path: copy_opt_string(&self.icon_path),
            data: match &self.data {
                Some(d) => Some(share(d)),
                None => None,
            },
        }
    }
}

impl IconData {
    /// A copy equal to `self`; the pixels are shared.
    pub fn duplicate(&self) -> (r: IconData)
        ensures
            r == *self,
    {
        match self {
            IconData::Rgba { width, height, pixels } => IconData::Rgba {
                width: *width,
                height: *height,
                pixels: share(pixels),
            },
            IconData::Text(s) => IconData::Text(s.clone()),
        }
    }
}

impl SourceItem {
    /// A copy equal to `self`.
    pub fn duplicate(&self) -> (r: SourceItem)
        ensures
            r == *self,
    {
        SourceItem {
            id: self.id,
            title: self.title.clone(),
            subtitle: copy_opt_string(&self.subtitle),
            exec_path: self.exec_path.clone(),
            source_name: self.source_name.clone(),
            icon: match &self.icon {
                Some(i) => Some(i.duplicate()),
                None => None,
            },
        }
    }
}

} // verus!
