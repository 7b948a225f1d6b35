//! The built-in providers' items: installed applications and on-screen
//! windows, as the JSON menu items their source commands print.
use vstd::prelude::*;

use crate::json::{str_eq, JsonValue};
use crate::paths::{signed_decimal, signed_text};

verus! {

/// An installed application bundle.
#[derive(Debug)]
pub struct AppEntry {
    pub name: String,
    pub path: String,
}

/// An on-screen window.
#[derive(Debug)]
pub struct WindowEntry {
    pub owner: String,
    pub title: String,
    pub pid: i64,
    pub wid: i64,
    pub bundle_path: Option<String>,
}

/// The position just after the last `/` before `i`, or 0.
pub open spec fn component_start(p: Seq<char>, i: int) -> int
    decreases i,
{
    if i <= 0 {
        0
    } else if p[i - 1] == '/' {
        i
    } else {
        component_start(p, i - 1)
    }
}

/// The last component of a path.
pub open spec fn file_name(p: Seq<char>) -> Seq<char> {
    p.subrange(component_start(p, p.len() as int), p.len() as int)
}

proof fn lemma_component_start(p: Seq<char>, i: int)
    requires
        0 <= i <= p.len(),
    ensures
        0 <= component_start(p, i) <= i,
    decreases i,
{
    if i > 0 && p[i - 1] != '/' {
        lemma_component_start(p, i - 1);
    }
}

/// A JSON member holding a string.
pub open spec fn str_member(m: (String, JsonValue), key: Seq<char>, value: Seq<char>) -> bool {
    m.0@ == key && m.1 is Str && m.1->Str_0@ == value
}

/// A JSON member holding a number with the decimal text of `n`.
pub open spec fn number_member(m: (String, JsonValue), key: Seq<char>, n: int) -> bool {
    m.0@ == key && m.1 is Number && m.1->Number_0@ == signed_text(n)
}

impl AppEntry {
    /// The entry of a bundle path whose last component is `<name>.app`;
    /// nothing for any other path.
    pub fn from_path(path: &str) -> (r: Option<AppEntry>)
        ensures
            r is Some <==> (file_name(path@).len() > 4 && file_name(path@).subrange(
                file_name(path@).len() - 4,
                file_name(path@).len() as int,
            ) == ".app"@),
            r matches Some(e) ==> e.path@ == path@ && e.name@ == file_name(path@).subrange(
                0,
                file_name(path@).len() - 4,
            ),
    {
        let n = path.unicode_len();
        let mut start: usize = n;
        while start > 0 && path.get_char(start - 1) != '/'
            invariant
                start <= n,
                n == path@.len(),
                component_start(path@, n as int) == component_start(path@, start as int),
            decreases start,
        {
            start = start - 1;
        }
        proof {
            lemma_component_start(path@, n as int);
            reveal_strlit(".app");
        }
        let ghost name = file_name(path@);
        let len = n - start;
        if len <= 4 {
            return None;
        }
        let suffix = path.substring_char(n - 4, n);
        assert(suffix@ =~= name.subrange(name.len() - 4, name.len() as int));
        if !str_eq(suffix, ".app") {
            return None;
        }
        let stem = path.substring_char(start, n - 4);
        assert(stem@ =~= name.subrange(0, name.len() - 4));
        Some(AppEntry { name: stem.to_owned(), path: path.to_owned() })
    }

    /// The menu item of the application: titled by its name, with its path
    /// as subtitle, icon path and data member `path`.
    pub fn to_json(&self) -> (r: JsonValue)
        ensures
            r is Object,
            r->Object_0@.len() == 4,
            str_member(r->Object_0@[0], "title"@, self.name@),
            str_member(r->Object_0@[1], "subtitle"@, self.path@),
            str_member(r->Object_0@[2], "icon_path"@, self.path@),
            r->Object_0@[3].0@ == "data"@,
            r->Object_0@[3].1 is Object,
            r->Object_0@[3].1->Object_0@.len() == 1,
            str_member(r->Object_0@[3].1->Object_0@[0], "path"@, self.path@),
    {
        let mut data: Vec<(String, JsonValue)> = Vec::new();
        data.push((String::from_str("path"), JsonValue::Str(self.path.clone())));
        let mut fields: Vec<(String, JsonValue)> = Vec::new();
        fields.push((String::from_str("title"), JsonValue::Str(self.name.clone())));
        fields.push((String::from_str("subtitle"), JsonValue::Str(self.path.clone())));
        fields.push((String::from_str("icon_path"), JsonValue::Str(self.path.clone())));
        fields.push((String::from_str("data"), JsonValue::Object(data)));
        JsonValue::Object(fields)
    }
}

impl WindowEntry {
    /// The menu item of the window: titled by its owner, with the window
    /// title as subtitle, the owner's bundle as icon path when known, and data
    /// members `pid` and `wid`.
    pub fn to_json(&self) -> (r: JsonValue)
        ensures
            r is Object,
            ({
                let f = r->Object_0@;
                let d = if self.bundle_path is Some {
                    3int
                } else {
                    2int
                };
                &&& f.len() == d + 1
                &&& str_member(f[0], "title"@, self.owner@)
                &&& str_member(f[1], "subtitle"@, self.title@)
                &&& self.bundle_path matches Some(b) ==> str_member(f[2], "icon_path"@, b@)
                &&& f[d].0@ == "data"@
                &&& f[d].1 is Object
                &&& f[d].1->Object_0@.len() == 2
                &&& number_member(f[d].1->Object_0@[0], "pid"@, self.pid as int)
                &&& number_member(f[d].1->Object_0@[1], "wid"@, self.wid as int)
            }),
    {
        let mut data: Vec<(String, JsonValue)> = Vec::new();
        data.push((String::from_str("pid"), JsonValue::Number(signed_decimal(self.pid))));
        data.push((String::from_str("wid"), JsonValue::Number(signed_decimal(self.wid))));
        let mut fields: Vec<(String, JsonValue)> = Vec::new();
        fields.push((String::from_str("title"), JsonValue::Str(self.owner.clone())));
        fields.push((String::from_str("subtitle"), JsonValue::Str(self.title.clone())));
        match &self.bundle_path {
            Some(b) => {
                fields.push((String::from_str("icon_path"), JsonValue::Str(b.clone())));
            },
            None => {},
        }
        fields.push((String::from_str("data"), JsonValue::Object(data)));
        JsonValue::Object(fields)
    }
}

} // verus!
