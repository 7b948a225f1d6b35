//! Where the daemon keeps its socket and its PID file.
use vstd::prelude::*;

verus! {

/// The decimal digits of `n`.
pub open spec fn decimal_text(n: nat) -> Seq<char>
    decreases n,
{
    if n < 10 {
        seq![digit_char(n)]
    } else {
        decimal_text(n / 10).push(digit_char(n % 10))
    }
}

pub open spec fn digit_char(d: nat) -> char {
    if d == 0 {
        '0'
    } else if d == 1 {
        '1'
    } else if d == 2 {
        '2'
    } else if d == 3 {
        '3'
    } else if d == 4 {
        '4'
    } else if d == 5 {
        '5'
    } else if d == 6 {
        '6'
    } else if d == 7 {
        '7'
    } else if d == 8 {
        '8'
    } else {
        '9'
    }
}

fn digit_str(d: u64) -> (r: &'static str)
    requires
        d < 10,
    ensures
        r@ == seq![digit_char(d as nat)],
{
    let digits = "0123456789";
    proof {
        reveal_strlit("0123456789");
    }
    let r = digits.substring_char(d as usize, d as usize + 1);
    assert(r@ =~= seq![digit_char(d as nat)]);
    r
}

/// The decimal text of a number.
pub fn decimal(n: u64) -> (r: String)
    ensures
        r@ == decimal_text(n as nat),
    decreases n,
{
    if n < 10 {
        String::from_str(digit_str(n))
    } else {
        let head = decimal(n / 10);
        let r = head.concat(digit_str(n % 10));
        r
    }
}

/// The decimal text of a signed number, with a leading `-` when negative.
pub open spec fn signed_text(n: int) -> Seq<char> {
    if n < 0 {
        seq!['-'] + decimal_text((-n) as nat)
    } else {
        decimal_text(n as nat)
    }
}

/// The decimal text of a signed number.
pub fn signed_decimal(n: i64) -> (r: String)
    ensures
        r@ == signed_text(n as int),
{
    if n < 0 {
        let magnitude: u64 = if n == i64::MIN {
            9223372036854775808u64
        } else {
            (-n) as u64
        };
        proof {
            reveal_strlit("-");
        }
        String::from_str("-").concat(decimal(magnitude).as_str())
    } else {
        decimal(n as u64)
    }
}

/// `dir` joined with the file name `name`, as a path join does it.
pub open spec fn joined(dir: Seq<char>, name: Seq<char>) -> Seq<char> {
    if dir.len() == 0 {
        name
    } else if dir.last() == '/' {
        dir + name
    } else {
        dir + seq!['/'] + name
    }
}

/// Joins a directory and a file name.
pub fn join_path(dir: &str, name: &str) -> (r: String)
    ensures
        r@ == joined(dir@, name@),
{
    let n = dir.unicode_len();
    if n == 0 {
        name.to_owned()
    } else if dir.get_char(n - 1) == '/' {
        dir.to_owned().concat(name)
    } else {
        proof {
            reveal_strlit("/");
        }
        dir.to_owned().concat("/").concat(name)
    }
}

/// The runtime directory: `$XDG_RUNTIME_DIR` when set, else
/// `/tmp/xdg-runtime-<uid>`.
pub fn runtime_dir(xdg_runtime_dir: Option<String>, uid: u32) -> (r: String)
    ensures
        r@ == match xdg_runtime_dir {
            Some(d) => d@,
            None => "/tmp/xdg-runtime-"@ + decimal_text(uid as nat),
        },
{
    match xdg_runtime_dir {
        Some(d) => d,
        None => String::from_str("/tmp/xdg-runtime-").concat(decimal(uid as u64).as_str()),
    }
}

/// The socket of the session protocol, in the runtime directory.
pub fn socket_path(runtime_dir: &str) -> (r: String)
    ensures
        r@ == joined(runtime_dir@, "heats.sock"@),
{
    join_path(runtime_dir, "heats.sock")
}

/// The PID file of the daemon, in the runtime directory.
pub fn pid_path(runtime_dir: &str) -> (r: String)
    ensures
        r@ == joined(runtime_dir@, "heats.pid"@),
{
    join_path(runtime_dir, "heats.pid")
}

/// The value of a run of decimal digits.
pub open spec fn digits_value(s: Seq<char>) -> int
    decreases s.len(),
{
    if s.len() == 0 {
        0
    } else {
        digits_value(s.drop_last()) * 10 + (s.last() as int - '0' as int)
    }
}

pub open spec fn all_digits(s: Seq<char>) -> bool {
    forall|i: int| 0 <= i < s.len() ==> '0' <= #[trigger] s[i] && s[i] <= '9'
}

/// The number that a PID file's text holds: after trimming white space, an
/// optional `+` and at least one decimal digit, at most `u32::MAX`.
pub open spec fn pid_of(text: Seq<char>) -> Option<u32> {
    let t = crate::ipc::trim_of(text);
    let d = if t.len() > 0 && t[0] == '+' {
        t.subrange(1, t.len() as int)
    } else {
        t
    };
    if d.len() > 0 && all_digits(d) && digits_value(d) <= u32::MAX {
        Some(digits_value(d) as u32)
    } else {
        None
    }
}

proof fn lemma_digits_value_nonneg(s: Seq<char>)
    requires
        all_digits(s),
    ensures
        digits_value(s) >= 0,
    decreases s.len(),
{
    if s.len() > 0 {
        lemma_digits_value_nonneg(s.drop_last());
    }
}

/// Reads the PID that a PID file holds.
pub fn parse_pid(text: &str) -> (r: Option<u32>)
    ensures
        r == pid_of(text@),
{
    let t = crate::ipc::trim_text(text);
    let n = t.unicode_len();
    let start: usize = if n > 0 && t.get_char(0) == '+' {
        1
    } else {
        0
    };
    let ghost d = t@.subrange(start as int, n as int);
    assert(d =~= (if t@.len() > 0 && t@[0] == '+' {
        t@.subrange(1, t@.len() as int)
    } else {
        t@
    }));
    if start >= n {
        assert(d.len() == 0);
        return None;
    }
    let mut value: u64 = 0;
    let mut i: usize = start;
    while i < n
        invariant
            start <= i <= n,
            n == t@.len(),
            d == (if t@.len() > 0 && t@[0] == '+' {
                t@.subrange(1, t@.len() as int)
            } else {
                t@
            }),
            t@ == crate::ipc::trim_of(text@),
            start == (if n > 0 && t@[0] == '+' {
                1usize
            } else {
                0usize
            }),
            d == t@.subrange(start as int, n as int),
            all_digits(t@.subrange(start as int, i as int)),
            value as int == digits_value(t@.subrange(start as int, i as int)),
            value <= u32::MAX,
        decreases n - i,
    {
        let c = t.get_char(i);
        if c < '0' || c > '9' {
            assert(d[i - start] == c);
            assert(!all_digits(d));
            return None;
        }
        let digit = (c as u32 - '0' as u32) as u64;
        let next = value * 10 + digit;
        assert(t@.subrange(start as int, i + 1).drop_last() =~= t@.subrange(start as int, i as int));
        assert(all_digits(t@.subrange(start as int, i + 1)));
        if next > u32::MAX as u64 {
            proof {
                let p = t@.subrange(start as int, i + 1);
                let rest = t@.subrange(i + 1, n as int);
                assert(d =~= p + rest);
                lemma_digits_prefix_bound(p, rest);
                assert(digits_value(p) == next);
            }
            return None;
        }
        value = next;
        i = i + 1;
    }
    assert(t@.subrange(start as int, i as int) =~= d);
    Some(value as u32)
}

/// The value of digits with more digits after them is at least that of the prefix.
proof fn lemma_digits_prefix_bound(p: Seq<char>, rest: Seq<char>)
    requires
        all_digits(p),
    ensures
        all_digits(p + rest) ==> digits_value(p + rest) >= digits_value(p),
    decreases rest.len(),
{
    if rest.len() > 0 && all_digits(p + rest) {
        let q = p + rest.drop_last();
        assert((p + rest).drop_last() =~= q);
        assert(all_digits(q)) by {
            assert forall|i: int| 0 <= i < q.len() implies '0' <= #[trigger] q[i] && q[i] <= '9' by {
                assert(q[i] == (p + rest)[i]);
            }
        }
        lemma_digits_prefix_bound(p, rest.drop_last());
        lemma_digits_value_nonneg(q);
        let last = (p + rest).last();
        assert('0' <= last && last <= '9');
        assert(digits_value(p + rest) == digits_value(q) * 10 + (last as int - '0' as int));
    }
}

/// Where a bundle keeps the icon file named in its property list: under
/// `Contents/Resources`, with `.icns` added when the name lacks it.
pub open spec fn icns_path_of(app: Seq<char>, icon_file: Seq<char>) -> Seq<char> {
    let file = if icon_file.len() >= 5 && icon_file.subrange(icon_file.len() - 5, icon_file.len() as int)
        == ".icns"@ {
        icon_file
    } else {
        icon_file + ".icns"@
    };
    joined(joined(app, "Contents/Resources"@), file)
}

/// The path of a bundle's icon file.
pub fn icns_path(app_path: &str, icon_file: &str) -> (r: String)
    ensures
        r@ == icns_path_of(app_path@, icon_file@),
{
    let n = icon_file.unicode_len();
    let has_suffix = n >= 5 && crate::json::str_eq(icon_file.substring_char(n - 5, n), ".icns");
    let file = if has_suffix {
        icon_file.to_owned()
    } else {
        icon_file.to_owned().concat(".icns")
    };
    let resources = join_path(app_path, "Contents/Resources");
    join_path(resources.as_str(), file.as_str())
}

} // verus!
