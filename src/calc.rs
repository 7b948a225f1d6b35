//! The calculator evaluator's rewriting of a query before evaluation.
use vstd::prelude::*;

use crate::json::{json_text, render_json, str_eq, JsonValue};

verus! {

pub open spec fn is_digit(c: char) -> bool {
    '0' <= c && c <= '9'
}

/// The end of the run of digits that starts at `i`.
pub open spec fn digits_end(s: Seq<char>, i: int) -> int
    decreases s.len() - i,
{
    if i < 0 || i >= s.len() || !is_digit(s[i]) {
        i
    } else {
        digits_end(s, i + 1)
    }
}

/// `s` from position `i` on, with each integer literal made a float literal:
/// a run of digits not followed by `.` and a digit gets `.0` appended; a
/// literal that already has a fraction, and every other character, stays.
pub open spec fn floats_from(s: Seq<char>, i: int) -> Seq<char>
    decreases s.len() - i,
{
    if i < 0 || i >= s.len() {
        Seq::empty()
    } else if is_digit(s[i]) {
        let j = digits_end(s, i);
        if j <= i || j > s.len() {
            Seq::empty()
        } else if j + 1 < s.len() && s[j] == '.' && is_digit(s[j + 1]) {
            let k = digits_end(s, j + 1);
            if k <= j + 1 || k > s.len() {
                Seq::empty()
            } else {
                s.subrange(i, k) + floats_from(s, k)
            }
        } else {
            s.subrange(i, j) + seq!['.', '0'] + floats_from(s, j)
        }
    } else {
        seq![s[i]] + floats_from(s, i + 1)
    }
}

proof fn lemma_digits_end(s: Seq<char>, i: int)
    requires
        0 <= i <= s.len(),
    ensures
        i <= digits_end(s, i) <= s.len(),
        i < s.len() && is_digit(s[i]) ==> i < digits_end(s, i),
    decreases s.len() - i,
{
    if i < s.len() && is_digit(s[i]) {
        lemma_digits_end(s, i + 1);
    }
}

fn is_digit_char(c: char) -> (r: bool)
    ensures
        r == is_digit(c),
{
    '0' <= c && c <= '9'
}

/// The end of the run of digits of `s` that starts at `i`.
fn scan_digits(s: &str, n: usize, i: usize) -> (r: usize)
    requires
        n == s@.len(),
        i <= n,
    ensures
        r == digits_end(s@, i as int),
{
    let mut j: usize = i;
    while j < n && is_digit_char(s.get_char(j))
        invariant
            n == s@.len(),
            i <= j <= n,
            digits_end(s@, i as int) == digits_end(s@, j as int),
        decreases n - j,
    {
        j = j + 1;
    }
    j
}

/// Makes every integer literal of an expression a float literal (`1/3`
/// becomes `1.0/3.0`), so that division is not integer division.
pub fn intlit_to_float(expr: &str) -> (r: String)
    ensures
        r@ == floats_from(expr@, 0),
{
    let n = expr.unicode_len();
    let mut out = String::new();
    let mut i: usize = 0;
    proof {
        reveal_strlit(".0");
    }
    while i < n
        invariant
            n == expr@.len(),
            i <= n,
            ".0"@ == seq!['.', '0'],
            floats_from(expr@, 0) == out@ + floats_from(expr@, i as int),
        decreases n - i,
    {
        let ghost s = expr@;
        let ghost before = out@;
        if is_digit_char(expr.get_char(i)) {
            let j = scan_digits(expr, n, i);
            proof {
                lemma_digits_end(s, i as int);
            }
            if j < n && j + 1 < n && expr.get_char(j) == '.' && is_digit_char(expr.get_char(j + 1)) {
                let k = scan_digits(expr, n, j + 1);
                proof {
                    lemma_digits_end(s, j + 1);
                }
                out.append(expr.substring_char(i, k));
                assert(before + (s.subrange(i as int, k as int) + floats_from(s, k as int)) =~= out@
                    + floats_from(s, k as int));
                i = k;
            } else {
                out.append(expr.substring_char(i, j));
                out.append(".0");
                assert(before + (s.subrange(i as int, j as int) + seq!['.', '0'] + floats_from(
                    s,
                    j as int,
                )) =~= out@ + floats_from(s, j as int));
                i = j;
            }
        } else {
            out.append(expr.substring_char(i, i + 1));
            assert(s.subrange(i as int, i + 1) =~= seq![s[i as int]]);
            assert(before + (seq![s[i as int]] + floats_from(s, i + 1)) =~= out@ + floats_from(
                s,
                i + 1,
            ));
            i = i + 1;
        }
    }
    assert(out@ + floats_from(expr@, i as int) =~= out@);
    out
}

/// The members of the menu item of a calculator result `formatted`.
pub open spec fn result_object(formatted: Seq<char>, fields: Seq<(String, JsonValue)>) -> bool {
    &&& fields.len() == 3
    &&& fields[0].0@ == "title"@ && fields[0].1 == JsonValue::Str(fields[0].1->Str_0)
        && fields[0].1->Str_0@ == "= "@ + formatted
    &&& fields[1].0@ == "subtitle"@ && fields[1].1 == JsonValue::Str(fields[1].1->Str_0)
        && fields[1].1->Str_0@ == "Copy to clipboard"@
    &&& fields[2].0@ == "data"@ && fields[2].1 == JsonValue::Str(fields[2].1->Str_0)
        && fields[2].1->Str_0@ == formatted
}

/// The menu item of the calculator for `query` whose value prints as
/// `formatted`: none when the value reads the same as the query.
pub fn calc_result_item(query: &str, formatted: &str) -> (r: Option<JsonValue>)
    ensures
        r is None <==> query@ == formatted@,
        r matches Some(v) ==> v is Object && result_object(formatted@, v->Object_0@),
{
    if str_eq(query, formatted) {
        return None;
    }
    let mut fields: Vec<(String, JsonValue)> = Vec::new();
    fields.push((String::from_str("title"), JsonValue::Str(String::from_str("= ").concat(formatted))));
    fields.push((String::from_str("subtitle"), JsonValue::Str(String::from_str("Copy to clipboard"))));
    fields.push((String::from_str("data"), JsonValue::Str(formatted.to_owned())));
    Some(JsonValue::Object(fields))
}

/// The output line of the calculator: the JSON text of its menu item.
pub fn calc_result_line(query: &str, formatted: &str) -> (r: Option<String>)
    ensures
        r is None <==> query@ == formatted@,
        r matches Some(line) ==> exists|v: JsonValue|
            v is Object && result_object(formatted@, v->Object_0@) && line@ == json_text(v),
{
    match calc_result_item(query, formatted) {
        Some(v) => Some(render_json(&v)),
        None => None,
    }
}

} // verus!
