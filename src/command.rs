//! What the command runner decides: which lines of a source's output become
//! items, which items a load yields, and how a source, evaluator or action
//! command is invoked.
use vstd::prelude::*;

use crate::config::{EvaluatorConfig, InputMode, ProviderConfig};
use crate::ipc::item_positions;
use crate::source::{field_value, line_item, DmenuItem, IconData, SourceItem};

verus! {

/// A loaded item with what is needed to run its action.
#[derive(Debug)]
pub struct LoadedItem {
    /// The item as displayed.
    pub item: SourceItem,
    /// The provider or evaluator that produced the item.
    pub provider_name: String,
    /// The item as its source wrote it, for the action's field.
    pub dmenu_item: DmenuItem,
}

impl LoadedItem {
    /// A copy equal to `self`.
    pub fn duplicate(&self) -> (r: LoadedItem)
        ensures
            r == *self,
    {
        LoadedItem {
            item: self.item.duplicate(),
            provider_name: self.provider_name.clone(),
            dmenu_item: self.dmenu_item.duplicate(),
        }
    }
}

/// A process to start: the program, its arguments, and what to write to its
/// standard input (nothing: standard input is closed).
#[derive(Debug)]
pub struct Invocation {
    pub program: String,
    pub args: Vec<String>,
    pub stdin: Option<String>,
}

/// The views of a list of strings.
pub open spec fn texts(v: Seq<String>) -> Seq<Seq<char>> {
    v.map_values(|s: String| s@)
}

/// Copies a list of strings, from position `from` on.
pub fn copy_strings_from(v: &Vec<String>, from: usize) -> (r: Vec<String>)
    requires
        from <= v@.len(),
    ensures
        r@ == v@.subrange(from as int, v@.len() as int),
{
    let mut out: Vec<String> = Vec::new();
    let mut i: usize = from;
    while i < v.len()
        invariant
            from <= i <= v@.len(),
            out@ == v@.subrange(from as int, i as int),
        decreases v.len() - i,
    {
        out.push(v[i].clone());
        i = i + 1;
        assert(out@ =~= v@.subrange(from as int, i as int));
    }
    out
}

/// The items of a source's output, one JSON object per line; lines that are
/// not items are skipped.
pub fn parse_output(lines: &Vec<String>) -> (r: Vec<DmenuItem>)
    ensures
        r@.len() == item_positions(texts(lines@)).len(),
        forall|i: int|
            0 <= i < r@.len() ==> line_item(
                texts(lines@)[#[trigger] item_positions(texts(lines@))[i]],
                r@[i],
            ),
{
    let ghost all = texts(lines@);
    let mut out: Vec<DmenuItem> = Vec::new();
    let mut j: usize = 0;
    while j < lines.len()
        invariant
            j <= lines@.len(),
            all == texts(lines@),
            out@.len() == item_positions(all.subrange(0, j as int)).len(),
            forall|t: int|
                0 <= t < out@.len() ==> line_item(
                    all[#[trigger] item_positions(all.subrange(0, j as int))[t]],
                    out@[t],
                ),
            forall|t: int|
                0 <= t < item_positions(all.subrange(0, j as int)).len() ==> 0 <= #[trigger] item_positions(
                    all.subrange(0, j as int),
                )[t] < j,
        decreases lines.len() - j,
    {
        let ghost prev = item_positions(all.subrange(0, j as int));
        assert(all.subrange(0, j + 1).drop_last() =~= all.subrange(0, j as int));
        assert(all.subrange(0, j + 1).last() == lines@[j as int]@);
        match DmenuItem::parse_line(lines[j].as_str()) {
            Some(di) => {
                out.push(di);
            },
            None => {},
        }
        j = j + 1;
        assert forall|t: int|
            0 <= t < item_positions(all.subrange(0, j as int)).len() implies 0
                <= #[trigger] item_positions(all.subrange(0, j as int))[t] < j by {
            if t < prev.len() {
                assert(item_positions(all.subrange(0, j as int))[t] == prev[t]);
            }
        }
        assert forall|t: int| 0 <= t < out@.len() implies line_item(
            all[#[trigger] item_positions(all.subrange(0, j as int))[t]],
            out@[t],
        ) by {
            if t < prev.len() {
                assert(item_positions(all.subrange(0, j as int))[t] == prev[t]);
            }
        }
    }
    assert(all.subrange(0, j as int) =~= all);
    out
}

/// `li` is the loaded form of menu item `d` from `provider`, shown under
/// `source_name` with `icon`.
pub open spec fn loaded_from(
    li: LoadedItem,
    d: DmenuItem,
    provider: Seq<char>,
    source_name: Seq<char>,
    icon: Option<IconData>,
) -> bool {
    &&& li.dmenu_item == d
    &&& li.provider_name@ == provider
    &&& li.item.id is None
    &&& li.item.title == d.title
    &&& li.item.subtitle == d.subtitle
    &&& li.item.exec_path@ == field_value(d, "data"@)
    &&& li.item.source_name@ == source_name
    &&& li.item.icon == icon
}

fn loaded(d: DmenuItem, provider: &str, source_name: &str, icon: Option<IconData>) -> (r:
    LoadedItem)
    ensures
        loaded_from(r, d, provider@, source_name@, icon),
{
    let exec = d.get_field("data");
    let title = d.title.clone();
    let subtitle = crate::source::copy_opt_string(&d.subtitle);
    LoadedItem {
        item: SourceItem {
            id: None,
            title,
            subtitle,
            exec_path: exec,
            source_name: source_name.to_owned(),
            icon,
        },
        provider_name: provider.to_owned(),
        dmenu_item: d,
    }
}

/// The loaded items of one provider's output, in order, each with its icon.
pub fn provider_items(provider_name: &str, items: Vec<(DmenuItem, Option<IconData>)>) -> (r: Vec<
    LoadedItem,
>)
    ensures
        r@.len() == items@.len(),
        forall|i: int|
            0 <= i < r@.len() ==> loaded_from(
                #[trigger] r@[i],
                items@[i].0,
                provider_name@,
                provider_name@,
                items@[i].1,
            ),
{
    load_all(provider_name, provider_name, items)
}

fn load_all(provider_name: &str, source_name: &str, items: Vec<(DmenuItem, Option<IconData>)>) -> (r:
    Vec<LoadedItem>)
    ensures
        r@.len() == items@.len(),
        forall|i: int|
            0 <= i < r@.len() ==> loaded_from(
                #[trigger] r@[i],
                items@[i].0,
                provider_name@,
                source_name@,
                items@[i].1,
            ),
{
    let ghost orig = items@;
    let mut rest = items;
    let mut rev: Vec<LoadedItem> = Vec::new();
    while rest.len() > 0
        invariant
            rest@.len() + rev@.len() == orig.len(),
            rest@ == orig.subrange(0, rest@.len() as int),
            forall|t: int|
                0 <= t < rev@.len() ==> loaded_from(
                    #[trigger] rev@[t],
                    orig[orig.len() - 1 - t].0,
                    provider_name@,
                    source_name@,
                    orig[orig.len() - 1 - t].1,
                ),
        decreases rest@.len(),
    {
        let ghost n = rest@.len() as int;
        match rest.pop() {
            Some((d, icon)) => {
                assert(orig[n - 1] == (d, icon));
                let li = loaded(d, provider_name, source_name, icon);
                rev.push(li);
            },
            None => {},
        }
        assert(rest@ =~= orig.subrange(0, rest@.len() as int));
    }
    let mut out: Vec<LoadedItem> = Vec::new();
    while rev.len() > 0
        invariant
            rev@.len() + out@.len() == orig.len(),
            forall|t: int|
                0 <= t < rev@.len() ==> loaded_from(
                    #[trigger] rev@[t],
                    orig[orig.len() - 1 - t].0,
                    provider_name@,
                    source_name@,
                    orig[orig.len() - 1 - t].1,
                ),
            forall|t: int|
                0 <= t < out@.len() ==> loaded_from(
                    #[trigger] out@[t],
                    orig[t].0,
                    provider_name@,
                    source_name@,
                    orig[t].1,
                ),
        decreases rev@.len(),
    {
        let ghost n = rev@.len() as int;
        match rev.pop() {
            Some(li) => {
                out.push(li);
            },
            None => {},
        }
    }
    out
}

/// The menu items of an evaluator's output, none with an icon.
fn without_icons(items: Vec<DmenuItem>) -> (r: Vec<(DmenuItem, Option<IconData>)>)
    ensures
        r@.len() == items@.len(),
        forall|i: int| 0 <= i < r@.len() ==> (#[trigger] r@[i]) == (items@[i], None::<IconData>),
{
    let ghost orig = items@;
    let mut rest = items;
    let mut rev: Vec<DmenuItem> = Vec::new();
    while rest.len() > 0
        invariant
            rest@.len() + rev@.len() == orig.len(),
            rest@ == orig.subrange(0, rest@.len() as int),
            forall|t: int| 0 <= t < rev@.len() ==> #[trigger] rev@[t] == orig[orig.len() - 1 - t],
        decreases rest@.len(),
    {
        let ghost n = rest@.len() as int;
        match rest.pop() {
            Some(d) => {
                rev.push(d);
            },
            None => {},
        }
        assert(rest@ =~= orig.subrange(0, rest@.len() as int));
    }
    let mut out: Vec<(DmenuItem, Option<IconData>)> = Vec::new();
    while rev.len() > 0
        invariant
            rev@.len() + out@.len() == orig.len(),
            forall|t: int| 0 <= t < rev@.len() ==> #[trigger] rev@[t] == orig[orig.len() - 1 - t],
            forall|t: int| 0 <= t < out@.len() ==> #[trigger] out@[t] == (orig[t], None::<IconData>),
        decreases rev@.len(),
    {
        match rev.pop() {
            Some(d) => {
                out.push((d, None));
            },
            None => {},
        }
    }
    out
}

/// The loaded items of one evaluator's output, in order, shown under
/// `eval:<name>`.
pub fn evaluator_items(eval_name: &str, items: Vec<DmenuItem>) -> (r: Vec<LoadedItem>)
    ensures
        r@.len() == items@.len(),
        forall|i: int|
            0 <= i < r@.len() ==> loaded_from(
                #[trigger] r@[i],
                items@[i],
                eval_name@,
                "eval:"@ + eval_name@,
                None,
            ),
{
    let pairs = without_icons(items);
    let source_name = String::from_str("eval:").concat(eval_name);
    load_all(eval_name, source_name.as_str(), pairs)
}

/// The process that a command line starts: its first word is the program,
/// then its arguments, then `extra` where given; nothing for an empty line.
pub open spec fn invocation_of(
    inv: Invocation,
    cmd: Seq<String>,
    extra: Option<Seq<char>>,
    stdin: Option<Seq<char>>,
) -> bool {
    &&& cmd.len() > 0
    &&& inv.program == cmd[0]
    &&& texts(inv.args@) == match extra {
        Some(x) => texts(cmd.subrange(1, cmd.len() as int)).push(x),
        None => texts(cmd.subrange(1, cmd.len() as int)),
    }
    &&& match inv.stdin {
        Some(s) => stdin == Some(s@),
        None => stdin is None,
    }
}

fn invoke(cmd: &Vec<String>, extra: Option<String>, stdin: Option<String>) -> (r: Option<
    Invocation,
>)
    ensures
        r is None <==> cmd@.len() == 0,
        r matches Some(inv) ==> invocation_of(
            inv,
            cmd@,
            match extra {
                Some(x) => Some(x@),
                None => None,
            },
            match stdin {
                Some(x) => Some(x@),
                None => None,
            },
        ),
{
    if cmd.len() == 0 {
        return None;
    }
    let mut args = copy_strings_from(cmd, 1);
    let ghost before = args@;
    match extra {
        Some(x) => {
            args.push(x);
            assert(texts(args@) =~= texts(before).push(args@.last()@));
        },
        None => {},
    }
    Some(Invocation { program: cmd[0].clone(), args, stdin })
}

/// How a source command is started: its own arguments, standard input closed.
pub fn source_invocation(source: &Vec<String>) -> (r: Option<Invocation>)
    ensures
        r is None <==> source@.len() == 0,
        r matches Some(inv) ==> invocation_of(inv, source@, None, None),
{
    invoke(source, None, None)
}

/// How an evaluator's source is started for `query`: with the query as last
/// argument, or with the query and a newline on standard input.
pub fn evaluator_invocation(config: &EvaluatorConfig, query: &str) -> (r: Option<Invocation>)
    ensures
        r is None <==> config.source@.len() == 0,
        r matches Some(inv) ==> match config.input {
            InputMode::Arg => invocation_of(inv, config.source@, Some(query@), None),
            InputMode::Stdin => invocation_of(inv, config.source@, None, Some(query@ + "\n"@)),
        },
{
    match config.input {
        InputMode::Arg => invoke(&config.source, Some(query.to_owned()), None),
        InputMode::Stdin => invoke(&config.source, None, Some(query.to_owned().concat("\n"))),
    }
}

/// How an action receives a field value: as last argument, or on standard input.
pub fn action_invocation(action: &Vec<String>, mode: InputMode, value: String) -> (r: Option<
    Invocation,
>)
    ensures
        r is None <==> action@.len() == 0,
        r matches Some(inv) ==> match mode {
            InputMode::Arg => invocation_of(inv, action@, Some(value@), None),
            InputMode::Stdin => invocation_of(inv, action@, None, Some(value@)),
        },
{
    match mode {
        InputMode::Arg => invoke(action, Some(value), None),
        InputMode::Stdin => invoke(action, None, Some(value)),
    }
}

/// The action of a provider's item: the provider's action command with the
/// item's configured field as last argument.
pub fn execute_action(provider: &ProviderConfig, dmenu_item: &DmenuItem) -> (r: Option<Invocation>)
    ensures
        r is None <==> provider.action@.len() == 0,
        r matches Some(inv) ==> provider_action_of(inv, *provider, *dmenu_item),
{
    let value = dmenu_item.get_field(provider.field.as_str());
    action_invocation(&provider.action, InputMode::Arg, value)
}

/// `inv` runs the action of evaluator `config` on `item`.
pub open spec fn evaluator_action_of(inv: Invocation, config: EvaluatorConfig, item: DmenuItem) -> bool {
    match config.action_input {
        InputMode::Arg => invocation_of(inv, config.action@, Some(field_value(item, config.field@)), None),
        InputMode::Stdin => invocation_of(inv, config.action@, None, Some(field_value(item, config.field@))),
    }
}

/// `inv` runs the action of `provider` on `item`.
pub open spec fn provider_action_of(inv: Invocation, provider: ProviderConfig, item: DmenuItem) -> bool {
    invocation_of(inv, provider.action@, Some(field_value(item, provider.field@)), None)
}

/// The action of an evaluator's item: the evaluator's action command with the
/// item's configured field, passed as the evaluator's action input says.
pub fn run_action(config: &EvaluatorConfig, dmenu_item: &DmenuItem) -> (r: Option<Invocation>)
    ensures
        r is None <==> config.action@.len() == 0,
        r matches Some(inv) ==> evaluator_action_of(inv, *config, *dmenu_item),
{
    let value = dmenu_item.get_field(config.field.as_str());
    action_invocation(&config.action, config.action_input, value)
}

} // verus!
