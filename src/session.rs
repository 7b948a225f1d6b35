//! The session coordinator: what is shown, which session owns the surface,
//! and what the daemon must do next. Each event handler changes the state and
//! returns the actions to perform; the caller performs them and reports back.
use vstd::prelude::*;

use crate::cache::{stale, SourceCache};
use crate::command::{
    evaluator_action_of, execute_action, provider_action_of, run_action, Invocation, LoadedItem,
};
use crate::config::Settings;
use crate::matcher::Matcher;
use crate::source::SourceItem;

verus! {

/// How many ranked results are shown for a non-empty query.
pub const MAX_RESULTS: usize = 50;

/// Something the daemon must do.
#[derive(Debug)]
pub enum Action {
    /// Load the sources of these providers, then report with `on_items_loaded`.
    LoadProviders(Vec<String>),
    /// Reload one provider for the cache, then report with `on_cache_updated`.
    RefreshCache(String),
    /// After the quiescence delay, run these evaluators on `query`, then report
    /// with `on_eval_results` and the same generation.
    RunEvaluators { generation: u64, query: String, evaluators: Vec<String> },
    /// Answer external session `ticket`: the selected item's id, or nothing
    /// for a cancellation.
    Reply { ticket: u64, selection: Option<usize> },
    /// Start this action process, detached.
    Run(Invocation),
    /// Show the selection surface.
    Show,
    /// Hide the selection surface.
    Hide,
}

/// The sessions answered by a list of actions, in order.
pub open spec fn reply_tickets(acts: Seq<Action>) -> Seq<u64>
    decreases acts.len(),
{
    if acts.len() == 0 {
        Seq::empty()
    } else {
        let rest = reply_tickets(acts.drop_last());
        match acts.last() {
            Action::Reply { ticket, .. } => rest.push(ticket),
            _ => rest,
        }
    }
}

/// How one step treats the external session: `pre` and `post` are the
/// sessions awaiting a reply before and after, `started` the session the step
/// opened. A step that opens a session answers the one it pre-empts; any
/// other step keeps the waiting session or answers it once as it closes it.
pub open spec fn reply_rule(
    pre: Option<u64>,
    post: Option<u64>,
    started: Option<u64>,
    acts: Seq<Action>,
) -> bool {
    match started {
        None => {
            &&& (post == pre || post is None)
            &&& reply_tickets(acts) == if pre is Some && post is None {
                seq![pre->0]
            } else {
                Seq::<u64>::empty()
            }
        },
        Some(t) => {
            &&& post == Some(t)
            &&& reply_tickets(acts) == if pre is Some {
                seq![pre->0]
            } else {
                Seq::<u64>::empty()
            }
        },
    }
}

/// The names among `names` that `c` has no entry for, in order.
pub open spec fn uncached(names: Seq<String>, c: Map<Seq<char>, (Seq<LoadedItem>, u64)>) -> Seq<
    Seq<char>,
>
    decreases names.len(),
{
    if names.len() == 0 {
        Seq::empty()
    } else {
        let rest = uncached(names.drop_last(), c);
        if c.contains_key(names.last()@) {
            rest
        } else {
            rest.push(names.last()@)
        }
    }
}

/// The cached items of the names among `names` that `c` has, in order.
pub open spec fn cached_items(names: Seq<String>, c: Map<Seq<char>, (Seq<LoadedItem>, u64)>) -> Seq<
    LoadedItem,
>
    decreases names.len(),
{
    if names.len() == 0 {
        Seq::empty()
    } else {
        let rest = cached_items(names.drop_last(), c);
        if c.contains_key(names.last()@) {
            rest + c[names.last()@].0
        } else {
            rest
        }
    }
}

/// Evaluator results as applied: a result is taken only when its generation
/// is the current one; after a session ends no generation is current.
pub open spec fn apply_eval(
    current: Option<u64>,
    shown: Seq<LoadedItem>,
    generation: u64,
    items: Seq<LoadedItem>,
) -> Seq<LoadedItem> {
    if current == Some(generation) {
        items
    } else {
        shown
    }
}

/// The issue counter after a query change: one more, unless it is exhausted.
pub open spec fn next_issue(issued: u64) -> u64 {
    if issued < u64::MAX {
        (issued + 1) as u64
    } else {
        issued
    }
}

/// An interval in seconds as milliseconds, capped at the largest `u64`.
pub open spec fn interval_ms(seconds: u64) -> int {
    if seconds * 1000 > u64::MAX {
        u64::MAX as int
    } else {
        seconds * 1000
    }
}

/// The providers whose cache is stale at `now`, in the order of the settings.
pub open spec fn stale_providers(
    ps: Seq<(String, crate::config::ProviderConfig)>,
    c: Map<Seq<char>, (Seq<LoadedItem>, u64)>,
    now: u64,
) -> Seq<Seq<char>>
    decreases ps.len(),
{
    if ps.len() == 0 {
        Seq::empty()
    } else {
        let rest = stale_providers(ps.drop_last(), c, now);
        match ps.last().1.cache_interval {
            Some(s) => if stale(c, ps.last().0@, interval_ms(s) as u64, now) {
                rest.push(ps.last().0@)
            } else {
                rest
            },
            None => rest,
        }
    }
}

/// The providers that keep a cache, in the order of the settings.
pub open spec fn cached_providers(ps: Seq<(String, crate::config::ProviderConfig)>) -> Seq<Seq<char>>
    decreases ps.len(),
{
    if ps.len() == 0 {
        Seq::empty()
    } else {
        let rest = cached_providers(ps.drop_last());
        if ps.last().1.cache_interval is Some {
            rest.push(ps.last().0@)
        } else {
            rest
        }
    }
}

/// The names that a list of refresh actions asks for.
pub open spec fn refresh_names(acts: Seq<Action>) -> Seq<Seq<char>>
    decreases acts.len(),
{
    if acts.len() == 0 {
        Seq::empty()
    } else {
        let rest = refresh_names(acts.drop_last());
        match acts.last() {
            Action::RefreshCache(n) => rest.push(n@),
            _ => rest,
        }
    }
}

/// The actions of showing a mode: a load of exactly the providers `missing`
/// (when there are any), then showing the surface.
pub open spec fn load_then_show(acts: Seq<Action>, missing: Seq<Seq<char>>) -> bool {
    if missing.len() > 0 {
        &&& acts.len() == 2
        &&& acts[0] is LoadProviders
        &&& crate::command::texts(acts[0]->LoadProviders_0@) == missing
        &&& acts[1] is Show
    } else {
        acts.len() == 1 && acts[0] is Show
    }
}

/// An activation of a mode by its trigger.
#[derive(Debug)]
pub struct HotkeyMessage {
    pub mode_name: String,
}

/// The state of the selection surface and of the sessions on it.
pub struct Coordinator {
    settings: Settings,
    cache: SourceCache,
    matcher: Matcher,
    visible: bool,
    pending: Option<u64>,
    all_items: Vec<SourceItem>,
    loaded_items: Vec<LoadedItem>,
    results: Vec<usize>,
    query: String,
    selected: usize,
    eval_items: Vec<LoadedItem>,
    issued: u64,
    generation: Option<u64>,
    active_evaluators: Vec<String>,
}

proof fn lemma_reply_push(acts: Seq<Action>, a: Action)
    ensures
        reply_tickets(acts.push(a)) == match a {
            Action::Reply { ticket, .. } => reply_tickets(acts).push(ticket),
            _ => reply_tickets(acts),
        },
        refresh_names(acts.push(a)) == match a {
            Action::RefreshCache(n) => refresh_names(acts).push(n@),
            _ => refresh_names(acts),
        },
{
    assert(acts.push(a).drop_last() =~= acts);
}

/// The titles of a list of items.
fn titles_of(items: &Vec<SourceItem>) -> (r: Vec<String>)
    ensures
        r@.len() == items@.len(),
{
    let mut out: Vec<String> = Vec::new();
    let mut i: usize = 0;
    while i < items.len()
        invariant
            i <= items@.len(),
            out@.len() == i,
        decreases items.len() - i,
    {
        out.push(items[i].title.clone());
        i = i + 1;
    }
    out
}

/// The positions `0 .. n`.
fn positions(n: usize) -> (r: Vec<usize>)
    ensures
        r@.len() == n,
        forall|i: int| 0 <= i < n ==> r@[i] == i,
{
    let mut out: Vec<usize> = Vec::new();
    let mut i: usize = 0;
    while i < n
        invariant
            i <= n,
            out@.len() == i,
            forall|j: int| 0 <= j < i ==> out@[j] == j,
        decreases n - i,
    {
        out.push(i);
        i = i + 1;
    }
    out
}

/// The displayed items of a list of loaded items.
fn project(loaded: &Vec<LoadedItem>) -> (r: Vec<SourceItem>)
    ensures
        r@.len() == loaded@.len(),
        forall|i: int| 0 <= i < r@.len() ==> r@[i] == loaded@[i].item,
{
    let mut out: Vec<SourceItem> = Vec::new();
    let mut i: usize = 0;
    while i < loaded.len()
        invariant
            i <= loaded@.len(),
            out@.len() == i,
            forall|j: int| 0 <= j < i ==> out@[j] == loaded@[j].item,
        decreases loaded.len() - i,
    {
        out.push(loaded[i].item.duplicate());
        i = i + 1;
    }
    out
}

/// Copies a list of loaded items.
fn copy_items(items: &Vec<LoadedItem>) -> (r: Vec<LoadedItem>)
    ensures
        r@ == items@,
{
    let mut out: Vec<LoadedItem> = Vec::new();
    let mut i: usize = 0;
    while i < items.len()
        invariant
            i <= items@.len(),
            out@ == items@.subrange(0, i as int),
        decreases items.len() - i,
    {
        out.push(items[i].duplicate());
        i = i + 1;
        assert(out@ =~= items@.subrange(0, i as int));
    }
    assert(items@.subrange(0, i as int) =~= items@);
    out
}

fn copy_names(v: &Vec<String>) -> (r: Vec<String>)
    ensures
        r@ == v@,
{
    let r = crate::command::copy_strings_from(v, 0);
    assert(v@.subrange(0, v@.len() as int) =~= v@);
    r
}

/// The action that a list of actions ends with, if it ends with one.
pub open spec fn final_run(acts: Seq<Action>) -> Option<Invocation> {
    if acts.len() > 0 && acts.last() is Run {
        Some(acts.last()->Run_0)
    } else {
        None
    }
}

/// The selection that a list of actions last answers `ticket` with, if any.
pub open spec fn reply_for(acts: Seq<Action>, ticket: u64) -> Option<Option<usize>>
    decreases acts.len(),
{
    if acts.len() == 0 {
        None
    } else {
        match acts.last() {
            Action::Reply { ticket: t, selection } => if t == ticket {
                Some(selection)
            } else {
                reply_for(acts.drop_last(), ticket)
            },
            _ => reply_for(acts.drop_last(), ticket),
        }
    }
}

proof fn lemma_reply_for_push(acts: Seq<Action>, a: Action, t: u64)
    ensures
        reply_for(acts.push(a), t) == match a {
            Action::Reply { ticket, selection } => if ticket == t {
                Some(selection)
            } else {
                reply_for(acts, t)
            },
            _ => reply_for(acts, t),
        },
{
    assert(acts.push(a).drop_last() =~= acts);
}

/// The answer to a pre-empted or dismissed session `t` among `acts`: a
/// cancellation, when the session was waiting.
pub open spec fn cancelled(pending: Option<u64>, acts: Seq<Action>) -> bool {
    pending matches Some(t) ==> reply_for(acts, t) == Some(None::<usize>)
}

impl Coordinator {
    /// The external session awaiting its reply.
    pub closed spec fn pending(&self) -> Option<u64> {
        self.pending
    }

    /// The background cache.
    pub closed spec fn cache(&self) -> Map<Seq<char>, (Seq<LoadedItem>, u64)> {
        self.cache@
    }

    /// The generation whose evaluator results are taken, if any.
    pub closed spec fn generation(&self) -> Option<u64> {
        self.generation
    }

    /// The number of generations issued so far; it never decreases.
    pub closed spec fn issued(&self) -> u64 {
        self.issued
    }

    /// The evaluator results shown above the provider results.
    pub closed spec fn eval_items(&self) -> Seq<LoadedItem> {
        self.eval_items@
    }

    /// The loaded provider items of the current internal session.
    pub closed spec fn loaded_items(&self) -> Seq<LoadedItem> {
        self.loaded_items@
    }

    /// The evaluators of the current mode.
    pub closed spec fn active_evaluators(&self) -> Seq<String> {
        self.active_evaluators@
    }

    /// Whether the selection surface is shown.
    pub closed spec fn visible(&self) -> bool {
        self.visible
    }

    /// The settings.
    pub closed spec fn settings(&self) -> Settings {
        self.settings
    }

    /// The current query.
    pub closed spec fn query(&self) -> Seq<char> {
        self.query@
    }

    /// All items of the session, in their order.
    pub closed spec fn items(&self) -> Seq<SourceItem> {
        self.all_items@
    }

    /// The positions (in `items()`) of the provider rows, in display order.
    pub closed spec fn result_rows(&self) -> Seq<usize> {
        self.results@
    }

    /// The selected row.
    pub closed spec fn selected_row(&self) -> int {
        self.selected as int
    }

    /// The number of evaluator rows, shown first.
    pub closed spec fn eval_count(&self) -> int {
        self.eval_items@.len() as int
    }

    /// The number of provider rows, shown after the evaluator rows.
    pub closed spec fn result_count(&self) -> int {
        self.results@.len() as int
    }

    /// The item of provider row `k`.
    pub closed spec fn row_item(&self, k: int) -> SourceItem {
        self.all_items@[self.results@[k] as int]
    }

    /// The loaded item of provider row `k` of an internal session.
    pub closed spec fn row_loaded(&self, k: int) -> LoadedItem {
        self.loaded_items@[self.results@[k] as int]
    }

    pub closed spec fn wf(&self) -> bool {
        &&& self.cache.wf()
        &&& self.matcher.item_count() == self.all_items@.len()
        &&& self.matcher.query() == self.query@
        &&& forall|i: int| 0 <= i < self.results@.len() ==> self.results@[i] < self.all_items@.len()
        &&& self.generation matches Some(g) ==> g == self.issued
        &&& self.pending is Some ==> {
            &&& self.visible
            &&& self.loaded_items@.len() == 0
            &&& self.eval_items@.len() == 0
            &&& self.active_evaluators@.len() == 0
        }
        &&& self.pending is None ==> {
            &&& self.all_items@.len() == self.loaded_items@.len()
            &&& forall|i: int| 0 <= i < self.all_items@.len() ==> self.all_items@[i] == self.loaded_items@[i].item
        }
    }

    /// At most one session is active, and a session waiting for its reply
    /// always has the surface: no reply slot outlives its session.
    pub proof fn lemma_waiting_session_is_shown(&self)
        requires
            self.wf(),
        ensures
            self.pending() is Some ==> self.visible(),
            self.pending() is Some ==> self.eval_count() == 0 && self.active_evaluators().len() == 0,
    {
    }

    /// A hidden, idle surface with an empty cache, and the loads that fill the
    /// cache of every provider that keeps one.
    pub fn new(settings: Settings) -> (r: (Coordinator, Vec<Action>))
        ensures
            r.0.wf(),
            r.0.pending() is None,
            !r.0.visible(),
            r.0.generation() is None,
            r.0.issued() == 0,
            r.0.cache() == Map::<Seq<char>, (Seq<LoadedItem>, u64)>::empty(),
            r.0.settings() == settings,
            r.1@.len() == refresh_names(r.1@).len(),
            refresh_names(r.1@) == cached_providers(settings.providers@),
    {
        let c = Coordinator {
            settings,
            cache: SourceCache::new(),
            matcher: Matcher::new(),
            visible: false,
            pending: None,
            all_items: Vec::new(),
            loaded_items: Vec::new(),
            results: Vec::new(),
            query: String::new(),
            selected: 0,
            eval_items: Vec::new(),
            issued: 0,
            generation: None,
            active_evaluators: Vec::new(),
        };
        assert(c.matcher.query() =~= c.query@);
        let mut acts: Vec<Action> = Vec::new();
        let mut i: usize = 0;
        while i < c.settings.providers.len()
            invariant
                i <= c.settings.providers@.len(),
                acts@.len() == refresh_names(acts@).len(),
                refresh_names(acts@) == cached_providers(c.settings.providers@.subrange(0, i as int)),
            decreases c.settings.providers.len() - i,
        {
            assert(c.settings.providers@.subrange(0, i + 1).drop_last() =~= c.settings.providers@.subrange(
                0,
                i as int,
            ));
            if c.settings.providers[i].1.cache_interval.is_some() {
                let a = Action::RefreshCache(c.settings.providers[i].0.clone());
                proof {
                    lemma_reply_push(acts@, a);
                }
                acts.push(a);
            }
            i = i + 1;
        }
        assert(c.settings.providers@.subrange(0, i as int) =~= c.settings.providers@);
        (c, acts)
    }

    /// The smallest cache interval among the providers, in seconds.
    pub fn min_cache_interval(&self) -> (r: Option<u64>)
        ensures
            r is None <==> forall|i: int|
                0 <= i < self.settings().providers@.len()
                    ==> (#[trigger] self.settings().providers@[i]).1.cache_interval is None,
            r matches Some(m) ==> {
                &&& exists|i: int|
                    0 <= i < self.settings().providers@.len()
                        && (#[trigger] self.settings().providers@[i]).1.cache_interval == Some(m)
                &&& forall|i: int|
                    0 <= i < self.settings().providers@.len() && (
                    #[trigger] self.settings().providers@[i]).1.cache_interval is Some
                        ==> m <= self.settings().providers@[i].1.cache_interval->0
            },
    {
        let mut best: Option<u64> = None;
        let mut i: usize = 0;
        while i < self.settings.providers.len()
            invariant
                i <= self.settings.providers@.len(),
                best is None <==> forall|j: int|
                    0 <= j < i ==> (#[trigger] self.settings.providers@[j]).1.cache_interval is None,
                best matches Some(m) ==> {
                    &&& exists|j: int|
                        0 <= j < i && (#[trigger] self.settings.providers@[j]).1.cache_interval == Some(
                            m,
                        )
                    &&& forall|j: int|
                        0 <= j < i && (#[trigger] self.settings.providers@[j]).1.cache_interval is Some
                            ==> m <= self.settings.providers@[j].1.cache_interval->0
                },
            decreases self.settings.providers.len() - i,
        {
            match self.settings.providers[i].1.cache_interval {
                Some(s) => {
                    match best {
                        Some(m) => {
                            if s < m {
                                best = Some(s);
                            }
                        },
                        None => {
                            best = Some(s);
                        },
                    }
                },
                None => {},
            }
            i = i + 1;
        }
        best
    }

    /// Answers a waiting external session with `selection`, if one is waiting.
    fn answer_dmenu_session(&mut self, selection: Option<usize>, acts: &mut Vec<Action>)
        requires
            old(self).wf(),
        ensures
            final(self).pending is None,
            final(self).visible == old(self).visible,
            final(self).cache == old(self).cache,
            final(self).generation == old(self).generation,
            final(self).issued == old(self).issued,
            final(self).eval_items == old(self).eval_items,
            final(self).settings == old(self).settings,
            final(self).matcher.item_count() == old(self).matcher.item_count(),
            final(self).all_items == old(self).all_items,
            final(self).results == old(self).results,
            final(self).loaded_items == old(self).loaded_items,
            reply_tickets(final(acts)@) == match old(self).pending {
                Some(t) => reply_tickets(old(acts)@).push(t),
                None => reply_tickets(old(acts)@),
            },
            match old(self).pending {
                Some(t) => final(acts)@ == old(acts)@.push(Action::Reply { ticket: t, selection }),
                None => final(acts)@ == old(acts)@,
            },
    {
        match self.pending {
            Some(t) => {
                let a = Action::Reply { ticket: t, selection };
                proof {
                    lemma_reply_push(acts@, a);
                }
                acts.push(a);
                self.pending = None;
            },
            None => {},
        }
    }

    /// Clears what a session showed, its query and its current generation;
    /// the cache and the issue counter stay.
    fn reset_state(&mut self)
        requires
            old(self).cache.wf(),
            old(self).pending is None,
            old(self).generation matches Some(g) ==> g == old(self).issued,
        ensures
            final(self).wf(),
            final(self).pending is None,
            final(self).visible == old(self).visible,
            final(self).cache == old(self).cache,
            final(self).generation is None,
            final(self).issued == old(self).issued,
            final(self).settings == old(self).settings,
            final(self).eval_items@.len() == 0,
            final(self).loaded_items@.len() == 0,
            final(self).active_evaluators@.len() == 0,
            final(self).results@.len() == 0,
            final(self).query@.len() == 0,
            final(self).selected == 0,
    {
        self.query = String::new();
        self.selected = 0;
        self.results = Vec::new();
        self.loaded_items = Vec::new();
        self.all_items = Vec::new();
        let empty: Vec<String> = Vec::new();
        self.matcher.set_items(&empty);
        self.matcher.update_query("");
        self.eval_items = Vec::new();
        self.active_evaluators = Vec::new();
        self.generation = None;
        proof {
            reveal_strlit("");
        }
        assert(self.matcher.query() =~= self.query@);
    }

    /// Hides the surface: answers a waiting external session with
    /// `selection`, clears the session's state (not the cache), and hides.
    fn hide_surface(&mut self, selection: Option<usize>, acts: &mut Vec<Action>)
        requires
            old(self).wf(),
        ensures
            final(self).wf(),
            final(self).pending is None,
            !final(self).visible,
            final(self).cache == old(self).cache,
            final(self).generation is None,
            final(self).issued == old(self).issued,
            final(self).settings == old(self).settings,
            final(self).eval_items@.len() == 0,
            final(self).loaded_items@.len() == 0,
            final(self).active_evaluators@.len() == 0,
            final(self).results@.len() == 0,
            final(self).query@.len() == 0,
            final(self).selected == 0,
            reply_tickets(final(acts)@) == match old(self).pending {
                Some(t) => reply_tickets(old(acts)@).push(t),
                None => reply_tickets(old(acts)@),
            },
            match old(self).pending {
                Some(t) => final(acts)@ == old(acts)@.push(Action::Reply { ticket: t, selection }).push(
                    Action::Hide,
                ),
                None => final(acts)@ == old(acts)@.push(Action::Hide),
            },
            old(self).pending matches Some(t) ==> reply_for(final(acts)@, t) == Some(selection),
    {
        let ghost start = acts@;
        self.answer_dmenu_session(selection, acts);
        self.visible = false;
        self.reset_state();
        proof {
            lemma_reply_push(acts@, Action::Hide);
            if let Some(t) = old(self).pending {
                lemma_reply_for_push(start, Action::Reply { ticket: t, selection }, t);
                lemma_reply_for_push(acts@, Action::Hide, t);
            }
        }
        acts.push(Action::Hide);
    }

    /// Makes `loaded` the shown items, in order, all of them listed.
    fn show_loaded(&mut self, loaded: Vec<LoadedItem>)
        requires
            old(self).cache.wf(),
            old(self).pending is None,
            old(self).matcher.query() == old(self).query@,
            old(self).generation matches Some(g) ==> g == old(self).issued,
        ensures
            final(self).wf(),
            final(self).pending is None,
            final(self).loaded_items@ == loaded@,
            final(self).results@.len() == loaded@.len(),
            forall|k: int| 0 <= k < loaded@.len() ==> final(self).results@[k] == k,
            final(self).visible == old(self).visible,
            final(self).cache == old(self).cache,
            final(self).generation == old(self).generation,
            final(self).issued == old(self).issued,
            final(self).settings == old(self).settings,
            final(self).eval_items == old(self).eval_items,
            final(self).active_evaluators == old(self).active_evaluators,
            final(self).query == old(self).query,
            final(self).selected == old(self).selected,
    {
        self.loaded_items = loaded;
        self.all_items = project(&self.loaded_items);
        let titles = titles_of(&self.all_items);
        self.matcher.set_items(&titles);
        self.results = positions(self.all_items.len());
    }

    /// The trigger of a mode: hides a shown surface (cancelling a waiting
    /// external session); otherwise shows the mode's providers, the cached
    /// ones at once, and asks to load exactly the others.
    pub fn on_hotkey(&mut self, msg: &HotkeyMessage) -> (acts: Vec<Action>)
        requires
            old(self).wf(),
        ensures
            final(self).wf(),
            reply_rule(old(self).pending(), final(self).pending(), None, acts@),
            cancelled(old(self).pending(), acts@),
            final(self).cache() == old(self).cache(),
            final(self).settings() == old(self).settings(),
            final(self).issued() == old(self).issued(),
            old(self).visible() ==> {
                &&& !final(self).visible()
                &&& final(self).pending() is None
                &&& final(self).generation() is None
                &&& final(self).eval_count() == 0
                &&& final(self).result_count() == 0
                &&& acts@.last() is Hide
            },
            !old(self).visible() ==> final(self).generation() == old(self).generation(),
            !old(self).visible() ==> shows_mode(*old(self), *final(self), msg.mode_name@, acts@),
    {
        let mut acts: Vec<Action> = Vec::new();
        assert(reply_tickets(acts@) =~= Seq::<u64>::empty());
        if self.visible {
            self.hide_surface(None, &mut acts);
            return acts;
        }
        assert(self.pending is None);
        self.show_mode(msg.mode_name.as_str(), &mut acts);
        acts
    }

    fn show_mode(&mut self, mode_name: &str, acts: &mut Vec<Action>)
        requires
            old(self).wf(),
            !old(self).visible,
            old(acts)@.len() == 0,
        ensures
            final(self).wf(),
            final(self).pending is None,
            reply_tickets(final(acts)@) == Seq::<u64>::empty(),
            final(self).cache == old(self).cache,
            final(self).settings == old(self).settings,
            final(self).generation == old(self).generation,
            final(self).issued == old(self).issued,
            shows_mode(*old(self), *final(self), mode_name@, final(acts)@),
    {
        let m = match self.settings.mode_index(mode_name) {
            Some(m) => m,
            None => {
                self.active_evaluators = Vec::new();
                assert(reply_tickets(acts@) =~= Seq::<u64>::empty());
                return ;
            },
        };
        self.active_evaluators = copy_names(&self.settings.modes[m].evaluators);
        if self.settings.modes[m].providers.len() == 0 {
            assert(reply_tickets(acts@) =~= Seq::<u64>::empty());
            return ;
        }
        self.visible = true;
        let ghost c = self.cache@;
        let ghost names = self.settings.modes@[m as int].providers@;
        let mut cached: Vec<LoadedItem> = Vec::new();
        let mut missing: Vec<String> = Vec::new();
        let mut i: usize = 0;
        while i < self.settings.modes[m].providers.len()
            invariant
                self.cache.wf(),
                self.cache@ == c,
                m < self.settings.modes@.len(),
                names == self.settings.modes@[m as int].providers@,
                i <= names.len(),
                cached@ == cached_items(names.subrange(0, i as int), c),
                crate::command::texts(missing@) == uncached(names.subrange(0, i as int), c),
            decreases names.len() - i,
        {
            let name = &self.settings.modes[m].providers[i];
            assert(names.subrange(0, i + 1).drop_last() =~= names.subrange(0, i as int));
            assert(names.subrange(0, i + 1).last() == *name);
            match self.cache.get(name.as_str()) {
                Some(items) => {
                    let copies = copy_items(items);
                    let ghost before = cached@;
                    let mut copies = copies;
                    cached.append(&mut copies);
                    assert(cached@ =~= before + c[name@].0);
                },
                None => {
                    let ghost before = missing@;
                    missing.push(name.clone());
                    assert(crate::command::texts(missing@) =~= crate::command::texts(before).push(
                        name@,
                    ));
                },
            }
            i = i + 1;
        }
        assert(names.subrange(0, i as int) =~= names);
        self.show_loaded(cached);
        if missing.len() > 0 {
            let a = Action::LoadProviders(missing);
            proof {
                lemma_reply_push(acts@, a);
            }
            acts.push(a);
        }
        proof {
            lemma_reply_push(acts@, Action::Show);
        }
        acts.push(Action::Show);
        assert(reply_tickets(acts@) =~= Seq::<u64>::empty());
    }
}

/// `post` is `pre` after showing mode `mode_name` on a hidden surface, with
/// actions `acts`. A missing mode changes nothing but clears the active
/// evaluators; a mode without providers only sets them; otherwise the
/// surface shows the cached items of the mode's providers (in the mode's
/// order) and asks to load exactly the providers without a cache entry.
pub open spec fn shows_mode(pre: Coordinator, post: Coordinator, mode_name: Seq<char>, acts: Seq<Action>) -> bool {
    &&& post.pending() is None
    &&& post.query() == pre.query()
    &&& match crate::config::mode_named(pre.settings().modes@, mode_name, 0) {
        None => {
            &&& acts.len() == 0
            &&& post.visible() == pre.visible()
            &&& post.active_evaluators().len() == 0
            &&& post.loaded_items() == pre.loaded_items()
            &&& post.items() == pre.items()
            &&& post.result_rows() == pre.result_rows()
            &&& post.eval_items() == pre.eval_items()
        },
        Some(m) => {
            let names = pre.settings().modes@[m].providers@;
            &&& post.active_evaluators() == pre.settings().modes@[m].evaluators@
            &&& if names.len() == 0 {
                &&& acts.len() == 0
                &&& post.visible() == pre.visible()
                &&& post.loaded_items() == pre.loaded_items()
                &&& post.items() == pre.items()
                &&& post.result_rows() == pre.result_rows()
                &&& post.eval_items() == pre.eval_items()
            } else {
                &&& post.visible()
                &&& load_then_show(acts, uncached(names, pre.cache()))
                &&& post.loaded_items() == cached_items(names, pre.cache())
                &&& post.result_count() == post.loaded_items().len()
                &&& forall|k: int| 0 <= k < post.result_count() ==> post.row_item(k) == (
                #[trigger] post.loaded_items()[k]).item
                &&& post.eval_items() == pre.eval_items()
            }
        },
    }
}

impl Coordinator {
    /// An external session `ticket` with its items: pre-empts what is shown
    /// (answering a waiting session with a cancellation) and shows the
    /// items, with no evaluator rows: an external session only gets its reply.
    pub fn on_dmenu_session(&mut self, ticket: u64, items: Vec<SourceItem>) -> (acts: Vec<Action>)
        requires
            old(self).wf(),
        ensures
            final(self).wf(),
            reply_rule(old(self).pending(), final(self).pending(), Some(ticket), acts@),
            cancelled(old(self).pending(), acts@),
            final(self).visible(),
            final(self).eval_count() == 0,
            final(self).active_evaluators().len() == 0,
            final(self).generation() is None,
            final(self).issued() == old(self).issued(),
            final(self).items() == items@,
            final(self).result_count() == items@.len(),
            forall|k: int| 0 <= k < items@.len() ==> final(self).row_item(k) == items@[k],
            final(self).selected_row() == 0,
            final(self).cache() == old(self).cache(),
            final(self).settings() == old(self).settings(),
            acts@.last() is Show,
    {
        let mut acts: Vec<Action> = Vec::new();
        assert(reply_tickets(acts@) =~= Seq::<u64>::empty());
        if self.visible {
            self.hide_surface(None, &mut acts);
        }
        assert(reply_tickets(acts@) =~= match old(self).pending {
            Some(t) => seq![t],
            None => Seq::<u64>::empty(),
        });
        self.pending = Some(ticket);
        self.loaded_items = Vec::new();
        self.eval_items = Vec::new();
        self.active_evaluators = Vec::new();
        self.generation = None;
        self.selected = 0;
        self.all_items = items;
        let titles = titles_of(&self.all_items);
        self.matcher.set_items(&titles);
        self.results = positions(self.all_items.len());
        self.visible = true;
        proof {
            lemma_reply_push(acts@, Action::Show);
            if let Some(t) = old(self).pending {
                lemma_reply_for_push(acts@, Action::Show, t);
            }
        }
        acts.push(Action::Show);
        acts
    }

    /// The query text changed: the selection goes back to the first row, the
    /// matcher gets the query, and a new generation is issued. With
    /// evaluators active and a non-empty query the evaluators are asked to
    /// run for it; otherwise the evaluator rows are cleared.
    pub fn on_query_changed(&mut self, query: String) -> (acts: Vec<Action>)
        requires
            old(self).wf(),
        ensures
            final(self).wf(),
            reply_rule(old(self).pending(), final(self).pending(), None, acts@),
            final(self).pending() == old(self).pending(),
            final(self).visible() == old(self).visible(),
            final(self).cache() == old(self).cache(),
            final(self).settings() == old(self).settings(),
            final(self).active_evaluators() == old(self).active_evaluators(),
            final(self).loaded_items() == old(self).loaded_items(),
            final(self).items() == old(self).items(),
            final(self).result_rows() == old(self).result_rows(),
            final(self).query() == query@,
            final(self).selected_row() == 0,
            final(self).issued() == next_issue(old(self).issued()),
            final(self).generation() == if old(self).issued() < u64::MAX {
                Some(final(self).issued())
            } else {
                None
            },
            if old(self).active_evaluators().len() > 0 && query@.len() > 0 && old(self).issued()
                < u64::MAX {
                &&& final(self).eval_items() == old(self).eval_items()
                &&& acts@.len() == 1
                &&& acts@[0] matches Action::RunEvaluators { generation, query: q, evaluators }
                    && generation == final(self).issued() && q@ == query@
                    && evaluators@ == old(self).active_evaluators()
            } else {
                &&& final(self).eval_items().len() == 0
                &&& acts@.len() == 0
            },
    {
        self.selected = 0;
        self.matcher.update_query(query.as_str());
        if self.issued < u64::MAX {
            self.issued = self.issued + 1;
            self.generation = Some(self.issued);
        } else {
            self.generation = None;
        }
        let mut acts: Vec<Action> = Vec::new();
        if self.active_evaluators.len() > 0 && query.as_str().unicode_len() > 0
            && self.generation.is_some() {
            let a = Action::RunEvaluators {
                generation: self.issued,
                query: query.clone(),
                evaluators: copy_names(&self.active_evaluators),
            };
            proof {
                lemma_reply_push(acts@, a);
            }
            acts.push(a);
        } else {
            self.eval_items = Vec::new();
        }
        assert(reply_tickets(acts@) =~= Seq::<u64>::empty());
        self.query = query;
        acts
    }

    /// Evaluator results of `generation`: shown only when it is the current
    /// generation and no external session waits; a result of a superseded
    /// query, or of an ended session, is dropped. Nothing else changes.
    pub fn on_eval_results(&mut self, generation: u64, items: Vec<LoadedItem>)
        requires
            old(self).wf(),
        ensures
            final(self).wf(),
            final(self).pending() == old(self).pending(),
            final(self).visible() == old(self).visible(),
            final(self).cache() == old(self).cache(),
            final(self).settings() == old(self).settings(),
            final(self).generation() == old(self).generation(),
            final(self).issued() == old(self).issued(),
            final(self).loaded_items() == old(self).loaded_items(),
            final(self).items() == old(self).items(),
            final(self).result_rows() == old(self).result_rows(),
            final(self).selected_row() == old(self).selected_row(),
            final(self).query() == old(self).query(),
            final(self).active_evaluators() == old(self).active_evaluators(),
            final(self).eval_items() == if old(self).pending() is Some {
                old(self).eval_items()
            } else {
                apply_eval(old(self).generation(), old(self).eval_items(), generation, items@)
            },
    {
        if self.pending.is_none() && self.generation == Some(generation) {
            self.eval_items = items;
        }
    }

    /// Provider items loaded for the internal session: they replace the
    /// items when none were loaded, else they are appended, and all of them
    /// become the provider rows. Dropped while an external session waits.
    pub fn on_items_loaded(&mut self, items: Vec<LoadedItem>)
        requires
            old(self).wf(),
        ensures
            final(self).wf(),
            final(self).pending() == old(self).pending(),
            final(self).visible() == old(self).visible(),
            final(self).cache() == old(self).cache(),
            final(self).settings() == old(self).settings(),
            final(self).generation() == old(self).generation(),
            final(self).issued() == old(self).issued(),
            final(self).eval_items() == old(self).eval_items(),
            final(self).active_evaluators() == old(self).active_evaluators(),
            final(self).selected_row() == old(self).selected_row(),
            final(self).query() == old(self).query(),
            old(self).pending() is Some ==> {
                &&& final(self).loaded_items() == old(self).loaded_items()
                &&& final(self).items() == old(self).items()
                &&& final(self).result_rows() == old(self).result_rows()
            },
            old(self).pending() is None ==> {
                &&& final(self).loaded_items() == old(self).loaded_items() + items@
                &&& final(self).result_count() == final(self).loaded_items().len()
                &&& forall|k: int|
                    0 <= k < final(self).result_count() ==> final(self).row_item(k) == (
                    #[trigger] final(self).loaded_items()[k]).item
            },
    {
        if self.pending.is_some() {
            return ;
        }
        let mut items = items;
        let mut loaded: Vec<LoadedItem> = Vec::new();
        std::mem::swap(&mut loaded, &mut self.loaded_items);
        loaded.append(&mut items);
        self.show_loaded(loaded);
        assert forall|k: int|
            0 <= k < self.results@.len() implies self.all_items@[self.results@[k] as int] == (
            #[trigger] self.loaded_items@[k]).item by {
            assert(self.results@[k] == k);
        }
    }

    /// A provider's reload for the cache finished at `now`: its entry is
    /// replaced whole; nothing shown changes.
    pub fn on_cache_updated(&mut self, provider_name: String, items: Vec<LoadedItem>, now: u64)
        requires
            old(self).wf(),
        ensures
            final(self).wf(),
            final(self).pending() == old(self).pending(),
            final(self).visible() == old(self).visible(),
            final(self).settings() == old(self).settings(),
            final(self).generation() == old(self).generation(),
            final(self).issued() == old(self).issued(),
            final(self).eval_items() == old(self).eval_items(),
            final(self).loaded_items() == old(self).loaded_items(),
            final(self).items() == old(self).items(),
            final(self).result_rows() == old(self).result_rows(),
            final(self).selected_row() == old(self).selected_row(),
            final(self).query() == old(self).query(),
            final(self).active_evaluators() == old(self).active_evaluators(),
            final(self).cache() == old(self).cache().insert(provider_name@, (items@, now)),
    {
        self.cache.put(provider_name, items, now);
    }

    /// The refresh timer fired at `now`: asks to reload each caching provider
    /// whose entry is stale; what is shown is not touched.
    pub fn on_cache_refresh(&self, now: u64) -> (acts: Vec<Action>)
        requires
            self.wf(),
        ensures
            acts@.len() == refresh_names(acts@).len(),
            refresh_names(acts@) == stale_providers(self.settings().providers@, self.cache(), now),
    {
        let mut acts: Vec<Action> = Vec::new();
        let mut i: usize = 0;
        while i < self.settings.providers.len()
            invariant
                self.cache.wf(),
                i <= self.settings.providers@.len(),
                acts@.len() == refresh_names(acts@).len(),
                refresh_names(acts@) == stale_providers(
                    self.settings.providers@.subrange(0, i as int),
                    self.cache@,
                    now,
                ),
            decreases self.settings.providers.len() - i,
        {
            assert(self.settings.providers@.subrange(0, i + 1).drop_last() =~= self.settings.providers@.subrange(
                0,
                i as int,
            ));
            match self.settings.providers[i].1.cache_interval {
                Some(secs) => {
                    let ms: u64 = if secs > u64::MAX / 1000 {
                        u64::MAX
                    } else {
                        secs * 1000
                    };
                    assert(ms == interval_ms(secs)) by (nonlinear_arith)
                        requires
                            ms == (if secs > u64::MAX / 1000 {
                                u64::MAX as int
                            } else {
                                secs * 1000
                            }),
                    ;
                    if self.cache.is_stale(self.settings.providers[i].0.as_str(), ms, now) {
                        let a = Action::RefreshCache(self.settings.providers[i].0.clone());
                        proof {
                            lemma_reply_push(acts@, a);
                        }
                        acts.push(a);
                    }
                },
                None => {},
            }
            i = i + 1;
        }
        assert(self.settings.providers@.subrange(0, i as int) =~= self.settings.providers@);
        acts
    }

    /// An explicit dismissal (the cancel key): hides, cancelling a waiting
    /// external session; the cache stays.
    pub fn on_dismiss(&mut self) -> (acts: Vec<Action>)
        requires
            old(self).wf(),
        ensures
            final(self).wf(),
            reply_rule(old(self).pending(), final(self).pending(), None, acts@),
            cancelled(old(self).pending(), acts@),
            final(self).pending() is None,
            !final(self).visible(),
            final(self).cache() == old(self).cache(),
            final(self).settings() == old(self).settings(),
            final(self).generation() is None,
            final(self).issued() == old(self).issued(),
            final(self).eval_items().len() == 0,
            final(self).loaded_items().len() == 0,
            final(self).result_count() == 0,
            final(self).active_evaluators().len() == 0,
            final(self).query().len() == 0,
            final(self).selected_row() == 0,
            acts@.last() is Hide,
    {
        let mut acts: Vec<Action> = Vec::new();
        assert(reply_tickets(acts@) =~= Seq::<u64>::empty());
        self.hide_surface(None, &mut acts);
        acts
    }

    /// The surface was closed from outside: as a dismissal, without asking to hide.
    pub fn on_window_closed(&mut self) -> (acts: Vec<Action>)
        requires
            old(self).wf(),
        ensures
            final(self).wf(),
            reply_rule(old(self).pending(), final(self).pending(), None, acts@),
            cancelled(old(self).pending(), acts@),
            final(self).pending() is None,
            !final(self).visible(),
            final(self).cache() == old(self).cache(),
            final(self).settings() == old(self).settings(),
            final(self).generation() is None,
            final(self).issued() == old(self).issued(),
            final(self).eval_items().len() == 0,
            final(self).loaded_items().len() == 0,
            final(self).result_count() == 0,
            final(self).active_evaluators().len() == 0,
            final(self).query().len() == 0,
            final(self).selected_row() == 0,
    {
        let mut acts: Vec<Action> = Vec::new();
        assert(reply_tickets(acts@) =~= Seq::<u64>::empty());
        self.answer_dmenu_session(None, &mut acts);
        proof {
            if let Some(t) = old(self).pending {
                lemma_reply_for_push(Seq::<Action>::empty(), Action::Reply { ticket: t, selection: None }, t);
                assert(acts@ =~= Seq::<Action>::empty().push(Action::Reply { ticket: t, selection: None }));
            }
        }
        self.visible = false;
        self.reset_state();
        acts
    }
}

/// `post` and `acts` are what committing row `index` of `pre` gives: the
/// surface is hidden and cleared (not the cache); a waiting external session
/// is answered with the id of the provider row's item (nothing for an
/// evaluator row or a row past the end) and no action runs; in an internal
/// session the action of the row's evaluator or provider runs last.
pub open spec fn select_outcome(pre: Coordinator, post: Coordinator, index: int, acts: Seq<Action>) -> bool {
    let e = pre.eval_count();
    &&& reply_rule(pre.pending(), post.pending(), None, acts)
    &&& post.pending() is None
    &&& !post.visible()
    &&& post.cache() == pre.cache()
    &&& post.settings() == pre.settings()
    &&& post.generation() is None
    &&& post.issued() == pre.issued()
    &&& post.eval_items().len() == 0
    &&& post.loaded_items().len() == 0
    &&& post.result_count() == 0
    &&& post.active_evaluators().len() == 0
    &&& post.selected_row() == 0
    &&& pre.pending() matches Some(t) ==> {
        &&& reply_for(acts, t) == Some(
            if e <= index < e + pre.result_count() {
                pre.row_item(index - e).id
            } else {
                None
            },
        )
        &&& final_run(acts) is None
    }
    &&& pre.pending() is None && 0 <= index < e ==> {
        let li = pre.eval_items()[index];
        match crate::config::evaluator_named(pre.settings().evaluators@, li.provider_name@, 0) {
            Some(ev) => {
                let config = pre.settings().evaluators@[ev].1;
                &&& (final_run(acts) is None <==> config.action@.len() == 0)
                &&& final_run(acts) matches Some(inv) ==> evaluator_action_of(inv, config, li.dmenu_item)
            },
            None => final_run(acts) is None,
        }
    }
    &&& pre.pending() is None && index >= e ==> {
        let k = index - e;
        if k < pre.result_count() {
            let li = pre.row_loaded(k);
            match crate::config::provider_named(pre.settings().providers@, li.provider_name@, 0) {
                Some(p) => {
                    let provider = pre.settings().providers@[p].1;
                    &&& (final_run(acts) is None <==> provider.action@.len() == 0)
                    &&& final_run(acts) matches Some(inv) ==> provider_action_of(inv, provider, li.dmenu_item)
                },
                None => final_run(acts) is None,
            }
        } else {
            final_run(acts) is None
        }
    }
}

/// The first `cap` positions of `m` that are below `count`, in order.
pub open spec fn capped_valid(m: Seq<usize>, count: int, cap: int) -> Seq<usize>
    decreases m.len(),
{
    if m.len() == 0 || cap <= 0 {
        Seq::empty()
    } else if (m[0] as int) < count {
        seq![m[0]] + capped_valid(m.drop_first(), count, cap - 1)
    } else {
        capped_valid(m.drop_first(), count, cap)
    }
}

proof fn lemma_capped_valid(m: Seq<usize>, count: int, cap: int)
    requires
        cap >= 0,
    ensures
        capped_valid(m, count, cap).len() <= cap,
        forall|k: int|
            0 <= k < capped_valid(m, count, cap).len() ==> (#[trigger] capped_valid(m, count, cap)[k]
                as int) < count,
    decreases m.len(),
{
    if m.len() > 0 && cap > 0 {
        if (m[0] as int) < count {
            lemma_capped_valid(m.drop_first(), count, cap - 1);
            let r = capped_valid(m, count, cap);
            let t = capped_valid(m.drop_first(), count, cap - 1);
            assert forall|k: int| 0 <= k < r.len() implies (#[trigger] r[k] as int) < count by {
                if k > 0 {
                    assert(r[k] == t[k - 1]);
                }
            }
        } else {
            lemma_capped_valid(m.drop_first(), count, cap);
        }
    }
}

/// The provider rows after the matcher worked: unchanged when its results
/// did not change; all `count` items in order for an empty query; otherwise
/// the first `MAX_RESULTS` matched positions that name an item.
pub fn ranked_rows(
    changed: bool,
    query_empty: bool,
    count: usize,
    matched: Vec<usize>,
    old_rows: Vec<usize>,
) -> (r: Vec<usize>)
    ensures
        r@ == if !changed {
            old_rows@
        } else if query_empty {
            Seq::new(count as nat, |i: int| i as usize)
        } else {
            capped_valid(matched@, count as int, MAX_RESULTS as int)
        },
{
    if !changed {
        return old_rows;
    }
    if query_empty {
        let r = positions(count);
        assert(r@ =~= Seq::new(count as nat, |i: int| i as usize));
        return r;
    }
    let ghost m = matched@;
    let mut out: Vec<usize> = Vec::new();
    let mut i: usize = 0;
    assert(m.subrange(0, m.len() as int) =~= m);
    assert(out@ + capped_valid(m, count as int, MAX_RESULTS as int) =~= capped_valid(
        m,
        count as int,
        MAX_RESULTS as int,
    ));
    while i < matched.len() && out.len() < MAX_RESULTS
        invariant
            m == matched@,
            i <= m.len(),
            out@.len() <= MAX_RESULTS,
            capped_valid(m, count as int, MAX_RESULTS as int) == out@ + capped_valid(
                m.subrange(i as int, m.len() as int),
                count as int,
                MAX_RESULTS - out@.len(),
            ),
        decreases m.len() - i,
    {
        let ghost rest = m.subrange(i as int, m.len() as int);
        assert(rest.drop_first() =~= m.subrange(i + 1, m.len() as int));
        assert(rest[0] == m[i as int]);
        let p = matched[i];
        if p < count {
            let ghost before = out@;
            out.push(p);
            assert(before + (seq![p] + capped_valid(
                m.subrange(i + 1, m.len() as int),
                count as int,
                MAX_RESULTS - before.len() - 1,
            )) =~= out@ + capped_valid(
                m.subrange(i + 1, m.len() as int),
                count as int,
                MAX_RESULTS - out@.len(),
            ));
        }
        i = i + 1;
    }
    let ghost rest = m.subrange(i as int, m.len() as int);
    assert(capped_valid(rest, count as int, MAX_RESULTS - out@.len()) =~= Seq::<usize>::empty());
    assert(out@ + Seq::<usize>::empty() =~= out@);
    out
}

impl Coordinator {
    /// The action for row `index`, evaluator rows first; none while an
    /// external session waits.
    fn action_for_row(&self, index: usize) -> (r: Option<Invocation>)
        requires
            self.wf(),
        ensures
            self.pending() is Some ==> r is None,
            self.pending() is None && index < self.eval_count() ==> {
                let li = self.eval_items()[index as int];
                match crate::config::evaluator_named(self.settings().evaluators@, li.provider_name@, 0) {
                    Some(e) => {
                        let config = self.settings().evaluators@[e].1;
                        &&& (r is None <==> config.action@.len() == 0)
                        &&& r matches Some(inv) ==> evaluator_action_of(inv, config, li.dmenu_item)
                    },
                    None => r is None,
                }
            },
            self.pending() is None && index >= self.eval_count() ==> {
                let k = index - self.eval_count();
                if k < self.result_count() {
                    let li = self.row_loaded(k);
                    match crate::config::provider_named(self.settings().providers@, li.provider_name@, 0) {
                        Some(p) => {
                            let provider = self.settings().providers@[p].1;
                            &&& (r is None <==> provider.action@.len() == 0)
                            &&& r matches Some(inv) ==> provider_action_of(inv, provider, li.dmenu_item)
                        },
                        None => r is None,
                    }
                } else {
                    r is None
                }
            },
    {
        if self.pending.is_some() {
            return None;
        }
        let eval_count = self.eval_items.len();
        if index < eval_count {
            let li = &self.eval_items[index];
            match self.settings.evaluator_index(li.provider_name.as_str()) {
                Some(e) => run_action(&self.settings.evaluators[e].1, &li.dmenu_item),
                None => None,
            }
        } else {
            let k = index - eval_count;
            if k < self.results.len() {
                let li = &self.loaded_items[self.results[k]];
                match self.settings.provider_index(li.provider_name.as_str()) {
                    Some(p) => execute_action(&self.settings.providers[p].1, &li.dmenu_item),
                    None => None,
                }
            } else {
                None
            }
        }
    }

    /// Commits row `index` (evaluator rows first, then provider rows): an
    /// external session is answered with the row's item id; an internal one
    /// runs the row's action after the surface is hidden.
    pub fn on_select(&mut self, index: usize) -> (acts: Vec<Action>)
        requires
            old(self).wf(),
        ensures
            final(self).wf(),
            select_outcome(*old(self), *final(self), index as int, acts@),
    {
        let run = self.action_for_row(index);
        let eval_count = self.eval_items.len();
        let selection: Option<usize> = if index >= eval_count && index - eval_count < self.results.len() {
            self.all_items[self.results[index - eval_count]].id
        } else {
            None
        };
        let mut acts: Vec<Action> = Vec::new();
        assert(reply_tickets(acts@) =~= Seq::<u64>::empty());
        self.hide_surface(selection, &mut acts);
        let ghost hidden = acts@;
        match run {
            Some(inv) => {
                let a = Action::Run(inv);
                proof {
                    lemma_reply_push(acts@, a);
                }
                acts.push(a);
                assert(acts@.drop_last() =~= hidden);
            },
            None => {},
        }
        proof {
            if let Some(t) = old(self).pending {
                assert(hidden.last() is Hide);
            }
        }
        acts
    }

    /// Commits the selected row, as `on_select` does for it.
    pub fn on_execute(&mut self) -> (acts: Vec<Action>)
        requires
            old(self).wf(),
        ensures
            final(self).wf(),
            select_outcome(*old(self), *final(self), old(self).selected_row(), acts@),
    {
        let index = self.selected;
        self.on_select(index)
    }

    /// Lets the matcher work and re-ranks the provider rows with what it
    /// gives. Whatever the matcher did, the rows stay as they were, or are all
    /// items in order for an empty query, or are at most `MAX_RESULTS` rows,
    /// each naming an item, for a non-empty query.
    pub fn on_matcher_tick(&mut self)
        requires
            old(self).wf(),
        ensures
            final(self).wf(),
            final(self).pending() == old(self).pending(),
            final(self).visible() == old(self).visible(),
            final(self).cache() == old(self).cache(),
            final(self).settings() == old(self).settings(),
            final(self).generation() == old(self).generation(),
            final(self).issued() == old(self).issued(),
            final(self).eval_items() == old(self).eval_items(),
            final(self).loaded_items() == old(self).loaded_items(),
            final(self).items() == old(self).items(),
            final(self).selected_row() == old(self).selected_row(),
            final(self).query() == old(self).query(),
            final(self).active_evaluators() == old(self).active_evaluators(),
            ({
                ||| final(self).result_rows() == old(self).result_rows()
                ||| old(self).query().len() == 0 && final(self).result_rows() == Seq::new(
                    old(self).items().len(),
                    |i: int| i as usize,
                )
                ||| old(self).query().len() > 0 && final(self).result_count() <= MAX_RESULTS
                    && forall|k: int|
                    0 <= k < final(self).result_count() ==> (#[trigger] final(self).result_rows()[k])
                        < final(self).items().len()
            }),
    {
        let changed = self.matcher.tick();
        let empty = self.matcher.query_is_empty();
        let matched = if changed && !empty {
            self.matcher.results(MAX_RESULTS)
        } else {
            Vec::new()
        };
        let mut old_rows: Vec<usize> = Vec::new();
        std::mem::swap(&mut old_rows, &mut self.results);
        proof {
            lemma_capped_valid(matched@, self.all_items@.len() as int, MAX_RESULTS as int);
        }
        self.results = ranked_rows(changed, empty, self.all_items.len(), matched, old_rows);
    }

    /// Moves the selection one row up, if it can.
    pub fn move_up(&mut self)
        requires
            old(self).wf(),
        ensures
            final(self).wf(),
            final(self).pending() == old(self).pending(),
            final(self).cache() == old(self).cache(),
            final(self).selected_row() == if old(self).selected_row() > 0 {
                old(self).selected_row() - 1
            } else {
                old(self).selected_row()
            },
    {
        if self.selected > 0 {
            self.selected = self.selected - 1;
        }
    }

    /// Moves the selection one row down, if there is a row below.
    pub fn move_down(&mut self)
        requires
            old(self).wf(),
        ensures
            final(self).wf(),
            final(self).pending() == old(self).pending(),
            final(self).cache() == old(self).cache(),
            final(self).selected_row() == if old(self).selected_row() < usize::MAX
                && old(self).selected_row() + 1 < old(self).eval_count() + old(self).result_count() {
                old(self).selected_row() + 1
            } else {
                old(self).selected_row()
            },
    {
        let total = self.eval_items.len() as u128 + self.results.len() as u128;
        if self.selected < usize::MAX && (self.selected as u128) + 1 < total {
            self.selected = self.selected + 1;
        }
    }

    /// The selected row.
    pub fn selected(&self) -> (r: usize)
        ensures
            r == self.selected_row(),
    {
        self.selected
    }

    /// Whether the surface is shown.
    pub fn is_visible(&self) -> (r: bool)
        ensures
            r == self.visible(),
    {
        self.visible
    }

    /// The rows to display: evaluator results first, then provider results.
    pub fn display_items(&self) -> (r: Vec<SourceItem>)
        requires
            self.wf(),
        ensures
            r@.len() == self.eval_count() + self.result_count(),
            forall|i: int| 0 <= i < self.eval_count() ==> r@[i] == self.eval_items()[i].item,
            forall|k: int| 0 <= k < self.result_count() ==> r@[self.eval_count() + k] == self.row_item(k),
    {
        let mut out: Vec<SourceItem> = Vec::new();
        let mut i: usize = 0;
        while i < self.eval_items.len()
            invariant
                i <= self.eval_items@.len(),
                out@.len() == i,
                forall|j: int| 0 <= j < i ==> out@[j] == self.eval_items@[j].item,
            decreases self.eval_items.len() - i,
        {
            out.push(self.eval_items[i].item.duplicate());
            i = i + 1;
        }
        let mut k: usize = 0;
        while k < self.results.len()
            invariant
                self.wf(),
                k <= self.results@.len(),
                out@.len() == self.eval_items@.len() + k,
                forall|j: int| 0 <= j < self.eval_items@.len() ==> out@[j] == self.eval_items@[j].item,
                forall|j: int| 0 <= j < k ==> out@[self.eval_items@.len() + j] == self.all_items@[self.results@[j] as int],
            decreases self.results.len() - k,
        {
            out.push(self.all_items[self.results[k]].duplicate());
            k = k + 1;
        }
        out
    }
}

/// How often `t` occurs in `s`.
pub open spec fn count_of(s: Seq<u64>, t: u64) -> nat
    decreases s.len(),
{
    if s.len() == 0 {
        0
    } else {
        count_of(s.drop_last(), t) + if s.last() == t {
            1nat
        } else {
            0nat
        }
    }
}

/// The answers to session `t` over a run of steps.
pub open spec fn answers(steps: Seq<Seq<Action>>, t: u64) -> nat
    decreases steps.len(),
{
    if steps.len() == 0 {
        0
    } else {
        answers(steps.drop_last(), t) + count_of(reply_tickets(steps.last()), t)
    }
}

/// The times session `t` was opened over a run of steps.
pub open spec fn openings(started: Seq<Option<u64>>, t: u64) -> nat
    decreases started.len(),
{
    if started.len() == 0 {
        0
    } else {
        openings(started.drop_last(), t) + if started.last() == Some(t) {
            1nat
        } else {
            0nat
        }
    }
}

proof fn lemma_step_count(pre: Option<u64>, post: Option<u64>, started: Option<u64>, acts: Seq<Action>, t: u64)
    requires
        reply_rule(pre, post, started, acts),
    ensures
        count_of(reply_tickets(acts), t) + (if post == Some(t) { 1int } else { 0int }) == (if pre == Some(t) {
            1int
        } else {
            0int
        }) + (if started == Some(t) { 1int } else { 0int }),
{
    let e = Seq::<u64>::empty();
    assert(count_of(e, t) == 0);
    if let Some(p) = pre {
        assert(seq![p].drop_last() =~= e);
    }
}

/// Every external session is answered exactly once. Over a run of steps
/// that each follow the reply rule, starting with no session waiting, the
/// answers to a session, plus one while it still waits, equal the times it
/// was opened: a session opened once is answered once when it closes (by a
/// selection, a cancellation, or a pre-empting session) and never twice.
pub proof fn lemma_exactly_once_reply(
    pending: Seq<Option<u64>>,
    started: Seq<Option<u64>>,
    steps: Seq<Seq<Action>>,
    t: u64,
)
    requires
        pending.len() == steps.len() + 1,
        started.len() == steps.len(),
        pending[0] is None,
        forall|i: int|
            0 <= i < steps.len() ==> reply_rule(pending[i], pending[i + 1], started[i], #[trigger] steps[i]),
    ensures
        answers(steps, t) + (if pending.last() == Some(t) { 1int } else { 0int }) == openings(started, t),
        openings(started, t) == 1 && pending.last() != Some(t) ==> answers(steps, t) == 1,
        openings(started, t) <= 1 ==> answers(steps, t) <= 1,
    decreases steps.len(),
{
    let n = steps.len() as int;
    if n > 0 {
        let pd = pending.drop_last();
        let sd = started.drop_last();
        let stp = steps.drop_last();
        assert forall|i: int| 0 <= i < stp.len() implies reply_rule(pd[i], pd[i + 1], sd[i], #[trigger] stp[i]) by {
            assert(steps[i] == stp[i]);
        }
        lemma_exactly_once_reply(pd, sd, stp, t);
        assert(reply_rule(pending[n - 1], pending[n], started[n - 1], steps[n - 1]));
        lemma_step_count(pending[n - 1], pending[n], started[n - 1], steps[n - 1], t);
        assert(pd.last() == pending[n - 1]);
    }
}

/// A result of a superseded generation never replaces newer results: with
/// `g1 < g2` and `g2` current, the result of `g1` is dropped whether it comes
/// before or after the result of `g2`, and what is shown is `g2`'s result.
/// Once a session has ended (no current generation) no result is taken.
pub proof fn lemma_debounce_monotonic(
    g1: u64,
    g2: u64,
    shown: Seq<LoadedItem>,
    r1: Seq<LoadedItem>,
    r2: Seq<LoadedItem>,
)
    requires
        g1 < g2,
    ensures
        apply_eval(Some(g2), shown, g1, r1) == shown,
        apply_eval(Some(g2), apply_eval(Some(g2), shown, g1, r1), g2, r2) == r2,
        apply_eval(Some(g2), apply_eval(Some(g2), shown, g2, r2), g1, r1) == r2,
        apply_eval(None, shown, g1, r1) == shown,
{
}

/// Cached providers are shown without a load: when every provider of a mode
/// has a cache entry (which hiding leaves in place), showing the mode asks
/// for no load, and what it shows is the cached items, in the mode's order.
pub proof fn lemma_cached_mode_needs_no_load(
    names: Seq<String>,
    c: Map<Seq<char>, (Seq<LoadedItem>, u64)>,
)
    requires
        forall|i: int| 0 <= i < names.len() ==> c.contains_key(#[trigger] names[i]@),
    ensures
        uncached(names, c).len() == 0,
    decreases names.len(),
{
    if names.len() > 0 {
        let d = names.drop_last();
        assert forall|i: int| 0 <= i < d.len() implies c.contains_key(#[trigger] d[i]@) by {
            assert(d[i] == names[i]);
        }
        lemma_cached_mode_needs_no_load(d, c);
        assert(c.contains_key(names[names.len() - 1]@));
    }
}

} // verus!
