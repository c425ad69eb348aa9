//! What can be captured: the outputs and windows that the compositor has
//! announced, how they are listed, and how the target that the user named is
//! found among them.

use vstd::prelude::*;
use crate::find::{first_where, lemma_first_where, lemma_first_where_is};
use crate::order::{
    same_text, bytes_lt, is_listing_order, keys_of, lemma_bytes_lt_irreflexive, lemma_bytes_lt_total,
    listing_order, positions, sort_key,
};

verus! {

/// A display output.
#[derive(Clone, Debug)]
pub struct Output {
    /// The number of the protocol object that stands for the output.
    pub key: u32,
    /// The output's name; empty until the compositor has sent it.
    pub name: String,
}

/// An application window.
#[derive(Clone, Debug)]
pub struct ForeignToplevel {
    /// The number of the protocol object that stands for the window.
    pub key: u32,
    /// The identity that the compositor gives the window for its lifetime.
    pub id: String,
    pub title: String,
    pub app_id: String,
}

/// What the user asked to capture.
#[derive(Clone, Debug)]
pub enum Target {
    /// Nothing: list what there is.
    Unspecified,
    /// The output of this name.
    Output(String),
    /// The window of this identity.
    Toplevel(String),
}

/// The source to capture from, by the number of its protocol object.
#[derive(Clone, Copy, Debug, PartialEq, Eq, Structural)]
pub enum Source {
    Output { key: u32 },
    Toplevel { key: u32 },
}

/// An output as a value.
pub struct OutputView {
    pub key: u32,
    pub name: Seq<char>,
}

/// A window as a value.
pub struct ToplevelView {
    pub key: u32,
    pub id: Seq<char>,
    pub title: Seq<char>,
    pub app_id: Seq<char>,
}

/// A target as a value.
pub enum TargetView {
    Unspecified,
    Output(Seq<char>),
    Toplevel(Seq<char>),
}

impl View for Output {
    type V = OutputView;

    open spec fn view(&self) -> OutputView {
        OutputView { key: self.key, name: self.name@ }
    }
}

impl View for ForeignToplevel {
    type V = ToplevelView;

    open spec fn view(&self) -> ToplevelView {
        ToplevelView { key: self.key, id: self.id@, title: self.title@, app_id: self.app_id@ }
    }
}

impl View for Target {
    type V = TargetView;

    open spec fn view(&self) -> TargetView {
        match self {
            Target::Unspecified => TargetView::Unspecified,
            Target::Output(name) => TargetView::Output(name@),
            Target::Toplevel(id) => TargetView::Toplevel(id@),
        }
    }
}

/// A list of outputs as values.
pub open spec fn output_views(outputs: Seq<Output>) -> Seq<OutputView> {
    outputs.map_values(|o: Output| o@)
}

/// A list of windows as values.
pub open spec fn toplevel_views(toplevels: Seq<ForeignToplevel>) -> Seq<ToplevelView> {
    toplevels.map_values(|t: ForeignToplevel| t@)
}

/// The predicate "is the output with this key".
pub open spec fn output_keyed(key: u32) -> spec_fn(OutputView) -> bool {
    |o: OutputView| o.key == key
}

/// The predicate "is an output of this name".
pub open spec fn output_named(name: Seq<char>) -> spec_fn(OutputView) -> bool {
    |o: OutputView| o.name == name
}

/// The predicate "is the window with this key".
pub open spec fn toplevel_keyed(key: u32) -> spec_fn(ToplevelView) -> bool {
    |t: ToplevelView| t.key == key
}

/// The predicate "is a window of this identity".
pub open spec fn toplevel_identified(id: Seq<char>) -> spec_fn(ToplevelView) -> bool {
    |t: ToplevelView| t.id == id
}

/// No key occurs twice among `outputs`.
pub open spec fn output_keys_distinct(outputs: Seq<OutputView>) -> bool {
    forall|i: int, j: int|
        0 <= i < j < outputs.len() ==> (#[trigger] outputs[i]).key != (#[trigger] outputs[j]).key
}

/// No key occurs twice among `toplevels`.
pub open spec fn toplevel_keys_distinct(toplevels: Seq<ToplevelView>) -> bool {
    forall|i: int, j: int|
        0 <= i < j < toplevels.len() ==> (#[trigger] toplevels[i]).key != (
        #[trigger] toplevels[j]).key
}

/// The outputs after one with `key` was announced: it is added at the end
/// without a name, or, if the key is known, takes the place of the output
/// that had it.
pub open spec fn with_output(outputs: Seq<OutputView>, key: u32) -> Seq<OutputView> {
    let fresh = OutputView { key, name: Seq::<char>::empty() };
    match first_where(outputs, output_keyed(key)) {
        Some(i) => outputs.update(i, fresh),
        None => outputs.push(fresh),
    }
}

/// The outputs after the one with `key` was given a name. Without such an
/// output nothing changes.
pub open spec fn with_output_name(outputs: Seq<OutputView>, key: u32, name: Seq<char>) -> Seq<
    OutputView,
> {
    match first_where(outputs, output_keyed(key)) {
        Some(i) => outputs.update(i, OutputView { key, name }),
        None => outputs,
    }
}

/// The windows with the one keyed `key` among them: added at the end with
/// empty strings if it was not known.
pub open spec fn with_toplevel(toplevels: Seq<ToplevelView>, key: u32) -> Seq<ToplevelView> {
    match first_where(toplevels, toplevel_keyed(key)) {
        Some(i) => toplevels,
        None => toplevels.push(
            ToplevelView {
                key,
                id: Seq::<char>::empty(),
                title: Seq::<char>::empty(),
                app_id: Seq::<char>::empty(),
            },
        ),
    }
}

/// What the compositor says of a window.
#[derive(Clone, Debug)]
pub enum ToplevelEvent {
    /// The window is gone.
    Closed,
    Title(String),
    AppId(String),
    Identifier(String),
    /// Anything else: it changes no attribute.
    Other,
}

/// What the compositor says of an output.
#[derive(Clone, Debug)]
pub enum OutputEvent {
    Name(String),
    /// Anything else: it changes no attribute.
    Other,
}

/// The outputs after `event` arrived for the output keyed `key`.
pub open spec fn after_output_event(outputs: Seq<OutputView>, key: u32, event: OutputEvent) -> Seq<
    OutputView,
> {
    match event {
        OutputEvent::Name(name) => with_output_name(outputs, key, name@),
        OutputEvent::Other => outputs,
    }
}

/// The windows after `event` arrived for the window keyed `key`. A window
/// that was not known is known from then on, whatever the event, unless the
/// event closes it.
pub open spec fn after_toplevel_event(
    toplevels: Seq<ToplevelView>,
    key: u32,
    event: ToplevelEvent,
) -> Seq<ToplevelView> {
    let known = with_toplevel(toplevels, key);
    match first_where(known, toplevel_keyed(key)) {
        Some(i) => match event {
            ToplevelEvent::Closed => known.remove(i),
            ToplevelEvent::Title(title) => known.update(
                i,
                ToplevelView { title: title@, ..known[i] },
            ),
            ToplevelEvent::AppId(app_id) => known.update(
                i,
                ToplevelView { app_id: app_id@, ..known[i] },
            ),
            ToplevelEvent::Identifier(id) => known.update(i, ToplevelView { id: id@, ..known[i] }),
            ToplevelEvent::Other => known,
        },
        None => known,
    }
}

/// The names of a list of outputs.
pub open spec fn output_names(outputs: Seq<OutputView>) -> Seq<Seq<u8>> {
    outputs.map_values(|o: OutputView| sort_key(o.name))
}

/// The application ids of a list of windows.
pub open spec fn toplevel_app_ids(toplevels: Seq<ToplevelView>) -> Seq<Seq<u8>> {
    toplevels.map_values(|t: ToplevelView| sort_key(t.app_id))
}

/// `listed` is `outputs` sorted by name: it holds every output once, names
/// in ascending order, outputs of the same name in the order of `outputs`.
pub open spec fn is_output_listing(outputs: Seq<OutputView>, listed: Seq<OutputView>) -> bool {
    exists|order: Seq<int>|
        {
            &&& is_listing_order(output_names(outputs), order)
            &&& #[trigger] listed.len() == order.len()
            &&& forall|i: int| 0 <= i < listed.len() ==> #[trigger] listed[i] == outputs[order[i]]
        }
}

/// `listed` is `toplevels` sorted by application id: it holds every window
/// once, application ids in ascending order, windows of the same
/// application in the order of `toplevels`.
pub open spec fn is_toplevel_listing(
    toplevels: Seq<ToplevelView>,
    listed: Seq<ToplevelView>,
) -> bool {
    exists|order: Seq<int>|
        {
            &&& is_listing_order(toplevel_app_ids(toplevels), order)
            &&& #[trigger] listed.len() == order.len()
            &&& forall|i: int|
                0 <= i < listed.len() ==> #[trigger] listed[i] == toplevels[order[i]]
        }
}

/// The outputs that the compositor has announced, in the order they came.
pub struct OutputTable {
    entries: Vec<Output>,
}

impl View for OutputTable {
    type V = Seq<OutputView>;

    closed spec fn view(&self) -> Seq<OutputView> {
        output_views(self.entries@)
    }
}

impl OutputTable {
    /// The table's invariant: no key occurs twice.
    pub open spec fn wf(&self) -> bool {
        output_keys_distinct(self@)
    }

    /// A table without outputs.
    pub fn new() -> (table: OutputTable)
        ensures
            table.wf(),
            table@.len() == 0,
    {
        OutputTable { entries: Vec::new() }
    }

    /// Number of outputs.
    pub fn len(&self) -> (n: usize)
        ensures
            n == self@.len(),
    {
        self.entries.len()
    }

    /// Where the output with `key` stands in the table.
    fn position(&self, key: u32) -> (found: Option<usize>)
        ensures
            match found {
                Some(i) => first_where(self@, output_keyed(key)) == Some(i as int) && i
                    < self.entries@.len(),
                None => first_where(self@, output_keyed(key)) is None,
            },
    {
        let mut i: usize = 0;
        while i < self.entries.len()
            invariant
                i <= self.entries@.len(),
                forall|k: int| 0 <= k < i ==> !output_keyed(key)(#[trigger] self@[k]),
            decreases self.entries@.len() - i,
        {
            if self.entries[i].key == key {
                proof {
                    assert(output_keyed(key)(self@[i as int]));
                    lemma_first_where_is(self@, output_keyed(key), i as int);
                }
                return Some(i);
            }
            i += 1;
        }
        proof {
            lemma_first_where(self@, output_keyed(key));
        }
        None
    }

    /// Tells whether the table has an output with `key`.
    pub fn contains(&self, key: u32) -> (known: bool)
        ensures
            known == first_where(self@, output_keyed(key)) is Some,
    {
        self.position(key).is_some()
    }

    /// Enters a newly announced output under `key`, without a name. An
    /// output that was known under that key is replaced.
    pub fn insert(&mut self, key: u32)
        requires
            old(self).wf(),
        ensures
            final(self).wf(),
            final(self)@ == with_output(old(self)@, key),
    {
        let fresh = Output { key, name: String::new() };
        let ghost before = self@;
        match self.position(key) {
            Some(i) => {
                self.entries.set(i, fresh);
                proof {
                    assert(self@ =~= with_output(before, key));
                    assert forall|a: int, b: int| 0 <= a < b < self@.len() implies (
                    #[trigger] self@[a]).key != (#[trigger] self@[b]).key by {
                        assert(before[a].key != before[b].key);
                        assert(before[i as int].key == key);
                    }
                }
            },
            None => {
                self.entries.push(fresh);
                proof {
                    assert(self@ =~= with_output(before, key));
                    lemma_first_where(before, output_keyed(key));
                    assert forall|a: int, b: int| 0 <= a < b < self@.len() implies (
                    #[trigger] self@[a]).key != (#[trigger] self@[b]).key by {
                        assert(self@[a] == before[a]);
                        assert(!output_keyed(key)(before[a]));
                        if b < before.len() {
                            assert(before[a].key != before[b].key);
                        }
                    }
                }
            },
        }
    }

    /// Gives the output with `key` its name.
    pub fn set_name(&mut self, key: u32, name: String)
        requires
            old(self).wf(),
            first_where(old(self)@, output_keyed(key)) is Some,
        ensures
            final(self).wf(),
            final(self)@ == with_output_name(old(self)@, key, name@),
    {
        let ghost before = self@;
        match self.position(key) {
            Some(i) => {
                self.entries.set(i, Output { key, name });
                proof {
                    assert(self@ =~= with_output_name(before, key, name@));
                    assert forall|a: int, b: int| 0 <= a < b < self@.len() implies (
                    #[trigger] self@[a]).key != (#[trigger] self@[b]).key by {
                        assert(before[a].key != before[b].key);
                        assert(before[i as int].key == key);
                    }
                }
            },
            None => {},
        }
    }

    /// Takes in what the compositor says of the output with `key`, which
    /// must be known: a name replaces the output's name, anything else
    /// changes nothing.
    pub fn handle(&mut self, key: u32, event: OutputEvent)
        requires
            old(self).wf(),
            first_where(old(self)@, output_keyed(key)) is Some,
        ensures
            final(self).wf(),
            final(self)@ == after_output_event(old(self)@, key, event),
    {
        match event {
            OutputEvent::Name(name) => {
                self.set_name(key, name);
            },
            OutputEvent::Other => {},
        }
    }

    /// The key of the first output named `name`.
    pub fn find(&self, name: &str) -> (key: Option<u32>)
        ensures
            match first_where(self@, output_named(name@)) {
                Some(i) => key == Some(self@[i].key),
                None => key is None,
            },
    {
        let mut i: usize = 0;
        while i < self.entries.len()
            invariant
                i <= self.entries@.len(),
                forall|k: int| 0 <= k < i ==> !output_named(name@)(#[trigger] self@[k]),
            decreases self.entries@.len() - i,
        {
            if same_text(self.entries[i].name.as_str(), name) {
                proof {
                    assert(output_named(name@)(self@[i as int]));
                    lemma_first_where_is(self@, output_named(name@), i as int);
                }
                return Some(self.entries[i].key);
            }
            i += 1;
        }
        proof {
            lemma_first_where(self@, output_named(name@));
        }
        None
    }

    /// The outputs sorted by name, outputs of the same name in the order
    /// they were announced.
    pub fn listing(&self) -> (listed: Vec<Output>)
        ensures
            is_output_listing(self@, output_views(listed@)),
    {
        let mut names: Vec<String> = Vec::new();
        let mut i: usize = 0;
        while i < self.entries.len()
            invariant
                i <= self.entries@.len(),
                names@.len() == i,
                forall|k: int| 0 <= k < i ==> (#[trigger] names@[k])@ == self.entries@[k].name@,
            decreases self.entries@.len() - i,
        {
            names.push(self.entries[i].name.clone());
            i += 1;
        }
        assert(keys_of(names@) =~= output_names(self@));
        let order = listing_order(&names);
        let ghost places = positions(order@);
        let mut listed: Vec<Output> = Vec::new();
        let mut k: usize = 0;
        while k < order.len()
            invariant
                k <= order@.len(),
                places == positions(order@),
                is_listing_order(output_names(self@), places),
                output_names(self@).len() == self.entries@.len(),
                listed@.len() == k,
                forall|j: int| 0 <= j < k ==> (#[trigger] listed@[j])@ == self@[places[j]],
            decreases order@.len() - k,
        {
            let at: usize = order[k];
            assert(places[k as int] == at);
            let entry = &self.entries[at];
            listed.push(Output { key: entry.key, name: entry.name.clone() });
            k += 1;
        }
        proof {
            let views = output_views(listed@);
            assert(views.len() == places.len());
            assert forall|j: int| 0 <= j < views.len() implies #[trigger] views[j]
                == self@[places[j]] by {
                assert(listed@[j]@ == self@[places[j]]);
            }
        }
        listed
    }
}

/// The windows that the compositor has announced and not closed, in the
/// order they came.
pub struct ToplevelTable {
    entries: Vec<ForeignToplevel>,
}

impl View for ToplevelTable {
    type V = Seq<ToplevelView>;

    closed spec fn view(&self) -> Seq<ToplevelView> {
        toplevel_views(self.entries@)
    }
}

impl ToplevelTable {
    /// The table's invariant: no key occurs twice.
    pub open spec fn wf(&self) -> bool {
        toplevel_keys_distinct(self@)
    }

    /// A table without windows.
    pub fn new() -> (table: ToplevelTable)
        ensures
            table.wf(),
            table@.len() == 0,
    {
        ToplevelTable { entries: Vec::new() }
    }

    /// Number of windows.
    pub fn len(&self) -> (n: usize)
        ensures
            n == self@.len(),
    {
        self.entries.len()
    }

    /// Where the window with `key` stands in the table.
    fn position(&self, key: u32) -> (found: Option<usize>)
        ensures
            match found {
                Some(i) => first_where(self@, toplevel_keyed(key)) == Some(i as int) && i
                    < self.entries@.len(),
                None => first_where(self@, toplevel_keyed(key)) is None,
            },
    {
        let mut i: usize = 0;
        while i < self.entries.len()
            invariant
                i <= self.entries@.len(),
                forall|k: int| 0 <= k < i ==> !toplevel_keyed(key)(#[trigger] self@[k]),
            decreases self.entries@.len() - i,
        {
            if self.entries[i].key == key {
                proof {
                    assert(toplevel_keyed(key)(self@[i as int]));
                    lemma_first_where_is(self@, toplevel_keyed(key), i as int);
                }
                return Some(i);
            }
            i += 1;
        }
        proof {
            lemma_first_where(self@, toplevel_keyed(key));
        }
        None
    }

    /// Tells whether the table has a window with `key`.
    pub fn contains(&self, key: u32) -> (known: bool)
        ensures
            known == first_where(self@, toplevel_keyed(key)) is Some,
    {
        self.position(key).is_some()
    }

    /// Makes sure that the table has the window with `key` and returns where
    /// it stands.
    fn entry(&mut self, key: u32) -> (at: usize)
        requires
            old(self).wf(),
        ensures
            final(self).wf(),
            final(self)@ == with_toplevel(old(self)@, key),
            first_where(final(self)@, toplevel_keyed(key)) == Some(at as int),
            at < final(self).entries@.len(),
    {
        let ghost before = self@;
        match self.position(key) {
            Some(i) => i,
            None => {
                let at: usize = self.entries.len();
                self.entries.push(
                    ForeignToplevel {
                        key,
                        id: String::new(),
                        title: String::new(),
                        app_id: String::new(),
                    },
                );
                proof {
                    assert(self@ =~= with_toplevel(before, key));
                    lemma_first_where(before, toplevel_keyed(key));
                    assert forall|a: int, b: int| 0 <= a < b < self@.len() implies (
                    #[trigger] self@[a]).key != (#[trigger] self@[b]).key by {
                        assert(self@[a] == before[a]);
                        assert(!toplevel_keyed(key)(before[a]));
                        if b < before.len() {
                            assert(before[a].key != before[b].key);
                        }
                    }
                    assert forall|j: int| 0 <= j < at implies !toplevel_keyed(key)(
                        #[trigger] self@[j],
                    ) by {
                        assert(self@[j] == before[j]);
                    }
                    assert(toplevel_keyed(key)(self@[at as int]));
                    lemma_first_where_is(self@, toplevel_keyed(key), at as int);
                }
                at
            },
        }
    }

    /// Takes in what the compositor says of the window with `key`. A window
    /// that was not known is entered first; `Closed` takes the window out.
    /// Returns whether the window was closed.
    pub fn handle(&mut self, key: u32, event: ToplevelEvent) -> (closed: bool)
        requires
            old(self).wf(),
        ensures
            final(self).wf(),
            final(self)@ == after_toplevel_event(old(self)@, key, event),
            closed == (event is Closed),
    {
        let at = self.entry(key);
        let ghost known = self@;
        let mut closed = false;
        match event {
            ToplevelEvent::Closed => {
                self.entries.remove(at);
                closed = true;
                proof {
                    assert(self@ =~= known.remove(at as int));
                    assert forall|a: int, b: int| 0 <= a < b < self@.len() implies (
                    #[trigger] self@[a]).key != (#[trigger] self@[b]).key by {
                        let a0 = if a < at { a } else { a + 1 };
                        let b0 = if b < at { b } else { b + 1 };
                        assert(self@[a] == known[a0] && self@[b] == known[b0]);
                        assert(known[a0].key != known[b0].key);
                    }
                }
            },
            ToplevelEvent::Title(title) => {
                let entry = &self.entries[at];
                let changed = ForeignToplevel {
                    key: entry.key,
                    id: entry.id.clone(),
                    title,
                    app_id: entry.app_id.clone(),
                };
                self.entries.set(at, changed);
                proof {
                    assert(self@ =~= known.update(
                        at as int,
                        ToplevelView { title: title@, ..known[at as int] },
                    ));
                    lemma_update_keeps_keys(known, self@, at as int);
                }
            },
            ToplevelEvent::AppId(app_id) => {
                let entry = &self.entries[at];
                let changed = ForeignToplevel {
                    key: entry.key,
                    id: entry.id.clone(),
                    title: entry.title.clone(),
                    app_id,
                };
                self.entries.set(at, changed);
                proof {
                    assert(self@ =~= known.update(
                        at as int,
                        ToplevelView { app_id: app_id@, ..known[at as int] },
                    ));
                    lemma_update_keeps_keys(known, self@, at as int);
                }
            },
            ToplevelEvent::Identifier(id) => {
                let entry = &self.entries[at];
                let changed = ForeignToplevel {
                    key: entry.key,
                    id,
                    title: entry.title.clone(),
                    app_id: entry.app_id.clone(),
                };
                self.entries.set(at, changed);
                proof {
                    assert(self@ =~= known.update(
                        at as int,
                        ToplevelView { id: id@, ..known[at as int] },
                    ));
                    lemma_update_keeps_keys(known, self@, at as int);
                }
            },
            ToplevelEvent::Other => {},
        }
        closed
    }

    /// The key of the first window whose identity is `id`.
    pub fn find(&self, id: &str) -> (key: Option<u32>)
        ensures
            match first_where(self@, toplevel_identified(id@)) {
                Some(i) => key == Some(self@[i].key),
                None => key is None,
            },
    {
        let mut i: usize = 0;
        while i < self.entries.len()
            invariant
                i <= self.entries@.len(),
                forall|k: int| 0 <= k < i ==> !toplevel_identified(id@)(#[trigger] self@[k]),
            decreases self.entries@.len() - i,
        {
            if same_text(self.entries[i].id.as_str(), id) {
                proof {
                    assert(toplevel_identified(id@)(self@[i as int]));
                    lemma_first_where_is(self@, toplevel_identified(id@), i as int);
                }
                return Some(self.entries[i].key);
            }
            i += 1;
        }
        proof {
            lemma_first_where(self@, toplevel_identified(id@));
        }
        None
    }

    /// The windows sorted by application id, windows of the same application
    /// in the order they were announced.
    pub fn listing(&self) -> (listed: Vec<ForeignToplevel>)
        ensures
            is_toplevel_listing(self@, toplevel_views(listed@)),
    {
        let mut app_ids: Vec<String> = Vec::new();
        let mut i: usize = 0;
        while i < self.entries.len()
            invariant
                i <= self.entries@.len(),
                app_ids@.len() == i,
                forall|k: int|
                    0 <= k < i ==> (#[trigger] app_ids@[k])@ == self.entries@[k].app_id@,
            decreases self.entries@.len() - i,
        {
            app_ids.push(self.entries[i].app_id.clone());
            i += 1;
        }
        assert(keys_of(app_ids@) =~= toplevel_app_ids(self@));
        let order = listing_order(&app_ids);
        let ghost places = positions(order@);
        let mut listed: Vec<ForeignToplevel> = Vec::new();
        let mut k: usize = 0;
        while k < order.len()
            invariant
                k <= order@.len(),
                places == positions(order@),
                is_listing_order(toplevel_app_ids(self@), places),
                toplevel_app_ids(self@).len() == self.entries@.len(),
                listed@.len() == k,
                forall|j: int| 0 <= j < k ==> (#[trigger] listed@[j])@ == self@[places[j]],
            decreases order@.len() - k,
        {
            let at: usize = order[k];
            assert(places[k as int] == at);
            let entry = &self.entries[at];
            listed.push(
                ForeignToplevel {
                    key: entry.key,
                    id: entry.id.clone(),
                    title: entry.title.clone(),
                    app_id: entry.app_id.clone(),
                },
            );
            k += 1;
        }
        proof {
            let views = toplevel_views(listed@);
            assert(views.len() == places.len());
            assert forall|j: int| 0 <= j < views.len() implies #[trigger] views[j]
                == self@[places[j]] by {
                assert(listed@[j]@ == self@[places[j]]);
            }
        }
        listed
    }
}

/// Changing a window's attributes, not its key, leaves the keys distinct.
proof fn lemma_update_keeps_keys(before: Seq<ToplevelView>, after: Seq<ToplevelView>, at: int)
    requires
        toplevel_keys_distinct(before),
        0 <= at < before.len(),
        after.len() == before.len(),
        after[at].key == before[at].key,
        forall|j: int| 0 <= j < before.len() && j != at ==> after[j] == before[j],
    ensures
        toplevel_keys_distinct(after),
{
    assert forall|a: int, b: int| 0 <= a < b < after.len() implies (#[trigger] after[a]).key != (
    #[trigger] after[b]).key by {
        assert(before[a].key != before[b].key);
    }
}

/// A listing of outputs holds each output of the table once and nothing
/// else, and no name in it comes before the name in front of it.
pub proof fn lemma_output_listing(outputs: Seq<OutputView>, listed: Seq<OutputView>)
    requires
        is_output_listing(outputs, listed),
    ensures
        listed.len() == outputs.len(),
        forall|i: int, j: int|
            0 <= i < j < listed.len() ==> !bytes_lt(
                sort_key((#[trigger] listed[j]).name),
                sort_key((#[trigger] listed[i]).name),
            ),
        forall|k: int| 0 <= k < outputs.len() ==> listed.contains(#[trigger] outputs[k]),
        forall|i: int| 0 <= i < listed.len() ==> outputs.contains(#[trigger] listed[i]),
{
    let keys = output_names(outputs);
    let order = choose|order: Seq<int>|
        {
            &&& is_listing_order(keys, order)
            &&& #[trigger] listed.len() == order.len()
            &&& forall|i: int| 0 <= i < listed.len() ==> #[trigger] listed[i] == outputs[order[i]]
        };
    assert forall|i: int, j: int| 0 <= i < j < listed.len() implies !bytes_lt(
        sort_key((#[trigger] listed[j]).name),
        sort_key((#[trigger] listed[i]).name),
    ) by {
        assert(crate::order::listed_before(keys, order[i], order[j]));
        lemma_bytes_lt_total(keys[order[i]], keys[order[j]]);
        lemma_bytes_lt_irreflexive(keys[order[i]]);
    }
    assert forall|k: int| 0 <= k < outputs.len() implies listed.contains(
        #[trigger] outputs[k],
    ) by {
        assert(order.contains(k));
        let i = choose|i: int| 0 <= i < order.len() && order[i] == k;
        assert(listed[i] == outputs[k]);
    }
    assert forall|i: int| 0 <= i < listed.len() implies outputs.contains(#[trigger] listed[i]) by {
        assert(outputs[order[i]] == listed[i]);
    }
}

/// A listing of windows holds each window of the table once and nothing
/// else, and no application id in it comes before the one in front of it.
pub proof fn lemma_toplevel_listing(toplevels: Seq<ToplevelView>, listed: Seq<ToplevelView>)
    requires
        is_toplevel_listing(toplevels, listed),
    ensures
        listed.len() == toplevels.len(),
        forall|i: int, j: int|
            0 <= i < j < listed.len() ==> !bytes_lt(
                sort_key((#[trigger] listed[j]).app_id),
                sort_key((#[trigger] listed[i]).app_id),
            ),
        forall|k: int| 0 <= k < toplevels.len() ==> listed.contains(#[trigger] toplevels[k]),
        forall|i: int| 0 <= i < listed.len() ==> toplevels.contains(#[trigger] listed[i]),
{
    let keys = toplevel_app_ids(toplevels);
    let order = choose|order: Seq<int>|
        {
            &&& is_listing_order(keys, order)
            &&& #[trigger] listed.len() == order.len()
            &&& forall|i: int|
                0 <= i < listed.len() ==> #[trigger] listed[i] == toplevels[order[i]]
        };
    assert forall|i: int, j: int| 0 <= i < j < listed.len() implies !bytes_lt(
        sort_key((#[trigger] listed[j]).app_id),
        sort_key((#[trigger] listed[i]).app_id),
    ) by {
        assert(crate::order::listed_before(keys, order[i], order[j]));
        lemma_bytes_lt_total(keys[order[i]], keys[order[j]]);
        lemma_bytes_lt_irreflexive(keys[order[i]]);
    }
    assert forall|k: int| 0 <= k < toplevels.len() implies listed.contains(
        #[trigger] toplevels[k],
    ) by {
        assert(order.contains(k));
        let i = choose|i: int| 0 <= i < order.len() && order[i] == k;
        assert(listed[i] == toplevels[k]);
    }
    assert forall|i: int| 0 <= i < listed.len() implies toplevels.contains(
        #[trigger] listed[i],
    ) by {
        assert(toplevels[order[i]] == listed[i]);
    }
}

/// How the search for the target ended.
#[derive(Debug)]
pub enum Resolution {
    /// No target was named: these are the outputs and the windows there
    /// are, to be shown before the program ends.
    Listing { outputs: Vec<Output>, toplevels: Vec<ForeignToplevel> },
    /// No output has the name asked for: these are the outputs there are.
    UnknownOutput { name: String, outputs: Vec<Output> },
    /// No window has the identity asked for: these are the windows there
    /// are.
    UnknownToplevel { id: String, toplevels: Vec<ForeignToplevel> },
    /// The source to capture from.
    Found(Source),
}

/// `r` is what searching `target` among these outputs and windows gives:
/// the two sorted listings where nothing was named, the first output or
/// window that has the name or identity asked for, and where there is none,
/// what was asked for with the sorted listing of its kind.
pub open spec fn is_resolution(
    target: TargetView,
    outputs: Seq<OutputView>,
    toplevels: Seq<ToplevelView>,
    r: Resolution,
) -> bool {
    match target {
        TargetView::Unspecified => {
            &&& r matches Resolution::Listing { outputs: o, toplevels: t }
            &&& is_output_listing(outputs, output_views(o@))
            &&& is_toplevel_listing(toplevels, toplevel_views(t@))
        },
        TargetView::Output(name) => match first_where(outputs, output_named(name)) {
            Some(i) => r == Resolution::Found(Source::Output { key: outputs[i].key }),
            None => {
                &&& r matches Resolution::UnknownOutput { name: n, outputs: o }
                &&& n@ == name
                &&& is_output_listing(outputs, output_views(o@))
            },
        },
        TargetView::Toplevel(id) => match first_where(toplevels, toplevel_identified(id)) {
            Some(i) => r == Resolution::Found(Source::Toplevel { key: toplevels[i].key }),
            None => {
                &&& r matches Resolution::UnknownToplevel { id: n, toplevels: t }
                &&& n@ == id
                &&& is_toplevel_listing(toplevels, toplevel_views(t@))
            },
        },
    }
}

impl Resolution {
    /// The code that the program ends with after this resolution: 0 after a
    /// listing that was asked for, 1 where the target was not found, and
    /// none where a source was found and the capture goes on.
    pub open spec fn exit_code_spec(&self) -> Option<i32> {
        match self {
            Resolution::Listing { .. } => Some(0i32),
            Resolution::UnknownOutput { .. } => Some(1i32),
            Resolution::UnknownToplevel { .. } => Some(1i32),
            Resolution::Found(_) => None,
        }
    }

    /// The code that the program ends with, if it ends here.
    pub fn exit_code(&self) -> (code: Option<i32>)
        ensures
            code == self.exit_code_spec(),
    {
        match self {
            Resolution::Listing { .. } => Some(0),
            Resolution::UnknownOutput { .. } => Some(1),
            Resolution::UnknownToplevel { .. } => Some(1),
            Resolution::Found(_) => None,
        }
    }
}

/// Searches the target among the outputs and windows that are known.
///
/// Without a target both tables are listed, outputs sorted by name and
/// windows by application id, and the program is to end with code 0. A
/// named output or window resolves to the first entry that has the name or
/// identity. Where there is none, the listing of that kind is returned with
/// what was asked for, and the program is to end with code 1.
pub fn resolve(target: &Target, outputs: &OutputTable, toplevels: &ToplevelTable) -> (r:
    Resolution)
    ensures
        is_resolution(target@, outputs@, toplevels@, r),
        r.exit_code_spec() == (match target@ {
            TargetView::Unspecified => Some(0i32),
            TargetView::Output(name) => if first_where(outputs@, output_named(name)) is Some {
                None
            } else {
                Some(1i32)
            },
            TargetView::Toplevel(id) => if first_where(toplevels@, toplevel_identified(id))
                is Some {
                None
            } else {
                Some(1i32)
            },
        }),
{
    match target {
        Target::Unspecified => Resolution::Listing {
            outputs: outputs.listing(),
            toplevels: toplevels.listing(),
        },
        Target::Output(name) => match outputs.find(name.as_str()) {
            Some(key) => Resolution::Found(Source::Output { key }),
            None => Resolution::UnknownOutput { name: name.clone(), outputs: outputs.listing() },
        },
        Target::Toplevel(id) => match toplevels.find(id.as_str()) {
            Some(key) => Resolution::Found(Source::Toplevel { key }),
            None => Resolution::UnknownToplevel { id: id.clone(), toplevels: toplevels.listing() },
        },
    }
}

} // verus!
