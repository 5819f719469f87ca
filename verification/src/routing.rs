//! Which load an event of the player belongs to, and what a failed load means.
//!
//! The player gives every file that it plays an entry id, and its events name
//! it. An event is about the load that was submitted under its id, never about
//! whichever load is newest; one with an id that no load has, such as that of
//! an entry that a playlist was expanded into, is about none. An event that
//! names no id is about the oldest load. A load leaves the list only by its own
//! event.

use std::collections::VecDeque;

use vstd::prelude::*;

use crate::queue;
use crate::queue::QueueMove;

verus! {

/// One load that was submitted to the player.
#[derive(Debug)]
pub struct Load {
    /// The entry id that the player gave it, where it is known.
    pub entry: Option<i64>,
    pub url: String,
    /// The sender did not say what the URL is, so that this load also asks
    /// whether it is media; if it never loads, it may be a web page.
    pub probing: bool,
    /// The player has opened it. From then on it is media.
    pub loaded: bool,
    /// Another load was submitted after it.
    pub superseded: bool,
    /// The move of the queue that is taken back if this load fails.
    pub moved: Option<QueueMove>,
}

/// A load, with its URL as a text.
#[verifier::ext_equal]
pub struct LoadView {
    pub entry: Option<i64>,
    pub url: Seq<char>,
    pub probing: bool,
    pub loaded: bool,
    pub superseded: bool,
    pub moved: Option<QueueMove>,
}

impl View for Load {
    type V = LoadView;

    open spec fn view(&self) -> LoadView {
        LoadView {
            entry: self.entry,
            url: self.url@,
            probing: self.probing,
            loaded: self.loaded,
            superseded: self.superseded,
            moved: self.moved,
        }
    }
}

/// What to do about an error that ended a load.
#[derive(Debug, PartialEq, Eq)]
pub enum Resolution {
    /// The newest attempt, which was a probe and never loaded: show its URL as
    /// a web page.
    FallBack(String),
    /// The sender said that it is media, or it had loaded: an error.
    PlaybackError(String),
    /// A probe that failed after a newer load was submitted, which owns the
    /// screen: nothing.
    Superseded(String),
}

/// A resolution, with its URL as a text.
pub enum ResolutionView {
    FallBack(Seq<char>),
    PlaybackError(Seq<char>),
    Superseded(Seq<char>),
}

impl View for Resolution {
    type V = ResolutionView;

    open spec fn view(&self) -> ResolutionView {
        match self {
            Resolution::FallBack(url) => ResolutionView::FallBack(url@),
            Resolution::PlaybackError(url) => ResolutionView::PlaybackError(url@),
            Resolution::Superseded(url) => ResolutionView::Superseded(url@),
        }
    }
}

/// The loads that are not resolved yet, oldest first.
#[derive(Debug)]
pub struct Routing {
    pub loads: VecDeque<Load>,
}

impl View for Routing {
    type V = Seq<LoadView>;

    open spec fn view(&self) -> Seq<LoadView> {
        Seq::new(self.loads@.len(), |i: int| self.loads@[i]@)
    }
}

/// What happens to the list of loads. `entry` is the id of the load submitted,
/// or the id that an event names.
pub enum Happening {
    Submit { entry: Option<i64>, url: Seq<char>, probing: bool, moved: Option<QueueMove> },
    FileLoaded { entry: Option<i64> },
    End { entry: Option<i64> },
    Error { entry: Option<i64> },
    Cancel,
}

/// A load that has just been submitted.
pub open spec fn new_load(
    entry: Option<i64>,
    url: Seq<char>,
    probing: bool,
    moved: Option<QueueMove>,
) -> LoadView {
    LoadView { entry, url, probing, loaded: false, superseded: false, moved }
}

/// A load that nothing is to be decided about any more.
pub open spec fn cancelled(load: LoadView) -> LoadView {
    LoadView { probing: false, moved: None, ..load }
}

/// A load after which another one was submitted.
pub open spec fn overtaken(load: LoadView) -> LoadView {
    LoadView { superseded: true, ..load }
}

/// Where in the list the load is that an event with this id is about; the end
/// of the list where there is none.
pub open spec fn place(loads: Seq<LoadView>, entry: Option<i64>) -> nat
    decreases loads.len(),
{
    if loads.len() == 0 || entry is None || loads[0].entry == entry {
        0
    } else {
        1 + place(loads.drop_first(), entry)
    }
}

/// Whether an event with this id is about a load in the list.
pub open spec fn listed(loads: Seq<LoadView>, entry: Option<i64>) -> bool {
    place(loads, entry) < loads.len()
}

/// Where in the list the first load is that moved the queue; the end of the
/// list where there is none.
pub open spec fn first_move(loads: Seq<LoadView>) -> nat
    decreases loads.len(),
{
    if loads.len() == 0 || loads[0].moved is Some {
        0
    } else {
        1 + first_move(loads.drop_first())
    }
}

/// The loads submitted after one that failed, whose move was `moved`: the next
/// one that moved the queue moved it away from the failed item, and is now to
/// go back to where the queue was before that.
pub open spec fn handed_on(newer: Seq<LoadView>, moved: QueueMove) -> Seq<LoadView> {
    let k = first_move(newer) as int;
    if k < newer.len() && newer[k].moved->0.from == Some(moved.to) {
        newer.update(
            k,
            LoadView {
                moved: Some(QueueMove { from: moved.from, to: newer[k].moved->0.to }),
                ..newer[k]
            },
        )
    } else {
        newer
    }
}

/// The loads after the one at `i` has failed.
pub open spec fn failed(loads: Seq<LoadView>, i: int) -> Seq<LoadView> {
    let newer = loads.skip(i + 1);
    loads.take(i) + if loads[i].moved is Some && !loads[i].loaded {
        handed_on(newer, loads[i].moved->0)
    } else {
        newer
    }
}

/// The unresolved loads after something has happened.
pub open spec fn after(loads: Seq<LoadView>, happening: Happening) -> Seq<LoadView> {
    match happening {
        Happening::Submit { entry, url, probing, moved } => Seq::new(
            loads.len(),
            |i: int| overtaken(loads[i]),
        ).push(new_load(entry, url, probing, moved)),
        Happening::FileLoaded { entry } => if listed(loads, entry) {
            let i = place(loads, entry) as int;
            loads.update(i, LoadView { loaded: true, ..loads[i] })
        } else {
            loads
        },
        Happening::End { entry } => if listed(loads, entry) {
            loads.remove(place(loads, entry) as int)
        } else {
            loads
        },
        Happening::Error { entry } => if listed(loads, entry) {
            failed(loads, place(loads, entry) as int)
        } else {
            loads
        },
        Happening::Cancel => Seq::new(loads.len(), |i: int| cancelled(loads[i])),
    }
}

/// What an error with this id means now: `None` where it is about no load.
pub open spec fn meaning(loads: Seq<LoadView>, entry: Option<i64>) -> Option<ResolutionView> {
    let load = loads[place(loads, entry) as int];
    if !listed(loads, entry) {
        None
    } else if !load.probing || load.loaded {
        Some(ResolutionView::PlaybackError(load.url))
    } else if !load.superseded {
        Some(ResolutionView::FallBack(load.url))
    } else {
        Some(ResolutionView::Superseded(load.url))
    }
}

/// The move of the queue that an error with this id takes back: that of its
/// load, where it never loaded and no load submitted since has moved the queue.
pub open spec fn failed_move(loads: Seq<LoadView>, entry: Option<i64>) -> Option<QueueMove> {
    let i = place(loads, entry) as int;
    let newer = loads.skip(i + 1);
    if listed(loads, entry) && !loads[i].loaded && first_move(newer) == newer.len() {
        loads[i].moved
    } else {
        None
    }
}

proof fn lemma_place(loads: Seq<LoadView>, entry: Option<i64>)
    ensures
        place(loads, entry) <= loads.len(),
        listed(loads, entry) && entry is Some ==> loads[place(loads, entry) as int].entry == entry,
        forall|j: int|
            0 <= j < place(loads, entry) ==> (#[trigger] loads[j]).entry != entry,
    decreases loads.len(),
{
    if !(loads.len() == 0 || entry is None || loads[0].entry == entry) {
        let rest = loads.drop_first();
        lemma_place(rest, entry);
        assert forall|j: int| 0 <= j < place(loads, entry) implies (#[trigger] loads[j]).entry
            != entry by {
            if j > 0 {
                assert(rest[j - 1] == loads[j]);
            }
        }
    }
}

proof fn lemma_place_is(loads: Seq<LoadView>, entry: Option<i64>, i: int)
    requires
        entry is Some,
        0 <= i <= loads.len(),
        i < loads.len() ==> loads[i].entry == entry,
        forall|j: int| 0 <= j < i ==> (#[trigger] loads[j]).entry != entry,
    ensures
        place(loads, entry) == i,
    decreases loads.len(),
{
    if i > 0 {
        let rest = loads.drop_first();
        assert forall|j: int| 0 <= j < i - 1 implies (#[trigger] rest[j]).entry != entry by {
            assert(rest[j] == loads[j + 1]);
        }
        assert(loads[0].entry != entry);
        lemma_place_is(rest, entry, i - 1);
    }
}

proof fn lemma_first_move(loads: Seq<LoadView>)
    ensures
        first_move(loads) <= loads.len(),
        first_move(loads) < loads.len() ==> loads[first_move(loads) as int].moved is Some,
        forall|j: int| 0 <= j < first_move(loads) ==> (#[trigger] loads[j]).moved is None,
    decreases loads.len(),
{
    if loads.len() > 0 && loads[0].moved is None {
        let rest = loads.drop_first();
        lemma_first_move(rest);
        assert forall|j: int| 0 <= j < first_move(loads) implies (#[trigger] loads[j]).moved
            is None by {
            if j > 0 {
                assert(rest[j - 1] == loads[j]);
            }
        }
    }
}

proof fn lemma_first_move_is(loads: Seq<LoadView>, i: int)
    requires
        0 <= i <= loads.len(),
        i < loads.len() ==> loads[i].moved is Some,
        forall|j: int| 0 <= j < i ==> (#[trigger] loads[j]).moved is None,
    ensures
        first_move(loads) == i,
    decreases loads.len(),
{
    if i > 0 {
        let rest = loads.drop_first();
        assert forall|j: int| 0 <= j < i - 1 implies (#[trigger] rest[j]).moved is None by {
            assert(rest[j] == loads[j + 1]);
        }
        assert(loads[0].moved is None);
        lemma_first_move_is(rest, i - 1);
    }
}

impl Default for Routing {
    fn default() -> (r: Routing)
        ensures
            r@ == Seq::<LoadView>::empty(),
    {
        let r: Routing = Routing { loads: VecDeque::new() };
        assert(r@ =~= Seq::<LoadView>::empty());
        r
    }
}

impl Routing {
    /// Put `load` in the place of the one at `i`.
    fn replace(&mut self, i: usize, load: Load)
        requires
            i < old(self).loads@.len(),
        ensures
            final(self).loads@ == old(self).loads@.update(i as int, load),
    {
        let ghost before = self.loads@;
        let _ = self.loads.remove(i);
        self.loads.insert(i, load);
        assert(self.loads@ =~= before.update(i as int, load));
    }

    /// Where the load is that an event with this id is about.
    fn find(&self, entry: Option<i64>) -> (i: usize)
        ensures
            i == place(self@, entry),
            i <= self.loads@.len(),
    {
        match entry {
            None => 0,
            Some(id) => {
                let n: usize = self.loads.len();
                let mut i: usize = 0;
                while i < n
                    invariant
                        i <= n,
                        n == self.loads@.len(),
                        entry == Some(id),
                        forall|j: int| 0 <= j < i ==> (#[trigger] self@[j]).entry != entry,
                    decreases n - i,
                {
                    let load: &Load = &self.loads[i];
                    assert(load@ == self@[i as int]);
                    if let Some(other) = load.entry {
                        if other == id {
                            proof {
                                lemma_place_is(self@, entry, i as int);
                            }
                            return i;
                        }
                    }
                    i = i + 1;
                }
                proof {
                    lemma_place_is(self@, entry, i as int);
                }
                i
            },
        }
    }

    /// A load has just been submitted to the player, under an id that is not
    /// known.
    pub fn submit(&mut self, url: &str, probing: bool)
        ensures
            final(self)@ == after(
                old(self)@,
                Happening::Submit { entry: None, url: url@, probing, moved: None },
            ),
    {
        self.submit_item(None, url, probing, None)
    }

    /// A load has just been submitted to the player under the id `entry`, of
    /// the queue item that `moved` made current, if it is one's.
    pub fn submit_item(
        &mut self,
        entry: Option<i64>,
        url: &str,
        probing: bool,
        moved: Option<QueueMove>,
    )
        ensures
            final(self)@ == after(
                old(self)@,
                Happening::Submit { entry, url: url@, probing, moved },
            ),
    {
        let ghost before = self@;
        let n: usize = self.loads.len();
        let mut i: usize = 0;
        while i < n
            invariant
                i <= n,
                n == before.len(),
                self.loads@.len() == n,
                forall|j: int| 0 <= j < i ==> (#[trigger] self.loads@[j])@ == overtaken(before[j]),
                forall|j: int| i <= j < n ==> (#[trigger] self.loads@[j])@ == before[j],
            decreases n - i,
        {
            let ghost mid = self.loads@;
            let old_load: &Load = &self.loads[i];
            let load: Load = Load {
                entry: old_load.entry,
                url: old_load.url.clone(),
                probing: old_load.probing,
                loaded: old_load.loaded,
                superseded: true,
                moved: old_load.moved,
            };
            assert(load@ =~= overtaken(before[i as int]));
            self.replace(i, load);
            assert(forall|j: int| 0 <= j < n && j != i ==> #[trigger] self.loads@[j] == mid[j]);
            i = i + 1;
        }
        self.loads.push_back(
            Load { entry, url: url.to_string(), probing, loaded: false, superseded: false, moved },
        );
        assert(self@ =~= after(before, Happening::Submit { entry, url: url@, probing, moved }));
    }

    /// The player opened the oldest unresolved load.
    pub fn file_loaded(&mut self)
        ensures
            final(self)@ == after(old(self)@, Happening::FileLoaded { entry: None }),
    {
        self.entry_loaded(None)
    }

    /// The player opened the entry with this id.
    pub fn entry_loaded(&mut self, entry: Option<i64>)
        ensures
            final(self)@ == after(old(self)@, Happening::FileLoaded { entry }),
    {
        let ghost before = self@;
        let i: usize = self.find(entry);
        if i < self.loads.len() {
            let old_load: &Load = &self.loads[i];
            assert(old_load@ == before[i as int]);
            let load: Load = Load {
                entry: old_load.entry,
                url: old_load.url.clone(),
                probing: old_load.probing,
                loaded: true,
                superseded: old_load.superseded,
                moved: old_load.moved,
            };
            self.replace(i, load);
        }
        assert(self@ =~= after(before, Happening::FileLoaded { entry }));
    }

    /// The oldest unresolved load ended without an error: it is over.
    pub fn resolve_end(&mut self)
        ensures
            final(self)@ == after(old(self)@, Happening::End { entry: None }),
    {
        self.entry_ended(None)
    }

    /// The entry with this id ended without an error: its load is over.
    pub fn entry_ended(&mut self, entry: Option<i64>)
        ensures
            final(self)@ == after(old(self)@, Happening::End { entry }),
    {
        let ghost before = self@;
        let i: usize = self.find(entry);
        let _ = self.loads.remove(i);
        assert(self@ =~= after(before, Happening::End { entry }));
    }

    /// The oldest unresolved load ended with an error: what this means, or
    /// `None` where no load was unresolved.
    pub fn resolve_error(&mut self) -> (r: Option<Resolution>)
        ensures
            final(self)@ == after(old(self)@, Happening::Error { entry: None }),
            match r {
                Some(resolution) => meaning(old(self)@, None) == Some(resolution@),
                None => meaning(old(self)@, None) is None,
            },
    {
        self.entry_failed(None).0
    }

    /// The loads from `from` on were submitted after one that failed, whose
    /// move was `moved`.
    fn hand_on(&mut self, from: usize, moved: QueueMove) -> (handed: bool)
        requires
            from <= old(self)@.len(),
        ensures
            final(self)@ == old(self)@.take(from as int) + handed_on(
                old(self)@.skip(from as int),
                moved,
            ),
            handed == (first_move(old(self)@.skip(from as int)) < old(self)@.skip(
                from as int,
            ).len()),
    {
        let ghost before = self@;
        let ghost newer = before.skip(from as int);
        let n: usize = self.loads.len();
        let mut i: usize = from;
        while i < n
            invariant
                from <= i <= n,
                n == self.loads@.len(),
                self@ == before,
                before == old(self)@,
                newer == before.skip(from as int),
                forall|j: int| 0 <= j < i - from ==> (#[trigger] newer[j]).moved is None,
            decreases n - i,
        {
            let load: &Load = &self.loads[i];
            assert(load@ == newer[i - from]);
            if let Some(later) = load.moved {
                proof {
                    lemma_first_move_is(newer, i - from);
                }
                if later.from == Some(moved.to) {
                    let load: Load = Load {
                        entry: load.entry,
                        url: load.url.clone(),
                        probing: load.probing,
                        loaded: load.loaded,
                        superseded: load.superseded,
                        moved: Some(QueueMove { from: moved.from, to: later.to }),
                    };
                    self.replace(i, load);
                }
                assert(self@ =~= before.take(from as int) + handed_on(newer, moved));
                return true;
            }
            i = i + 1;
        }
        proof {
            lemma_first_move_is(newer, n - from);
        }
        assert(self@ =~= before.take(from as int) + handed_on(newer, moved));
        false
    }

    /// The entry with this id ended with an error: what this means, or `None`
    /// where it is about no load, and the move of the queue that it takes back.
    pub fn entry_failed(&mut self, entry: Option<i64>) -> (r: (
        Option<Resolution>,
        Option<QueueMove>,
    ))
        ensures
            final(self)@ == after(old(self)@, Happening::Error { entry }),
            match r.0 {
                Some(resolution) => meaning(old(self)@, entry) == Some(resolution@),
                None => meaning(old(self)@, entry) is None,
            },
            r.1 == failed_move(old(self)@, entry),
    {
        let ghost before = self@;
        let i: usize = self.find(entry);
        match self.loads.remove(i) {
            None => {
                assert(self@ =~= before);
                (None, None)
            },
            Some(load) => {
                let ghost newer = before.skip(i + 1);
                assert(load@ == before[i as int]);
                assert(self@ =~= before.take(i as int) + newer);
                assert(self@.take(i as int) =~= before.take(i as int));
                assert(self@.skip(i as int) =~= newer);
                let mut taken_back: Option<QueueMove> = None;
                if let Some(moved) = load.moved {
                    if !load.loaded {
                        if !self.hand_on(i, moved) {
                            taken_back = Some(moved);
                        }
                    }
                }
                proof {
                    lemma_first_move(newer);
                }
                assert(self@ =~= failed(before, i as int));
                if !load.probing || load.loaded {
                    (Some(Resolution::PlaybackError(load.url)), taken_back)
                } else if !load.superseded {
                    (Some(Resolution::FallBack(load.url)), taken_back)
                } else {
                    (Some(Resolution::Superseded(load.url)), taken_back)
                }
            },
        }
    }

    /// Nothing is to be decided about the loads under way any more. They stay
    /// in the list until their own events resolve them.
    pub fn cancel(&mut self)
        ensures
            final(self)@ == after(old(self)@, Happening::Cancel),
    {
        let ghost before = self@;
        let n: usize = self.loads.len();
        let mut i: usize = 0;
        while i < n
            invariant
                i <= n,
                n == before.len(),
                self.loads@.len() == n,
                forall|j: int| 0 <= j < i ==> (#[trigger] self.loads@[j])@ == cancelled(before[j]),
                forall|j: int| i <= j < n ==> (#[trigger] self.loads@[j])@ == before[j],
            decreases n - i,
        {
            let ghost mid = self.loads@;
            let old_load: &Load = &self.loads[i];
            let load: Load = Load {
                entry: old_load.entry,
                url: old_load.url.clone(),
                probing: false,
                loaded: old_load.loaded,
                superseded: old_load.superseded,
                moved: None,
            };
            assert(load@ =~= cancelled(before[i as int]));
            self.replace(i, load);
            assert(forall|j: int| 0 <= j < n && j != i ==> #[trigger] self.loads@[j] == mid[j]);
            i = i + 1;
        }
        assert(self@ =~= after(before, Happening::Cancel));
    }
}

// ---------------------------------------------------------------------------
// Laws
// ---------------------------------------------------------------------------

/// The unresolved loads after a history, which began with none.
pub open spec fn history(events: Seq<Happening>) -> Seq<LoadView> {
    replayed(Seq::empty(), events)
}

/// The unresolved loads after `events`, which began with `loads`.
pub open spec fn replayed(loads: Seq<LoadView>, events: Seq<Happening>) -> Seq<LoadView>
    decreases events.len(),
{
    if events.len() == 0 {
        loads
    } else {
        after(replayed(loads, events.drop_last()), events.last())
    }
}

/// The URLs submitted in a history, in order.
pub open spec fn submissions(events: Seq<Happening>) -> Seq<Seq<char>>
    decreases events.len(),
{
    if events.len() == 0 {
        Seq::empty()
    } else {
        let earlier = submissions(events.drop_last());
        match events.last() {
            Happening::Submit { url, .. } => earlier.push(url),
            _ => earlier,
        }
    }
}

/// Whether something that happened is about the entry `id` and submits nothing.
pub open spec fn is_about(happening: Happening, id: i64) -> bool {
    match happening {
        Happening::FileLoaded { entry } => entry == Some(id),
        Happening::End { entry } => entry == Some(id),
        Happening::Error { entry } => entry == Some(id),
        _ => false,
    }
}

/// Whether something that happened is an event of the player that names an
/// entry other than `id`.
pub open spec fn is_about_another(happening: Happening, id: i64) -> bool {
    exists|other: i64| other != id && #[trigger] is_about(happening, other)
}

/// Whether something that happened submits a load under `id`.
pub open spec fn submits(happening: Happening, id: i64) -> bool {
    happening matches Happening::Submit { entry, .. } && entry == Some(id)
}

/// A history without the events about the entry `id`.
pub open spec fn without(events: Seq<Happening>, id: i64) -> Seq<Happening>
    decreases events.len(),
{
    if events.len() == 0 {
        events
    } else {
        let earlier = without(events.drop_last(), id);
        if is_about(events.last(), id) {
            earlier
        } else {
            earlier.push(events.last())
        }
    }
}

spec fn knows(loads: Seq<LoadView>, id: i64) -> bool {
    exists|i: int| 0 <= i < loads.len() && (#[trigger] loads[i]).entry == Some(id)
}

proof fn lemma_ids_stay(loads: Seq<LoadView>, happening: Happening, id: i64)
    requires
        !knows(loads, id),
        !submits(happening, id),
    ensures
        !knows(after(loads, happening), id),
{
    let next = after(loads, happening);
    if knows(next, id) {
        let i = choose|i: int| 0 <= i < next.len() && (#[trigger] next[i]).entry == Some(id);
        match happening {
            Happening::Submit { .. } => {
                assert(i < loads.len());
                assert(loads[i].entry == Some(id));
            },
            Happening::FileLoaded { entry } => {
                assert(loads[i].entry == Some(id));
            },
            Happening::End { entry } => {
                if listed(loads, entry) && i >= place(loads, entry) {
                    assert(loads[i + 1].entry == Some(id));
                } else {
                    assert(loads[i].entry == Some(id));
                }
            },
            Happening::Error { entry } => {
                if listed(loads, entry) && i >= place(loads, entry) {
                    assert(loads[i + 1].entry == Some(id));
                } else {
                    assert(loads[i].entry == Some(id));
                }
            },
            Happening::Cancel => {
                assert(loads[i].entry == Some(id));
            },
        }
    }
}

proof fn lemma_unknown_ids_have_no_load(loads: Seq<LoadView>, id: i64)
    requires
        !knows(loads, id),
    ensures
        !listed(loads, Some(id)),
{
    lemma_place(loads, Some(id));
}

/// An event of an entry that was never submitted, such as one that a playlist
/// was expanded into, is put down to no load: the loads are those of the same
/// history without all such events, and its error means nothing and moves
/// nothing.
pub proof fn lemma_strangers_change_nothing(events: Seq<Happening>, stranger: i64)
    requires
        forall|i: int| 0 <= i < events.len() ==> !submits(#[trigger] events[i], stranger),
    ensures
        history(events) == history(without(events, stranger)),
        submissions(events) == submissions(without(events, stranger)),
        meaning(history(events), Some(stranger)) is None,
        failed_move(history(events), Some(stranger)) is None,
        after(history(events), Happening::FileLoaded { entry: Some(stranger) }) == history(events),
        after(history(events), Happening::End { entry: Some(stranger) }) == history(events),
        after(history(events), Happening::Error { entry: Some(stranger) }) == history(events),
{
    lemma_strangers_are_unknown(events, stranger);
    lemma_unknown_ids_have_no_load(history(events), stranger);
}

proof fn lemma_strangers_are_unknown(events: Seq<Happening>, stranger: i64)
    requires
        forall|i: int| 0 <= i < events.len() ==> !submits(#[trigger] events[i], stranger),
    ensures
        !knows(history(events), stranger),
        history(events) == history(without(events, stranger)),
        submissions(events) == submissions(without(events, stranger)),
    decreases events.len(),
{
    if events.len() > 0 {
        let earlier = events.drop_last();
        assert forall|i: int| 0 <= i < earlier.len() implies !submits(
            #[trigger] earlier[i],
            stranger,
        ) by {
            assert(earlier[i] == events[i]);
        }
        lemma_strangers_are_unknown(earlier, stranger);
        let last = events.last();
        assert(!submits(events[events.len() - 1], stranger));
        lemma_ids_stay(history(earlier), last, stranger);
        if is_about(last, stranger) {
            lemma_unknown_ids_have_no_load(history(earlier), stranger);
        } else {
            assert(without(events, stranger).drop_last() =~= without(earlier, stranger));
        }
    }
}

spec fn stands_last(loads: Seq<LoadView>, entry: i64, url: Seq<char>) -> bool {
    &&& loads.len() > 0
    &&& loads.last().entry == Some(entry)
    &&& loads.last().url == url
    &&& loads.last().probing
    &&& !loads.last().loaded
    &&& !loads.last().superseded
    &&& forall|i: int| 0 <= i < loads.len() - 1 ==> (#[trigger] loads[i]).entry != Some(entry)
}

proof fn lemma_the_last_load_stays(
    loads: Seq<LoadView>,
    happening: Happening,
    entry: i64,
    url: Seq<char>,
)
    requires
        stands_last(loads, entry, url),
        is_about_another(happening, entry),
    ensures
        stands_last(after(loads, happening), entry, url),
{
    let other = choose|other: i64| other != entry && #[trigger] is_about(happening, other);
    lemma_place(loads, Some(other));
    let i = place(loads, Some(other)) as int;
    let next = after(loads, happening);
    if listed(loads, Some(other)) {
        assert(i < loads.len() - 1);
        lemma_first_move(loads.skip(i + 1));
        if happening is FileLoaded {
            assert(forall|j: int|
                0 <= j < loads.len() ==> (#[trigger] next[j]).entry == loads[j].entry);
        } else {
            assert(next.len() == loads.len() - 1);
            assert(forall|j: int| 0 <= j < i ==> #[trigger] next[j] == loads[j]);
            assert forall|j: int| i <= j < next.len() implies (#[trigger] next[j]).entry == loads[j
                + 1].entry by {}
        }
    }
}

/// A URL that was submitted last and that the sender did not classify falls
/// back to the browser when its load fails, whatever the player has reported of
/// other entries meanwhile: of loads submitted before it, and of entries that
/// were never submitted.
pub proof fn lemma_the_newest_probe_falls_back_whatever_else_is_reported(
    loads: Seq<LoadView>,
    entry: i64,
    url: Seq<char>,
    moved: Option<QueueMove>,
    events: Seq<Happening>,
)
    requires
        forall|i: int| 0 <= i < loads.len() ==> (#[trigger] loads[i]).entry != Some(entry),
        forall|i: int| 0 <= i < events.len() ==> is_about_another(#[trigger] events[i], entry),
    ensures
        meaning(
            replayed(
                after(
                    loads,
                    Happening::Submit { entry: Some(entry), url, probing: true, moved },
                ),
                events,
            ),
            Some(entry),
        ) == Some(ResolutionView::FallBack(url)),
{
    let start = after(loads, Happening::Submit { entry: Some(entry), url, probing: true, moved });
    lemma_the_last_load_stays_through(start, events, entry, url);
    let end = replayed(start, events);
    lemma_place_is(end, Some(entry), end.len() - 1);
}

proof fn lemma_the_last_load_stays_through(
    loads: Seq<LoadView>,
    events: Seq<Happening>,
    entry: i64,
    url: Seq<char>,
)
    requires
        stands_last(loads, entry, url),
        forall|i: int| 0 <= i < events.len() ==> is_about_another(#[trigger] events[i], entry),
    ensures
        stands_last(replayed(loads, events), entry, url),
    decreases events.len(),
{
    if events.len() > 0 {
        let earlier = events.drop_last();
        assert forall|i: int| 0 <= i < earlier.len() implies is_about_another(
            #[trigger] earlier[i],
            entry,
        ) by {
            assert(earlier[i] == events[i]);
        }
        lemma_the_last_load_stays_through(loads, earlier, entry, url);
        assert(is_about_another(events[events.len() - 1], entry));
        lemma_the_last_load_stays(replayed(loads, earlier), events.last(), entry, url);
    }
}

/// Whether an event names no id.
pub open spec fn names_none(happening: Happening) -> bool {
    match happening {
        Happening::FileLoaded { entry } => entry is None,
        Happening::End { entry } => entry is None,
        Happening::Error { entry } => entry is None,
        _ => true,
    }
}

/// How many loads have been resolved in a history.
pub open spec fn resolved(events: Seq<Happening>) -> nat
    decreases events.len(),
{
    if events.len() == 0 {
        0
    } else {
        let earlier = resolved(events.drop_last());
        if (events.last() is End || events.last() is Error) && history(events.drop_last()).len()
            > 0 {
            earlier + 1
        } else {
            earlier
        }
    }
}

/// The URLs of a list of loads.
pub open spec fn urls(loads: Seq<LoadView>) -> Seq<Seq<char>> {
    Seq::new(loads.len(), |i: int| loads[i].url)
}

/// Where events name no id, loads are resolved in the order they were
/// submitted, each by one event of its own: what is unresolved is everything
/// submitted but for the first `resolved`, whatever was cancelled, loaded or
/// submitted in between.
pub proof fn lemma_events_resolve_in_submission_order(events: Seq<Happening>)
    requires
        forall|i: int| 0 <= i < events.len() ==> names_none(#[trigger] events[i]),
    ensures
        resolved(events) <= submissions(events).len(),
        urls(history(events)) == submissions(events).skip(resolved(events) as int),
    decreases events.len(),
{
    if events.len() > 0 {
        let earlier = events.drop_last();
        assert forall|i: int| 0 <= i < earlier.len() implies names_none(#[trigger] earlier[i]) by {
            assert(earlier[i] == events[i]);
        }
        assert(names_none(events[events.len() - 1]));
        lemma_events_resolve_in_submission_order(earlier);
        let loads = history(earlier);
        let k = resolved(earlier) as int;
        assert(urls(loads).len() == loads.len());
        match events.last() {
            Happening::Submit { entry, url, probing, moved } => {
                assert(urls(history(events)) =~= urls(loads).push(url));
                assert(submissions(events).skip(k) =~= submissions(earlier).skip(k).push(url));
            },
            Happening::FileLoaded { entry } => {
                assert(urls(history(events)) =~= urls(loads));
            },
            Happening::Cancel => {
                assert(urls(history(events)) =~= urls(loads));
            },
            Happening::End { entry } => {
                if loads.len() > 0 {
                    assert(urls(history(events)) =~= urls(loads).drop_first());
                    assert(submissions(events).skip(k + 1) =~= submissions(earlier).skip(
                        k,
                    ).drop_first());
                }
            },
            Happening::Error { entry } => {
                if loads.len() > 0 {
                    lemma_first_move(loads.skip(1));
                    assert(urls(history(events)) =~= urls(loads).drop_first());
                    assert(submissions(events).skip(k + 1) =~= submissions(earlier).skip(
                        k,
                    ).drop_first());
                }
            },
        }
    } else {
        assert(urls(history(events)) =~= submissions(events).skip(0));
    }
}

proof fn lemma_only_the_newest_is_not_superseded(events: Seq<Happening>, i: int)
    requires
        0 <= i < history(events).len(),
        !history(events)[i].superseded,
    ensures
        submissions(events).len() > 0,
        history(events)[i].url == submissions(events).last(),
    decreases events.len(),
{
    if events.len() > 0 {
        let earlier = events.drop_last();
        let loads = history(earlier);
        match events.last() {
            Happening::Submit { entry, url, probing, moved } => {
                if i < loads.len() {
                    assert(history(events)[i] == overtaken(loads[i]));
                }
            },
            Happening::FileLoaded { entry } => {
                lemma_only_the_newest_is_not_superseded(earlier, i);
            },
            Happening::Cancel => {
                lemma_only_the_newest_is_not_superseded(earlier, i);
            },
            Happening::End { entry } => {
                let k = if listed(loads, entry) && i >= place(loads, entry) {
                    i + 1
                } else {
                    i
                };
                lemma_only_the_newest_is_not_superseded(earlier, k);
            },
            Happening::Error { entry } => {
                lemma_first_move(loads.skip(place(loads, entry) as int + 1));
                let k = if listed(loads, entry) && i >= place(loads, entry) {
                    i + 1
                } else {
                    i
                };
                lemma_only_the_newest_is_not_superseded(earlier, k);
            },
        }
    }
}

/// Only the newest load can fall back to the browser, and only as a probe that
/// never loaded, whatever ids events name.
pub proof fn lemma_only_the_newest_probe_falls_back(
    events: Seq<Happening>,
    entry: Option<i64>,
    url: Seq<char>,
)
    requires
        meaning(history(events), entry) == Some(ResolutionView::FallBack(url)),
    ensures
        submissions(events).len() > 0,
        url == submissions(events).last(),
        history(events)[place(history(events), entry) as int].probing,
        !history(events)[place(history(events), entry) as int].loaded,
{
    lemma_only_the_newest_is_not_superseded(events, place(history(events), entry) as int);
}

proof fn lemma_cancelled_loads_stay_cancelled(loads: Seq<LoadView>, events: Seq<Happening>)
    requires
        forall|i: int|
            0 <= i < loads.len() ==> !(#[trigger] loads[i]).probing && loads[i].moved is None,
        forall|i: int| 0 <= i < events.len() ==> !(#[trigger] events[i] is Submit),
    ensures
        forall|i: int|
            0 <= i < replayed(loads, events).len() ==> !(#[trigger] replayed(
                loads,
                events,
            )[i]).probing && replayed(loads, events)[i].moved is None,
    decreases events.len(),
{
    if events.len() > 0 {
        let earlier = events.drop_last();
        assert forall|i: int| 0 <= i < earlier.len() implies !(#[trigger] earlier[i] is Submit) by {
            assert(earlier[i] == events[i]);
        }
        lemma_cancelled_loads_stay_cancelled(loads, earlier);
        assert(!(events[events.len() - 1] is Submit));
    }
}

/// After a cancel, nothing falls back to the browser, and no error moves the
/// queue, until something new is submitted, whatever events come in.
pub proof fn lemma_cancelled_loads_decide_nothing(
    loads: Seq<LoadView>,
    events: Seq<Happening>,
    entry: Option<i64>,
)
    requires
        forall|i: int| 0 <= i < events.len() ==> !(#[trigger] events[i] is Submit),
    ensures
        !(meaning(replayed(after(loads, Happening::Cancel), events), entry) matches Some(
            ResolutionView::FallBack(_),
        )),
        failed_move(replayed(after(loads, Happening::Cancel), events), entry) is None,
{
    lemma_cancelled_loads_stay_cancelled(after(loads, Happening::Cancel), events);
}

/// Once the player has opened a load, its failure is a playback error.
pub proof fn lemma_a_loaded_url_is_media(loads: Seq<LoadView>, entry: Option<i64>)
    requires
        listed(loads, entry),
    ensures
        meaning(after(loads, Happening::FileLoaded { entry }), entry) == Some(
            ResolutionView::PlaybackError(loads[place(loads, entry) as int].url),
        ),
{
    lemma_place(loads, entry);
    let next = after(loads, Happening::FileLoaded { entry });
    if entry is Some {
        assert forall|j: int| 0 <= j < place(loads, entry) implies (#[trigger] next[j]).entry
            != entry by {
            assert(next[j] == loads[j]);
        }
        lemma_place_is(next, entry, place(loads, entry) as int);
    }
}

/// Cancelling resolves nothing: every load keeps its place, and whether it was
/// opened.
pub proof fn lemma_cancel_keeps_every_load(loads: Seq<LoadView>, i: int)
    requires
        0 <= i < loads.len(),
    ensures
        after(loads, Happening::Cancel).len() == loads.len(),
        after(loads, Happening::Cancel)[i].entry == loads[i].entry,
        after(loads, Happening::Cancel)[i].url == loads[i].url,
        after(loads, Happening::Cancel)[i].loaded == loads[i].loaded,
{
}

/// Whether loads that never loaded moved the queue one after the other from
/// `start` to `end`; loads that did not move it may stand between them.
pub open spec fn chained(loads: Seq<LoadView>, start: Option<usize>, end: Option<usize>) -> bool
    decreases loads.len(),
{
    if loads.len() == 0 {
        start == end
    } else {
        match loads[0].moved {
            None => chained(loads.drop_first(), start, end),
            Some(m) => !loads[0].loaded && m.from == start && chained(
                loads.drop_first(),
                Some(m.to),
                end,
            ),
        }
    }
}

/// The queue after all of these loads have failed, oldest first.
pub open spec fn all_failed(q: queue::QueueView, loads: Seq<LoadView>) -> queue::QueueView
    decreases loads.len(),
{
    if loads.len() == 0 {
        q
    } else {
        all_failed(
            q.reverted(failed_move(loads, loads[0].entry)),
            after(loads, Happening::Error { entry: loads[0].entry }),
        )
    }
}

proof fn lemma_chain_of_none(loads: Seq<LoadView>, start: Option<usize>, end: Option<usize>)
    requires
        chained(loads, start, end),
        first_move(loads) == loads.len(),
    ensures
        start == end,
        forall|other: Option<usize>| #[trigger] chained(loads, other, other),
    decreases loads.len(),
{
    if loads.len() > 0 {
        lemma_first_move(loads.drop_first());
        lemma_chain_of_none(loads.drop_first(), start, end);
        assert forall|other: Option<usize>| #[trigger] chained(loads, other, other) by {
            assert(chained(loads.drop_first(), other, other));
        }
    }
}

proof fn lemma_handing_on_keeps_the_chain(
    newer: Seq<LoadView>,
    moved: QueueMove,
    end: Option<usize>,
)
    requires
        chained(newer, Some(moved.to), end),
        first_move(newer) < newer.len(),
    ensures
        chained(handed_on(newer, moved), moved.from, end),
    decreases newer.len(),
{
    let rest = newer.drop_first();
    let next = handed_on(newer, moved);
    if newer[0].moved is Some {
        assert(next.drop_first() =~= rest);
    } else {
        lemma_handing_on_keeps_the_chain(rest, moved, end);
        lemma_first_move(rest);
        assert(rest[first_move(rest) as int] == newer[first_move(newer) as int]);
        assert(next.drop_first() =~= handed_on(rest, moved));
        assert(next[0] == newer[0]);
    }
}

/// Failed items do not stick as current, however many of them were tried at
/// once: where each of several loads moved the queue on from the one before and
/// all of them fail, the queue is back where it was before the first.
pub proof fn lemma_failed_items_do_not_stick(
    q: queue::QueueView,
    loads: Seq<LoadView>,
    start: Option<usize>,
)
    requires
        chained(loads, start, q.position),
        q.still_there(start) == start,
    ensures
        all_failed(q, loads) == q.at(start),
    decreases loads.len(),
{
    if loads.len() == 0 {
        assert(q.at(start) =~= q);
    } else {
        let entry = loads[0].entry;
        let newer = loads.drop_first();
        assert(place(loads, entry) == 0);
        assert(loads.skip(1) =~= newer);
        lemma_first_move(newer);
        let next = after(loads, Happening::Error { entry });
        match loads[0].moved {
            None => {
                assert(next =~= newer);
                lemma_failed_items_do_not_stick(q, newer, start);
            },
            Some(m) => {
                assert(next =~= handed_on(newer, m));
                if first_move(newer) == newer.len() {
                    lemma_chain_of_none(newer, Some(m.to), q.position);
                    assert(chained(newer, start, start));
                    let back = q.reverted(Some(m));
                    assert(back =~= q.at(start));
                    lemma_failed_items_do_not_stick(back, newer, start);
                    assert(back.at(start) =~= q.at(start));
                } else {
                    lemma_handing_on_keeps_the_chain(newer, m, q.position);
                    lemma_failed_items_do_not_stick(q, next, start);
                }
            },
        }
    }
}

/// A load that moves the queue on from where it stands continues the chain.
pub proof fn lemma_a_move_continues_the_chain(
    loads: Seq<LoadView>,
    start: Option<usize>,
    moved: QueueMove,
    entry: Option<i64>,
    url: Seq<char>,
    probing: bool,
)
    requires
        chained(loads, start, moved.from),
    ensures
        chained(
            after(loads, Happening::Submit { entry, url, probing, moved: Some(moved) }),
            start,
            Some(moved.to),
        ),
    decreases loads.len(),
{
    let submit = Happening::Submit { entry, url, probing, moved: Some(moved) };
    let next = after(loads, submit);
    if loads.len() == 0 {
        assert(next.drop_first() =~= Seq::<LoadView>::empty());
        assert(chained(next.drop_first(), Some(moved.to), Some(moved.to)));
    } else {
        let rest = loads.drop_first();
        assert(next.drop_first() =~= after(rest, submit));
        assert(next[0] == overtaken(loads[0]));
        match loads[0].moved {
            None => {
                lemma_a_move_continues_the_chain(rest, start, moved, entry, url, probing);
            },
            Some(m) => {
                lemma_a_move_continues_the_chain(rest, Some(m.to), moved, entry, url, probing);
            },
        }
    }
}

/// Nothing of a load is left out of account.
pub proof fn lemma_a_load_is_all_its_fields(routing: Routing, i: int)
    requires
        0 <= i < routing.loads@.len(),
    ensures
        routing@.len() == routing.loads@.len(),
        routing@[i].entry == routing.loads@[i].entry,
        routing@[i].url == routing.loads@[i].url@,
        routing@[i].probing == routing.loads@[i].probing,
        routing@[i].loaded == routing.loads@[i].loaded,
        routing@[i].superseded == routing.loads@[i].superseded,
        routing@[i].moved == routing.loads@[i].moved,
{
}

/// A load that is submitted is the newest, is what it was submitted as, has not
/// loaded, and overtakes every other one, which stays as it is but for that.
pub proof fn lemma_what_submitting_does(
    loads: Seq<LoadView>,
    entry: Option<i64>,
    url: Seq<char>,
    probing: bool,
    moved: Option<QueueMove>,
    i: int,
)
    ensures
        ({
            let next = after(loads, Happening::Submit { entry, url, probing, moved });
            &&& next.len() == loads.len() + 1
            &&& next.last() == (LoadView {
                entry,
                url,
                probing,
                loaded: false,
                superseded: false,
                moved,
            })
            &&& new_load(entry, url, probing, moved) == next.last()
            &&& 0 <= i < loads.len() ==> next[i] == (LoadView { superseded: true, ..loads[i] })
            &&& 0 <= i < loads.len() ==> next[i] == overtaken(loads[i])
        }),
{
}

/// An event is about the load that was submitted under its id. That load is
/// open after it was opened, and over after it ended, and no other load changes
/// by that. What its error means is decided by that load alone: a page to show
/// where it was a probe that never loaded and is the newest, nothing where it
/// was such a probe and is not, and a playback error else.
pub proof fn lemma_what_an_event_is_about(loads: Seq<LoadView>, id: i64, i: int)
    requires
        0 <= i < loads.len(),
        loads[i].entry == Some(id),
        forall|j: int| 0 <= j < i ==> (#[trigger] loads[j]).entry != Some(id),
    ensures
        listed(loads, Some(id)),
        place(loads, Some(id)) == i,
        after(loads, Happening::FileLoaded { entry: Some(id) }) == loads.update(
            i,
            LoadView { loaded: true, ..loads[i] },
        ),
        after(loads, Happening::End { entry: Some(id) }) == loads.remove(i),
        loads[i].probing && !loads[i].loaded && !loads[i].superseded ==> meaning(loads, Some(id))
            == Some(ResolutionView::FallBack(loads[i].url)),
        loads[i].probing && !loads[i].loaded && loads[i].superseded ==> meaning(loads, Some(id))
            == Some(ResolutionView::Superseded(loads[i].url)),
        !loads[i].probing || loads[i].loaded ==> meaning(loads, Some(id)) == Some(
            ResolutionView::PlaybackError(loads[i].url),
        ),
{
    lemma_place_is(loads, Some(id), i);
}

/// An event that names no id is about the oldest load; where there is none, or
/// none has the id, it is about nothing, and changes nothing.
pub proof fn lemma_what_an_event_without_a_load_does(loads: Seq<LoadView>, entry: Option<i64>)
    requires
        loads.len() == 0 || (entry is Some && forall|j: int|
            0 <= j < loads.len() ==> (#[trigger] loads[j]).entry != entry),
    ensures
        !listed(loads, entry),
        meaning(loads, entry) is None,
        failed_move(loads, entry) is None,
        after(loads, Happening::FileLoaded { entry }) == loads,
        after(loads, Happening::End { entry }) == loads,
        after(loads, Happening::Error { entry }) == loads,
{
    lemma_place(loads, entry);
}

/// An event that names no id is about the oldest load.
pub proof fn lemma_an_event_without_an_id_is_about_the_oldest(loads: Seq<LoadView>)
    requires
        loads.len() > 0,
    ensures
        listed(loads, None),
        place(loads, None) == 0,
        after(loads, Happening::FileLoaded { entry: None }) == loads.update(
            0,
            LoadView { loaded: true, ..loads[0] },
        ),
        after(loads, Happening::End { entry: None }) == loads.drop_first(),
        loads[0].probing && !loads[0].loaded && !loads[0].superseded ==> meaning(loads, None)
            == Some(ResolutionView::FallBack(loads[0].url)),
        loads[0].probing && !loads[0].loaded && loads[0].superseded ==> meaning(loads, None)
            == Some(ResolutionView::Superseded(loads[0].url)),
        !loads[0].probing || loads[0].loaded ==> meaning(loads, None) == Some(
            ResolutionView::PlaybackError(loads[0].url),
        ),
{
    assert(loads.remove(0) =~= loads.drop_first());
}

/// A load that failed is gone, and the others keep their order and what they
/// are. Where it had moved the queue and never loaded, and the next load that
/// moved the queue moved it away from the failed item, that load would now go
/// back to where the queue was before both; no other move changes.
pub proof fn lemma_what_a_failure_does_to_the_others(loads: Seq<LoadView>, id: i64, i: int, j: int)
    requires
        0 <= i < loads.len(),
        loads[i].entry == Some(id),
        forall|k: int| 0 <= k < i ==> (#[trigger] loads[k]).entry != Some(id),
        0 <= j < loads.len() - 1,
    ensures
        ({
            let next = after(loads, Happening::Error { entry: Some(id) });
            &&& next.len() == loads.len() - 1
            &&& j < i ==> next[j] == loads[j]
            &&& j >= i ==> next[j] == (LoadView { moved: next[j].moved, ..loads[j + 1] })
            &&& loads[i].moved is None || loads[i].loaded ==> next == loads.remove(i)
            &&& j >= i && loads[j + 1].moved is None ==> next[j].moved is None
            &&& j >= i && (exists|k: int| i < k < j + 1 && (#[trigger] loads[k]).moved is Some)
                ==> next[j].moved == loads[j + 1].moved
            &&& j >= i && !loads[i].loaded && (forall|k: int|
                i < k < j + 1 ==> (#[trigger] loads[k]).moved is None) ==> (
            loads[i].moved matches Some(m) ==> (loads[j + 1].moved matches Some(later) ==> (
            next[j].moved == Some(
                QueueMove {
                    from: if later.from == Some(m.to) {
                        m.from
                    } else {
                        later.from
                    },
                    to: later.to,
                },
            ))))
        }),
{
    lemma_place_is(loads, Some(id), i);
    let newer = loads.skip(i + 1);
    lemma_first_move(newer);
    let next = after(loads, Happening::Error { entry: Some(id) });
    if loads[i].moved is None || loads[i].loaded {
        assert(next =~= loads.remove(i));
    }
    if j >= i {
        assert(newer[j - i] == loads[j + 1]);
        if exists|k: int| i < k < j + 1 && (#[trigger] loads[k]).moved is Some {
            let k = choose|k: int| i < k < j + 1 && (#[trigger] loads[k]).moved is Some;
            assert(newer[k - i - 1] == loads[k]);
            assert(first_move(newer) < j - i);
        } else {
            assert forall|k: int| 0 <= k < j - i implies (#[trigger] newer[k]).moved is None by {
                assert(newer[k] == loads[k + i + 1]);
            }
            if loads[j + 1].moved is Some {
                lemma_first_move_is(newer, j - i);
            }
        }
        assert(next[j] =~= LoadView { moved: next[j].moved, ..loads[j + 1] });
    }
}

/// The move that a failure takes back is that of the load that failed, where it
/// never loaded and no load submitted since has moved the queue; else it takes
/// back none.
pub proof fn lemma_which_move_a_failure_takes_back(loads: Seq<LoadView>, id: i64, i: int)
    requires
        0 <= i < loads.len(),
        loads[i].entry == Some(id),
        forall|j: int| 0 <= j < i ==> (#[trigger] loads[j]).entry != Some(id),
    ensures
        !loads[i].loaded && (forall|j: int|
            i < j < loads.len() ==> (#[trigger] loads[j]).moved is None) ==> failed_move(
            loads,
            Some(id),
        ) == loads[i].moved,
        loads[i].loaded || (exists|j: int|
            i < j < loads.len() && (#[trigger] loads[j]).moved is Some) ==> failed_move(
            loads,
            Some(id),
        ) is None,
{
    lemma_place_is(loads, Some(id), i);
    let newer = loads.skip(i + 1);
    lemma_first_move(newer);
    if exists|j: int| i < j < loads.len() && (#[trigger] loads[j]).moved is Some {
        let j = choose|j: int| i < j < loads.len() && (#[trigger] loads[j]).moved is Some;
        assert(newer[j - i - 1] == loads[j]);
    } else {
        assert forall|k: int| 0 <= k < newer.len() implies (#[trigger] newer[k]).moved is None by {
            assert(newer[k] == loads[k + i + 1]);
        }
        lemma_first_move_is(newer, newer.len() as int);
    }
}

/// A cancelled load is no probe any more and moves the queue no more; it stays
/// what it is else.
pub proof fn lemma_what_a_cancel_forgets(loads: Seq<LoadView>, i: int)
    requires
        0 <= i < loads.len(),
    ensures
        after(loads, Happening::Cancel).len() == loads.len(),
        after(loads, Happening::Cancel)[i] == (LoadView {
            probing: false,
            moved: None,
            ..loads[i]
        }),
{
}

/// A resolution is what it is seen as.
pub proof fn lemma_a_resolution_is_what_it_says(url: String)
    ensures
        Resolution::FallBack(url)@ == ResolutionView::FallBack(url@),
        Resolution::PlaybackError(url)@ == ResolutionView::PlaybackError(url@),
        Resolution::Superseded(url)@ == ResolutionView::Superseded(url@),
{
}

} // verus!
