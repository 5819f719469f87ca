//! The play queue: every item queued, in order, and which of them is current.
//!
//! An item is kept as the very message it was queued with, so that playing it
//! again does what the first time did. The queue is remembered in a file, and
//! a file that is missing or damaged costs no more than what it remembered.

use vstd::prelude::*;

use crate::fcast::{PlayMessage, QueueItemMessage, QueueStateMessage, Real};
use crate::fcast;
use crate::paths;
use crate::text;

verus! {

/// One item of the queue.
#[derive(Debug)]
pub struct QueueEntry {
    pub message: PlayMessage,
    /// Title and length, once they have been looked up.
    pub title: Option<String>,
    pub duration_secs: Option<Real>,
}

/// The play queue.
#[derive(Debug)]
pub struct Queue {
    pub items: Vec<QueueEntry>,
    /// Index of the current item: the one playing, paused or played last.
    pub position: Option<usize>,
}

/// An item of the queue, with its strings as texts.
#[verifier::ext_equal]
pub struct EntryView {
    pub message: fcast::PlayView,
    pub title: Option<Seq<char>>,
    pub duration_secs: Option<Real>,
}

/// A queue, with its strings as texts.
#[verifier::ext_equal]
pub struct QueueView {
    pub items: Seq<EntryView>,
    pub position: Option<usize>,
}

/// An item of the queue as a sender sees it.
#[verifier::ext_equal]
pub struct ItemView {
    pub url: Seq<char>,
    pub container: Option<Seq<char>>,
    pub title: Option<Seq<char>>,
    pub duration_secs: Option<Real>,
}

impl View for QueueEntry {
    type V = EntryView;

    open spec fn view(&self) -> EntryView {
        EntryView {
            message: self.message@,
            title: text::opt_text(self.title),
            duration_secs: self.duration_secs,
        }
    }
}

impl View for Queue {
    type V = QueueView;

    open spec fn view(&self) -> QueueView {
        QueueView {
            items: Seq::new(self.items@.len(), |i: int| self.items@[i]@),
            position: self.position,
        }
    }
}

/// An item of a state message, with its strings as texts.
pub open spec fn item_view(item: QueueItemMessage) -> ItemView {
    ItemView {
        url: item.url@,
        container: text::opt_text(item.container),
        title: text::opt_text(item.title),
        duration_secs: item.duration_secs,
    }
}

impl EntryView {
    /// What a sender sees of this item; an item without a URL shows an empty
    /// one.
    pub open spec fn shown(self) -> ItemView {
        ItemView {
            url: match self.message.url {
                Some(url) => url,
                None => Seq::empty(),
            },
            container: self.message.container,
            title: self.title,
            duration_secs: self.duration_secs,
        }
    }

    /// This item after a title and a length were looked up for `url`.
    pub open spec fn described(self, url: Seq<char>, title: Seq<char>, duration: Real) -> EntryView {
        if self.message.url == Some(url) {
            EntryView { title: Some(title), duration_secs: Some(duration), ..self }
        } else {
            self
        }
    }
}

/// The item that is made of a queued message.
pub open spec fn fresh(message: fcast::PlayView) -> EntryView {
    EntryView { message, title: None, duration_secs: None }
}

impl QueueView {
    /// The empty queue.
    pub open spec fn empty() -> QueueView {
        QueueView { items: Seq::empty(), position: None }
    }

    /// Whether the current item, if there is one, is an item of the queue.
    pub open spec fn wf(self) -> bool {
        self.position matches Some(p) ==> p < self.items.len()
    }

    /// The queue with a message appended.
    pub open spec fn pushed(self, message: fcast::PlayView) -> QueueView {
        QueueView { items: self.items.push(fresh(message)), ..self }
    }

    /// The queue at another position.
    pub open spec fn at(self, position: Option<usize>) -> QueueView {
        QueueView { position, ..self }
    }

    /// The index after the current one, where there is an item.
    pub open spec fn next_index(self) -> Option<usize> {
        match self.position {
            Some(p) => if p + 1 < self.items.len() {
                Some((p + 1) as usize)
            } else {
                None
            },
            None => None,
        }
    }

    /// The index in front of the current one, where there is an item.
    pub open spec fn previous_index(self) -> Option<usize> {
        match self.position {
            Some(p) => if 0 < p <= self.items.len() {
                Some((p - 1) as usize)
            } else {
                None
            },
            None => None,
        }
    }

    /// `index`, where there is an item.
    pub open spec fn index_in_range(self, index: usize) -> Option<usize> {
        if index < self.items.len() {
            Some(index)
        } else {
            None
        }
    }

    /// The queue after a jump to `target`: where there is none, nothing moves.
    pub open spec fn jumped(self, target: Option<usize>) -> QueueView {
        match target {
            Some(i) => self.at(Some(i)),
            None => self,
        }
    }

    /// The message at `target`, where there is one.
    pub open spec fn message_at(self, target: Option<usize>) -> Option<fcast::PlayView> {
        match target {
            Some(i) => if i < self.items.len() {
                Some(self.items[i as int].message)
            } else {
                None
            },
            None => None,
        }
    }

    /// The queue after a title and a length were looked up for `url`.
    pub open spec fn described(self, url: Seq<char>, title: Seq<char>, duration: Real) -> QueueView {
        QueueView {
            items: Seq::new(
                self.items.len(),
                |i: int| self.items[i].described(url, title, duration),
            ),
            position: self.position,
        }
    }
}

/// A move of the queue's position to an item whose load has not succeeded yet.
#[derive(Debug, Clone, Copy, PartialEq, Eq, Structural)]
pub struct QueueMove {
    pub from: Option<usize>,
    pub to: usize,
}

impl QueueView {
    /// `position`, where it is that of an item.
    pub open spec fn still_there(self, position: Option<usize>) -> Option<usize> {
        match position {
            Some(i) => self.index_in_range(i),
            None => None,
        }
    }

    /// The queue after the load of the item moved to has failed: back where it
    /// was, if that item is still there, unless the queue has moved on since.
    pub open spec fn reverted(self, moved: Option<QueueMove>) -> QueueView {
        match moved {
            Some(m) => if self.position == Some(m.to) {
                self.at(self.still_there(m.from))
            } else {
                self
            },
            None => self,
        }
    }
}

impl Default for Queue {
    fn default() -> (r: Queue)
        ensures
            r@ == QueueView::empty(),
    {
        let r: Queue = Queue { items: Vec::new(), position: None };
        assert(r@ =~= QueueView::empty());
        r
    }
}

impl Queue {
    /// Append `item` and return its index.
    pub fn push(&mut self, item: PlayMessage) -> (index: usize)
        ensures
            final(self)@ == old(self)@.pushed(item@),
            final(self)@.items.len() == old(self)@.items.len() + 1,
            final(self)@.items.last().message == item@,
            final(self)@.position == old(self)@.position,
            index == old(self)@.items.len(),
    {
        let ghost before = self@;
        self.items.push(QueueEntry { message: item, title: None, duration_secs: None });
        assert(self@ =~= before.pushed(item@));
        self.items.len() - 1
    }

    /// Move to a position.
    pub fn set_position(&mut self, position: Option<usize>)
        ensures
            final(self)@ == old(self)@.at(position),
    {
        let ghost before = self@;
        self.position = position;
        assert(self@ =~= before.at(position));
    }

    /// The index of the current item.
    pub fn position(&self) -> (r: Option<usize>)
        ensures
            r == self@.position,
    {
        self.position
    }

    /// The message at `index`, if there is an item.
    fn message(&self, index: usize) -> (r: Option<PlayMessage>)
        ensures
            r is Some <==> index < self@.items.len(),
            r matches Some(m) ==> m@ == self@.items[index as int].message,
    {
        if index < self.items.len() {
            Some(self.items[index].message.clone())
        } else {
            None
        }
    }

    /// Move to the item after the current one and return its message. Nothing
    /// moves when nothing has played yet or the current item is the last.
    pub fn jump_forward(&mut self) -> (r: Option<PlayMessage>)
        ensures
            final(self)@ == old(self)@.jumped(old(self)@.next_index()),
            r is Some <==> old(self)@.next_index() is Some,
            r matches Some(m) ==> Some(m@) == old(self)@.message_at(old(self)@.next_index()),
    {
        match self.position {
            None => None,
            Some(p) => {
                if p >= self.items.len() || p + 1 >= self.items.len() {
                    return None;
                }
                self.set_position(Some(p + 1));
                self.message(p + 1)
            },
        }
    }

    /// Move to the item in front of the current one and return its message.
    /// Nothing moves when nothing has played yet, the current item is the
    /// first, or there is no item in front of the position.
    pub fn jump_backward(&mut self) -> (r: Option<PlayMessage>)
        ensures
            final(self)@ == old(self)@.jumped(old(self)@.previous_index()),
            r is Some <==> old(self)@.previous_index() is Some,
            r matches Some(m) ==> Some(m@) == old(self)@.message_at(old(self)@.previous_index()),
    {
        match self.position {
            None => None,
            Some(p) => {
                if p == 0 || p > self.items.len() {
                    return None;
                }
                self.set_position(Some(p - 1));
                self.message(p - 1)
            },
        }
    }

    /// Move to an index and return its message. Nothing moves when there is
    /// no such item.
    pub fn jump_to_index(&mut self, index: usize) -> (r: Option<PlayMessage>)
        ensures
            final(self)@ == old(self)@.jumped(old(self)@.index_in_range(index)),
            r is Some <==> old(self)@.index_in_range(index) is Some,
            r matches Some(m) ==> Some(m@) == old(self)@.message_at(Some(index)),
    {
        if index < self.items.len() {
            self.set_position(Some(index));
            self.message(index)
        } else {
            None
        }
    }

    /// Empty the queue and forget its position.
    pub fn clear(&mut self)
        ensures
            final(self)@ == QueueView::empty(),
    {
        self.items = Vec::new();
        self.position = None;
        assert(self@ =~= QueueView::empty());
    }

    /// The load of the item moved to has failed: it is no longer current, and
    /// stays in the queue.
    pub fn revert(&mut self, moved: Option<QueueMove>)
        ensures
            final(self)@ == old(self)@.reverted(moved),
    {
        if let Some(m) = moved {
            if self.position == Some(m.to) {
                let from: Option<usize> = match m.from {
                    Some(i) => if i < self.items.len() {
                        Some(i)
                    } else {
                        None
                    },
                    None => None,
                };
                self.set_position(from);
            }
        }
    }

    /// A title and a length were looked up for `url`: note them at every item
    /// with that URL.
    pub fn describe(&mut self, url: &str, title: &str, duration: Real)
        ensures
            final(self)@ == old(self)@.described(url@, title@, duration),
    {
        let ghost before = self@;
        let mut i: usize = 0;
        while i < self.items.len()
            invariant
                i <= self.items.len(),
                self.position == before.position,
                self.items@.len() == before.items.len(),
                forall|j: int|
                    0 <= j < i ==> (#[trigger] self.items@[j])@ == before.items[j].described(
                        url@,
                        title@,
                        duration,
                    ),
                forall|j: int|
                    i <= j < self.items@.len() ==> (#[trigger] self.items@[j])@
                        == before.items[j],
            decreases self.items.len() - i,
        {
            let ghost mid = self.items@;
            let same: bool = match &self.items[i].message.url {
                Some(u) => text::same_text(u.as_str(), url),
                None => false,
            };
            assert(same == (mid[i as int]@.message.url == Some(url@)));
            if same {
                self.items[i].title = Some(title.to_string());
                self.items[i].duration_secs = Some(duration);
                assert(self.items@[i as int]@ =~= mid[i as int]@.described(
                    url@,
                    title@,
                    duration,
                ));
            }
            assert(forall|j: int|
                0 <= j < mid.len() && j != i ==> #[trigger] self.items@[j] == mid[j]);
            i = i + 1;
        }
        assert(self@ =~= before.described(url@, title@, duration));
    }

    /// This queue as it is shown to senders at the time `now`.
    pub fn to_state_message(&self, now: u64) -> (r: QueueStateMessage)
        ensures
            r.generation_time == now,
            self@.is_shown_in(r),
    {
        let mut items: Vec<QueueItemMessage> = Vec::new();
        let mut i: usize = 0;
        while i < self.items.len()
            invariant
                i <= self.items.len(),
                items@.len() == i,
                forall|j: int|
                    0 <= j < i ==> item_view(#[trigger] items@[j]) == self@.items[j].shown(),
            decreases self.items.len() - i,
        {
            let entry: &QueueEntry = &self.items[i];
            let url: String = match &entry.message.url {
                Some(u) => u.clone(),
                None => String::new(),
            };
            let item: QueueItemMessage = QueueItemMessage {
                url,
                container: entry.message.container.clone(),
                title: entry.title.clone(),
                duration_secs: entry.duration_secs,
            };
            assert(item_view(item) =~= self@.items[i as int].shown());
            items.push(item);
            i = i + 1;
        }
        QueueStateMessage { generation_time: now, items, current_index: self.position }
    }
}

impl QueueView {
    /// Whether `message` shows this queue.
    pub open spec fn is_shown_in(self, message: QueueStateMessage) -> bool {
        &&& message.current_index == self.position
        &&& message.items@.len() == self.items.len()
        &&& forall|i: int|
            0 <= i < self.items.len() ==> item_view(#[trigger] message.items@[i])
                == self.items[i].shown()
    }

    /// Whether senders see no difference between two queues.
    pub open spec fn looks_like(self, other: QueueView) -> bool {
        &&& self.position == other.position
        &&& self.items.len() == other.items.len()
        &&& forall|i: int|
            0 <= i < self.items.len() ==> (#[trigger] self.items[i]).shown()
                == other.items[i].shown()
    }
}

fn same_option(a: &Option<String>, b: &Option<String>) -> (r: bool)
    ensures
        r == (text::opt_text(*a) == text::opt_text(*b)),
{
    match (a, b) {
        (Some(x), Some(y)) => text::same_text(x.as_str(), y.as_str()),
        (None, None) => true,
        _ => false,
    }
}

fn shows(item: &QueueItemMessage, entry: &QueueEntry) -> (r: bool)
    ensures
        r == (item_view(*item) == entry@.shown()),
{
    let same_url: bool = match &entry.message.url {
        Some(url) => text::same_text(item.url.as_str(), url.as_str()),
        None => item.url.as_str().is_empty(),
    };
    proof {
        assert(item.url@.len() == 0 ==> item.url@ =~= Seq::<char>::empty());
        assert(same_url == (item.url@ == entry@.shown().url));
    }
    same_url && same_option(&item.container, &entry.message.container) && same_option(
        &item.title,
        &entry.title,
    ) && item.duration_secs == entry.duration_secs
}

impl Queue {
    /// Whether `message`, made at whatever time, shows this queue as it is now.
    /// Where it does not, the queue has changed, and senders are to be told.
    pub fn is_shown_by(&self, message: &QueueStateMessage) -> (r: bool)
        ensures
            r == self@.is_shown_in(*message),
    {
        if message.current_index != self.position || message.items.len() != self.items.len() {
            return false;
        }
        let n: usize = self.items.len();
        let mut i: usize = 0;
        while i < n
            invariant
                i <= n,
                n == self.items@.len(),
                n == message.items@.len(),
                forall|j: int|
                    0 <= j < i ==> item_view(#[trigger] message.items@[j])
                        == self@.items[j].shown(),
            decreases n - i,
        {
            if !shows(&message.items[i], &self.items[i]) {
                assert(item_view(message.items@[i as int]) != self@.items[i as int].shown());
                return false;
            }
            i = i + 1;
        }
        true
    }
}

// ---------------------------------------------------------------------------
// Persistence
// ---------------------------------------------------------------------------

/// What came of reading the remembered queue.
#[derive(Debug)]
pub enum Remembered {
    /// There is no place to remember it in.
    NoPlace,
    /// Nothing was remembered yet.
    Missing,
    /// The file could not be read.
    Unreadable,
    /// The file does not hold a queue.
    Unparsable,
    /// The queue that the file holds.
    Found(Queue),
}

impl Queue {
    /// The queue to start with: the one remembered, or an empty one.
    pub fn load(remembered: Remembered) -> (r: Queue)
        ensures
            r@ == (match remembered {
                Remembered::Found(queue) => queue@,
                _ => QueueView::empty(),
            }),
    {
        match remembered {
            Remembered::Found(queue) => queue,
            _ => Queue::default(),
        }
    }
}

impl Remembered {
    /// Whether something was remembered that is lost, which is worth a
    /// warning.
    pub fn is_lost(&self) -> (r: bool)
        ensures
            r == (self is Unreadable || self is Unparsable),
    {
        match self {
            Remembered::Unreadable => true,
            Remembered::Unparsable => true,
            _ => false,
        }
    }
}

/// The settings that say where state is kept.
#[derive(Debug)]
pub struct StateEnv {
    /// `CASTOFF_STATE_DIR`.
    pub castoff_state_dir: Option<String>,
    /// `STATE_DIRECTORY`, which may list several directories between colons.
    pub state_directory: Option<String>,
    /// `XDG_STATE_HOME`.
    pub xdg_state_home: Option<String>,
    /// `HOME`.
    pub home: Option<String>,
}

impl StateEnv {
    /// The directory that state is kept in, by the first setting that names
    /// one.
    pub open spec fn dir(self) -> Option<Seq<char>> {
        if self.castoff_state_dir is Some {
            Some(self.castoff_state_dir->0@)
        } else if self.state_directory is Some && text::first_part(
            self.state_directory->0@,
            ':',
        ).len() > 0 {
            Some(text::first_part(self.state_directory->0@, ':'))
        } else if self.xdg_state_home is Some {
            Some(paths::join(self.xdg_state_home->0@, "castoff"@))
        } else if self.home is Some {
            Some(paths::join(self.home->0@, ".local/state/castoff"@))
        } else {
            None
        }
    }

    /// The file that the queue is remembered in.
    pub open spec fn queue_file(self) -> Option<Seq<char>> {
        match self.dir() {
            Some(dir) => Some(paths::join(dir, "queue.json"@)),
            None => None,
        }
    }
}

/// The directory that state is kept in, or `None` when no setting names one;
/// then nothing outlives this run.
pub fn default_state_dir(env: &StateEnv) -> (r: Option<String>)
    ensures
        text::opt_text(r) == env.dir(),
{
    if let Some(dir) = &env.castoff_state_dir {
        return Some(dir.clone());
    }
    if let Some(dirs) = &env.state_directory {
        let first: String = text::first_part_text(dirs.as_str(), ':');
        if !first.as_str().is_empty() {
            return Some(first);
        }
    }
    if let Some(xdg) = &env.xdg_state_home {
        return Some(paths::join_text(xdg.as_str(), "castoff"));
    }
    if let Some(home) = &env.home {
        return Some(paths::join_text(home.as_str(), ".local/state/castoff"));
    }
    None
}

/// The file that the queue is remembered in.
pub fn default_state_path(env: &StateEnv) -> (r: Option<String>)
    ensures
        text::opt_text(r) == env.queue_file(),
{
    match default_state_dir(env) {
        Some(dir) => Some(paths::join_text(dir.as_str(), "queue.json")),
        None => None,
    }
}

// ---------------------------------------------------------------------------
// Laws
// ---------------------------------------------------------------------------

/// A jump forward that moves is undone by a jump backward.
pub proof fn lemma_backward_undoes_forward(q: QueueView)
    requires
        q.items.len() <= usize::MAX,
        q.next_index() is Some,
    ensures
        q.jumped(q.next_index()).previous_index() == q.position,
        q.jumped(q.next_index()).jumped(q.jumped(q.next_index()).previous_index()) == q,
{
    let there = q.jumped(q.next_index());
    assert(there.jumped(there.previous_index()) =~= q);
}

/// A jump backward that moves is undone by a jump forward.
pub proof fn lemma_forward_undoes_backward(q: QueueView)
    requires
        q.wf(),
        q.previous_index() is Some,
    ensures
        q.jumped(q.previous_index()).next_index() == q.position,
        q.jumped(q.previous_index()).jumped(q.jumped(q.previous_index()).next_index()) == q,
{
    let there = q.jumped(q.previous_index());
    assert(there.jumped(there.next_index()) =~= q);
}

/// Every operation leaves the position on an item, if it was on one.
pub proof fn lemma_the_position_stays_in_the_queue(
    q: QueueView,
    message: fcast::PlayView,
    index: usize,
    url: Seq<char>,
    title: Seq<char>,
    duration: Real,
    moved: Option<QueueMove>,
)
    requires
        q.wf(),
    ensures
        q.pushed(message).wf(),
        q.jumped(q.next_index()).wf(),
        q.jumped(q.previous_index()).wf(),
        q.jumped(q.index_in_range(index)).wf(),
        q.described(url, title, duration).wf(),
        q.reverted(moved).wf(),
        QueueView::empty().wf(),
{
}

/// Jumps, reverts and looked-up titles neither add, drop, reorder nor change
/// what is queued.
pub proof fn lemma_the_items_stay(
    q: QueueView,
    target: Option<usize>,
    moved: Option<QueueMove>,
    url: Seq<char>,
    title: Seq<char>,
    duration: Real,
    i: int,
)
    requires
        0 <= i < q.items.len(),
    ensures
        q.jumped(target).items == q.items,
        q.reverted(moved).items == q.items,
        q.described(url, title, duration).items.len() == q.items.len(),
        q.described(url, title, duration).items[i].message == q.items[i].message,
{
}

/// Queuing an item changes no other item, and does not make it current.
pub proof fn lemma_queuing_only_appends(q: QueueView, message: fcast::PlayView, i: int)
    requires
        0 <= i < q.items.len(),
    ensures
        q.pushed(message).items[i] == q.items[i],
        q.pushed(message).position == q.position,
{
}

/// Every change of the queue shows: what senders see is different wherever the
/// queue is, whichever operation changed it.
pub proof fn lemma_every_change_shows(
    q: QueueView,
    message: fcast::PlayView,
    position: Option<usize>,
    url: Seq<char>,
    title: Seq<char>,
    duration: Real,
    moved: Option<QueueMove>,
)
    ensures
        !q.looks_like(q.pushed(message)),
        q.looks_like(q.at(position)) ==> q.at(position) == q,
        q.looks_like(q.reverted(moved)) ==> q.reverted(moved) == q,
        q.looks_like(q.described(url, title, duration)) ==> q.described(url, title, duration) == q,
        q.looks_like(QueueView::empty()) ==> q == QueueView::empty(),
{
    if q.looks_like(q.at(position)) {
        assert(q.at(position) =~= q);
    }
    if q.looks_like(q.reverted(moved)) {
        assert(q.reverted(moved) =~= q);
    }
    let known = q.described(url, title, duration);
    if q.looks_like(known) {
        assert forall|i: int| 0 <= i < q.items.len() implies q.items[i] == known.items[i] by {
            assert(q.items[i].shown() == known.items[i].shown());
            assert(q.items[i] =~= known.items[i]);
        }
        assert(known =~= q);
    }
    if q.looks_like(QueueView::empty()) {
        assert(q =~= QueueView::empty());
    }
}

/// Two queues that one message shows look alike.
pub proof fn lemma_one_message_shows_one_queue(
    a: QueueView,
    b: QueueView,
    message: QueueStateMessage,
)
    requires
        a.is_shown_in(message),
    ensures
        b.is_shown_in(message) <==> a.looks_like(b),
{
    if b.is_shown_in(message) {
        assert forall|i: int| 0 <= i < a.items.len() implies (#[trigger] a.items[i]).shown()
            == b.items[i].shown() by {
            assert(item_view(message.items@[i]) == a.items[i].shown());
        }
    }
    if a.looks_like(b) {
        assert forall|i: int| 0 <= i < b.items.len() implies item_view(
            #[trigger] message.items@[i],
        ) == b.items[i].shown() by {
            assert(a.items[i].shown() == b.items[i].shown());
        }
    }
}

/// An item whose load fails is not current afterwards: the queue is exactly
/// where it was before, with the item still in it.
pub proof fn lemma_a_failed_item_is_not_current(q: QueueView, to: usize)
    requires
        q.wf(),
    ensures
        q.at(Some(to)).reverted(Some(QueueMove { from: q.position, to })) == q,
{
    assert(q.at(Some(to)).reverted(Some(QueueMove { from: q.position, to })) =~= q);
}

/// A failure that is discovered late changes nothing once the queue has moved
/// on.
pub proof fn lemma_a_late_failure_changes_nothing(q: QueueView, moved: QueueMove)
    requires
        q.position != Some(moved.to),
    ensures
        q.reverted(Some(moved)) == q,
{
}

/// Nothing of a queue is left out of account.
pub proof fn lemma_a_queue_is_all_its_items(q: Queue, i: int)
    requires
        0 <= i < q.items@.len(),
    ensures
        q@.items.len() == q.items@.len(),
        q@.position == q.position,
        q@.items[i].message == q.items@[i].message@,
        q.items@[i].title matches Some(t) ==> q@.items[i].title == Some(t@),
        q.items@[i].title is None ==> q@.items[i].title is None,
        q@.items[i].duration_secs == q.items@[i].duration_secs,
{
}

/// An item is kept as the very message it was queued with, in every field, at
/// the end of the queue, with nothing known of its title and length yet; and a
/// jump to it gives that message back.
pub proof fn lemma_an_item_is_kept_as_it_was_sent(q: QueueView, message: fcast::PlayView)
    requires
        q.items.len() < usize::MAX,
    ensures
        q.pushed(message).items.len() == q.items.len() + 1,
        q.pushed(message).items.last().message == message,
        q.pushed(message).items.last().title is None,
        q.pushed(message).items.last().duration_secs is None,
        q.pushed(message).index_in_range(q.items.len() as usize) == Some(q.items.len() as usize),
        q.pushed(message).message_at(Some(q.items.len() as usize)) == Some(message),
        q.pushed(message).jumped(Some(q.items.len() as usize)).position == Some(
            q.items.len() as usize,
        ),
{
}

/// Where jumps lead: forward to the item behind the current one, backward to
/// the one in front of it, to an index where there is an item; and nowhere
/// beyond the ends, or before anything has played.
pub proof fn lemma_where_jumps_lead(q: QueueView, p: usize, index: usize)
    requires
        q.items.len() <= usize::MAX,
    ensures
        q.position is None ==> q.next_index() is None && q.previous_index() is None,
        q.position == Some(p) && p + 1 < q.items.len() ==> q.next_index() == Some((p + 1) as usize),
        q.position == Some(p) && p + 1 >= q.items.len() ==> q.next_index() is None,
        q.position == Some(p) && 0 < p <= q.items.len() ==> q.previous_index() == Some(
            (p - 1) as usize,
        ),
        q.position == Some(p) && (p == 0 || p > q.items.len()) ==> q.previous_index() is None,
        index < q.items.len() ==> q.index_in_range(index) == Some(index),
        index >= q.items.len() ==> q.index_in_range(index) is None,
{
}

/// A jump makes the item it leads to current, gives that item's message, and
/// changes nothing else; one that leads nowhere changes nothing.
pub proof fn lemma_what_a_jump_does(q: QueueView, index: usize)
    requires
        index < q.items.len(),
    ensures
        q.jumped(Some(index)).position == Some(index),
        q.jumped(Some(index)).items == q.items,
        q.message_at(Some(index)) == Some(q.items[index as int].message),
        q.jumped(None) == q,
        q.message_at(None) is None,
        q.at(None).position is None,
        q.at(Some(index)).position == Some(index),
        q.at(Some(index)).items == q.items,
{
}

/// The empty queue has no item and no position.
pub proof fn lemma_the_empty_queue_is_empty()
    ensures
        QueueView::empty().items.len() == 0,
        QueueView::empty().position is None,
{
}

/// A title and a length that were looked up stand at every item with the URL
/// they were looked up for, and at no other; nothing else changes.
pub proof fn lemma_a_title_stands_at_its_own_items(
    q: QueueView,
    url: Seq<char>,
    title: Seq<char>,
    duration: Real,
    i: int,
)
    requires
        0 <= i < q.items.len(),
    ensures
        q.described(url, title, duration).position == q.position,
        q.items[i].message.url == Some(url) ==> {
            let item = q.described(url, title, duration).items[i];
            item.title == Some(title) && item.duration_secs == Some(duration) && item.message
                == q.items[i].message
        },
        q.items[i].message.url != Some(url) ==> q.described(url, title, duration).items[i]
            == q.items[i],
{
}

/// After a failure the queue stands where it stood before the move, if there is
/// still an item there, and else nowhere.
pub proof fn lemma_where_a_failure_leads_back_to(q: QueueView, from: usize, to: usize)
    requires
        q.position == Some(to),
    ensures
        from < q.items.len() ==> q.reverted(
            Some(QueueMove { from: Some(from), to }),
        ).position == Some(from),
        from >= q.items.len() ==> q.reverted(
            Some(QueueMove { from: Some(from), to }),
        ).position is None,
        q.reverted(Some(QueueMove { from: None, to })).position is None,
        q.reverted(None) == q,
{
}

/// What senders see of the queue: every item in order, by its own URL,
/// container, title and length, and which one is current.
pub proof fn lemma_what_senders_see_of_the_queue(
    q: QueueView,
    message: QueueStateMessage,
    i: int,
)
    requires
        q.is_shown_in(message),
        0 <= i < q.items.len(),
    ensures
        message.items@.len() == q.items.len(),
        message.current_index == q.position,
        q.items[i].message.url matches Some(url) ==> message.items@[i].url@ == url,
        q.items[i].message.url is None ==> message.items@[i].url@.len() == 0,
        text::opt_text(message.items@[i].container) == q.items[i].message.container,
        text::opt_text(message.items@[i].title) == q.items[i].title,
        message.items@[i].duration_secs == q.items[i].duration_secs,
{
    assert(item_view(message.items@[i]) == q.items[i].shown());
}

/// An empty queue, and one with nothing current, are seen as that too.
pub proof fn lemma_an_empty_queue_is_seen_as_empty(q: QueueView, message: QueueStateMessage)
    requires
        q.is_shown_in(message),
    ensures
        q.items.len() == 0 <==> message.items@.len() == 0,
        q.position is None <==> message.current_index is None,
{
}

/// Where state is kept: in the directory that castoff is told; else in the
/// first that the service manager names; else under the user's state directory
/// or home; and nowhere where nothing is set. The queue is a file in there.
pub proof fn lemma_where_state_is_kept(
    env: StateEnv,
    front: Seq<char>,
    first: Seq<char>,
    rest: Seq<char>,
)
    requires
        forall|i: int| 0 <= i < front.len() ==> #[trigger] front[i] == ':',
        forall|i: int| 0 <= i < first.len() ==> #[trigger] first[i] != ':',
        first.len() > 0,
    ensures
        env.castoff_state_dir matches Some(dir) ==> env.dir() == Some(dir@),
        env.castoff_state_dir is None ==> (env.state_directory matches Some(dirs) && (dirs@ == front
            + first || dirs@ == front + (first + seq![':'] + rest))) ==> env.dir() == Some(first),
        env.castoff_state_dir is None && (env.state_directory matches Some(dirs) ==> dirs@ == front)
            ==> env.dir() == (match (env.xdg_state_home, env.home) {
            (Some(xdg), _) => Some(paths::join(xdg@, "castoff"@)),
            (None, Some(home)) => Some(paths::join(home@, ".local/state/castoff"@)),
            (None, None) => None,
        }),
        env.dir() matches Some(dir) ==> env.queue_file() == Some(paths::join(dir, "queue.json"@)),
        env.dir() is None ==> env.queue_file() is None,
{
    text::lemma_what_the_first_part_is(front, first, ':', rest);
}

} // verus!
