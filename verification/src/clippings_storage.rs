use crate::clipping::{clippings_view, Clipping, ClippingView};
use crate::error::Error;
use vstd::prelude::*;

verus! {

/// The mathematical value of a [`ClippingStorage`]: the clippings in capture
/// order, the sequence number that the next appended clipping gets, and the
/// position of the clipping whose text was last put on the system clipboard.
pub struct StoreView {
    pub entries: Seq<ClippingView>,
    pub next_id: nat,
    pub active: Option<nat>,
}

impl StoreView {
    /// The store of a daemon that has just started.
    pub open spec fn empty() -> StoreView {
        StoreView { entries: Seq::empty(), next_id: 0, active: None }
    }

    /// Sequence numbers grow strictly along the store (so none occurs twice),
    /// all of them are below the next one to be handed out, and the active
    /// marker, if set, points at an entry.
    pub open spec fn valid(self) -> bool {
        &&& forall|i: int, j: int|
            0 <= i < j < self.entries.len() ==> self.entries[i].id < self.entries[j].id
        &&& forall|i: int| 0 <= i < self.entries.len() ==> self.entries[i].id < self.next_id
        &&& self.active matches Some(a) ==> a < self.entries.len()
    }

    /// The store after `text` was appended under the next sequence number.
    pub open spec fn append(self, text: Seq<char>) -> StoreView {
        StoreView {
            entries: self.entries.push(ClippingView { data: text, id: self.next_id }),
            next_id: self.next_id + 1,
            active: self.active,
        }
    }

    /// The store after each of `texts` was appended, first to last.
    pub open spec fn append_all(self, texts: Seq<Seq<char>>) -> StoreView
        decreases texts.len(),
    {
        if texts.len() == 0 {
            self
        } else {
            self.append_all(texts.drop_last()).append(texts.last())
        }
    }

    /// Whether the most recent entry holds exactly `text`.
    pub open spec fn is_top(self, text: Seq<char>) -> bool {
        self.entries.len() > 0 && self.entries.last().data == text
    }

    /// The store after a captured `text` was handed to it: appended, unless it
    /// repeats the most recent entry.
    pub open spec fn push(self, text: Seq<char>) -> StoreView {
        if self.is_top(text) {
            self
        } else {
            self.append(text)
        }
    }

    /// The store after each of `texts` was handed to it, first to last.
    pub open spec fn push_all(self, texts: Seq<Seq<char>>) -> StoreView
        decreases texts.len(),
    {
        if texts.len() == 0 {
            self
        } else {
            self.push_all(texts.drop_last()).push(texts.last())
        }
    }

    /// The store after the entry at `position` became the active one.
    pub open spec fn select(self, position: nat) -> StoreView {
        StoreView { entries: self.entries, next_id: self.next_id, active: Some(position) }
    }

    /// The store after the entry at `position` was removed. The entries behind
    /// it move up by one and keep their sequence numbers; the active marker
    /// stays with its entry, and is cleared when that entry is the one removed.
    pub open spec fn delete(self, position: nat) -> StoreView {
        StoreView {
            entries: self.entries.remove(position as int),
            next_id: self.next_id,
            active: match self.active {
                Some(a) => if a == position {
                    None
                } else if a > position {
                    Some((a - 1) as nat)
                } else {
                    Some(a)
                },
                None => None,
            },
        }
    }

    /// The store after all entries were dropped. Sequence numbers are not
    /// handed out again.
    pub open spec fn purge(self) -> StoreView {
        StoreView { entries: Seq::empty(), next_id: self.next_id, active: None }
    }

    /// What a client is shown: the texts in store order, each numbered by its
    /// position.
    pub open spec fn listing(self) -> Seq<ClippingView> {
        Seq::new(
            self.entries.len(),
            |i: int| ClippingView { data: self.entries[i].data, id: i as nat },
        )
    }
}

/// The texts of a batch of captured strings.
pub open spec fn texts_of(clips: Seq<String>) -> Seq<Seq<char>> {
    clips.map_values(|s: String| s@)
}

/// Stores the clippings that have accumulated during the session.
#[derive(Debug)]
pub struct ClippingStorage {
    store: Vec<Clipping>,
    next_id: usize,
    active: Option<usize>,
}

impl View for ClippingStorage {
    type V = StoreView;

    closed spec fn view(&self) -> StoreView {
        StoreView {
            entries: clippings_view(self.store@),
            next_id: self.next_id as nat,
            active: match self.active {
                Some(a) => Some(a as nat),
                None => None,
            },
        }
    }
}

impl ClippingStorage {
    /// The invariant of the store, which every operation keeps.
    pub open spec fn wf(&self) -> bool {
        self@.valid()
    }

    /// An empty store.
    pub fn new() -> (s: Self)
        ensures
            s.wf(),
            s@ == StoreView::empty(),
    {
        let s = ClippingStorage { store: Vec::new(), next_id: 0, active: None };
        assert(s@.entries =~= Seq::empty());
        s
    }

    /// The number of stored clippings.
    pub fn len(&self) -> (n: usize)
        ensures
            n == self@.entries.len(),
    {
        self.store.len()
    }

    /// The sequence number that the next appended clipping gets.
    pub fn next_id(&self) -> (id: usize)
        ensures
            id == self@.next_id,
    {
        self.next_id
    }

    /// The position of the clipping that was selected last, if it is still
    /// stored.
    pub fn active(&self) -> (a: Option<usize>)
        ensures
            match a {
                Some(p) => self@.active == Some(p as nat),
                None => self@.active.is_none(),
            },
    {
        self.active
    }

    /// Appends `text` as a new clipping and returns its sequence number.
    pub fn append(&mut self, text: String) -> (id: usize)
        requires
            old(self).wf(),
            old(self)@.next_id < usize::MAX,
        ensures
            final(self).wf(),
            final(self)@ == old(self)@.append(text@),
            id == old(self)@.next_id,
    {
        let id = self.next_id;
        self.store.push(Clipping { data: text, id });
        self.next_id = id + 1;
        proof {
            assert(final(self)@.entries =~= old(self)@.append(text@).entries);
        }
        id
    }

    /// Hands a captured text to the store. A text equal to that of the most
    /// recent entry is dropped; any other is appended. Returns the sequence
    /// number of the new entry, if one was made.
    pub fn push_clipping(&mut self, text: String) -> (id: Option<usize>)
        requires
            old(self).wf(),
            old(self)@.next_id < usize::MAX,
        ensures
            final(self).wf(),
            final(self)@ == old(self)@.push(text@),
            id == if old(self)@.is_top(text@) {
                None
            } else {
                Some(old(self)@.next_id as usize)
            },
    {
        let n = self.store.len();
        if n > 0 && self.store[n - 1].data == text {
            None
        } else {
            Some(self.append(text))
        }
    }

    /// Hands a batch of captured texts to the store, first to last, each as
    /// [`push_clipping`](Self::push_clipping) does. Returns how many entries
    /// were made.
    pub fn add_clips(&mut self, clips: Vec<String>) -> (added: usize)
        requires
            old(self).wf(),
            old(self)@.next_id + clips@.len() <= usize::MAX,
        ensures
            final(self).wf(),
            final(self)@ == old(self)@.push_all(texts_of(clips@)),
            added == final(self)@.entries.len() - old(self)@.entries.len(),
            added == final(self)@.next_id - old(self)@.next_id,
    {
        let mut added: usize = 0;
        let mut i: usize = 0;
        let ghost texts = texts_of(clips@);
        while i < clips.len()
            invariant
                i <= clips@.len(),
                texts == texts_of(clips@),
                self.wf(),
                self@ == old(self)@.push_all(texts.take(i as int)),
                added <= i,
                self@.next_id == old(self)@.next_id + added,
                self@.entries.len() == old(self)@.entries.len() + added,
                old(self)@.next_id + clips@.len() <= usize::MAX,
            decreases clips@.len() - i,
        {
            let text = clips[i].clone();
            proof {
                assert(texts.take(i as int + 1).drop_last() =~= texts.take(i as int));
                assert(texts.take(i as int + 1).last() == text@);
            }
            if self.push_clipping(text).is_some() {
                added = added + 1;
            }
            i = i + 1;
        }
        proof {
            assert(texts.take(i as int) =~= texts);
        }
        added
    }

    /// A snapshot of the stored clippings, in capture order, each with its
    /// sequence number.
    pub fn get_clips(&self) -> (clips: Vec<Clipping>)
        requires
            self.wf(),
        ensures
            clippings_view(clips@) == self@.entries,
            forall|i: int, j: int| 0 <= i < j < clips@.len() ==> clips@[i].id < clips@[j].id,
    {
        let mut clips: Vec<Clipping> = Vec::new();
        let mut i: usize = 0;
        while i < self.store.len()
            invariant
                i <= self.store@.len(),
                clips@ == self.store@.take(i as int),
            decreases self.store@.len() - i,
        {
            clips.push(self.store[i].clone());
            proof {
                assert(clips@ =~= self.store@.take(i as int + 1));
            }
            i = i + 1;
        }
        proof {
            assert(clips@ =~= self.store@);
            assert forall|a: int, b: int| 0 <= a < b < clips@.len() implies clips@[a].id
                < clips@[b].id by {
                assert(self@.entries[a].id < self@.entries[b].id);
            }
        }
        clips
    }

    /// Makes the clipping at `index` the active one and returns its text, which
    /// the caller puts on the system clipboard.
    pub fn select(&mut self, index: usize) -> (r: Result<String, Error>)
        requires
            old(self).wf(),
        ensures
            final(self).wf(),
            match r {
                Ok(text) => {
                    &&& index < old(self)@.entries.len()
                    &&& text@ == old(self)@.entries[index as int].data
                    &&& final(self)@ == old(self)@.select(index as nat)
                },
                Err(e) => {
                    &&& e == Error::NotFound
                    &&& index >= old(self)@.entries.len()
                    &&& final(self)@ == old(self)@
                },
            },
    {
        if index < self.store.len() {
            let text = self.store[index].data.clone();
            self.active = Some(index);
            Ok(text)
        } else {
            Err(Error::NotFound)
        }
    }

    /// Removes the clipping at `index`.
    pub fn delete(&mut self, index: usize) -> (r: Result<(), Error>)
        requires
            old(self).wf(),
        ensures
            final(self).wf(),
            match r {
                Ok(_) => {
                    &&& index < old(self)@.entries.len()
                    &&& final(self)@ == old(self)@.delete(index as nat)
                },
                Err(e) => {
                    &&& e == Error::NotFound
                    &&& index >= old(self)@.entries.len()
                    &&& final(self)@ == old(self)@
                },
            },
    {
        if index < self.store.len() {
            self.store.remove(index);
            self.active = match self.active {
                Some(a) => if a == index {
                    None
                } else if a > index {
                    Some(a - 1)
                } else {
                    Some(a)
                },
                None => None,
            };
            proof {
                assert(final(self)@.entries =~= old(self)@.entries.remove(index as int));
            }
            Ok(())
        } else {
            Err(Error::NotFound)
        }
    }

    /// Drops every stored clipping.
    pub fn purge(&mut self)
        ensures
            final(self).wf(),
            final(self)@ == old(self)@.purge(),
            final(self)@.entries.len() == 0,
    {
        self.store.clear();
        self.active = None;
        proof {
            assert(final(self)@.entries =~= Seq::empty());
        }
    }
}

/// Appending any texts to a valid store, one after the other, leaves the
/// entries that were there untouched and in place, puts the new texts behind
/// them in the order in which they were appended, numbers them consecutively
/// from the store's next sequence number, and keeps the store valid: the
/// sequence numbers of a listing grow strictly.
pub proof fn lemma_appends_keep_insertion_order(s: StoreView, texts: Seq<Seq<char>>)
    requires
        s.valid(),
    ensures
        s.append_all(texts).valid(),
        s.append_all(texts).entries == s.entries + Seq::new(
            texts.len(),
            |i: int| ClippingView { data: texts[i], id: (s.next_id + i) as nat },
        ),
        s.append_all(texts).next_id == s.next_id + texts.len(),
        s.append_all(texts).active == s.active,
        forall|i: int, j: int|
            0 <= i < j < s.append_all(texts).entries.len() ==> s.append_all(texts).entries[i].id
                < s.append_all(texts).entries[j].id,
    decreases texts.len(),
{
    if texts.len() > 0 {
        lemma_appends_keep_insertion_order(s, texts.drop_last());
        assert(s.append_all(texts).entries =~= s.entries + Seq::new(
            texts.len(),
            |i: int| ClippingView { data: texts[i], id: (s.next_id + i) as nat },
        ));
    } else {
        assert(s.append_all(texts).entries =~= s.entries + Seq::new(
            texts.len(),
            |i: int| ClippingView { data: texts[i], id: (s.next_id + i) as nat },
        ));
    }
}

/// Handing the same text to the store twice in a row makes at most one entry:
/// the second time changes nothing.
pub proof fn lemma_repeated_push_makes_no_entry(s: StoreView, text: Seq<char>)
    ensures
        s.push(text).push(text) == s.push(text),
        s.push(text).is_top(text),
        s.push(text).entries.len() <= s.entries.len() + 1,
{
}

/// Handing texts to a valid store keeps it valid, never removes or reorders
/// what is stored, makes one sequence number per new entry, and never puts a
/// new entry behind one with the same text.
pub proof fn lemma_pushes_keep_store_valid(s: StoreView, texts: Seq<Seq<char>>)
    requires
        s.valid(),
    ensures
        s.push_all(texts).valid(),
        s.entries.is_prefix_of(s.push_all(texts).entries),
        s.push_all(texts).entries.len() <= s.entries.len() + texts.len(),
        s.push_all(texts).next_id - s.next_id == s.push_all(texts).entries.len()
            - s.entries.len(),
        forall|i: int|
            0 < i && s.entries.len() <= i < s.push_all(texts).entries.len() ==> s.push_all(
                texts,
            ).entries[i].data != #[trigger] s.push_all(texts).entries[i - 1].data,
    decreases texts.len(),
{
    if texts.len() > 0 {
        lemma_pushes_keep_store_valid(s, texts.drop_last());
    }
}

/// Removing the entry at a position of a valid store takes out that entry and
/// no other: the entries before it stay where they are, those behind it move
/// up by one, and all keep their text and sequence number.
pub proof fn lemma_delete_removes_one_entry(s: StoreView, position: nat)
    requires
        s.valid(),
        position < s.entries.len(),
    ensures
        s.delete(position).valid(),
        s.delete(position).entries.len() == s.entries.len() - 1,
        forall|i: int| 0 <= i < position ==> s.delete(position).entries[i] == s.entries[i],
        forall|i: int|
            position <= i < s.entries.len() - 1 ==> s.delete(position).entries[i] == s.entries[i
                + 1],
        s.delete(position).next_id == s.next_id,
{
}


} // verus!
