//! The list of loaded frames: an ordered list that the user reorders by
//! dragging, and the set of frames that are selected in it.

use polars_core::frame::DataFrame;
use std::collections::HashSet;
use vstd::prelude::*;

verus! {

broadcast use vstd::std_specs::hash::group_hash_axioms;

/// A loaded frame with what is known about it.
///
/// Two records are the same record when they hold the same metadata and the
/// same frame. The `key` stands for that: whoever loads a frame gives equal
/// records equal keys and different records different keys, and the
/// selection is kept by key.
#[derive(Debug)]
pub struct LoadedFrame {
    pub key: u64,
    pub name: String,
    pub version: Option<String>,
    pub data: DataFrame,
}

impl LoadedFrame {
    /// The text that the list shows for the record.
    pub open spec fn spec_label(&self) -> Seq<char> {
        match self.version {
            Some(version) => self.name@ + " "@ + version@,
            None => self.name@,
        }
    }

    /// The text that the list shows for the record: its name, followed by
    /// a space and its version where it has one.
    pub fn label(&self) -> (label: String)
        ensures
            label@ == self.spec_label(),
    {
        let mut label = self.name.clone();
        match &self.version {
            Some(version) => {
                label.append(" ");
                label.append(version.as_str());
            },
            None => {},
        }
        label
    }
}

/// Where an element that is dragged from `from` and dropped at the drop
/// position `to` stands afterwards. Taking it out moves what follows it
/// one place to the front, which a drop behind its old place makes up for.
pub open spec fn landing(from: int, to: int) -> int {
    if from < to {
        to - 1
    } else {
        to
    }
}

/// The sequence after the element at `from` was dragged and dropped at the
/// drop position `to`: it is taken out, and put in so that it stands just
/// before the element that stood at `to`, or at the end for `to` the
/// length. Positions outside the sequence move nothing.
pub open spec fn moved<T>(order: Seq<T>, from: int, to: int) -> Seq<T> {
    if 0 <= from < order.len() && 0 <= to <= order.len() && from != to {
        order.remove(from).insert(landing(from, to), order[from])
    } else {
        order
    }
}

/// Dropping an element at its own position, or just behind itself, moves
/// nothing.
pub proof fn lemma_moved_self<T>(order: Seq<T>, index: int)
    ensures
        moved(order, index, index) == order,
        moved(order, index, index + 1) == order,
{
    if 0 <= index < order.len() {
        assert(order.remove(index).insert(index, order[index]) =~= order);
    }
}

/// A move puts the element just before the one that stood at the drop
/// position, and leaves the others in their order.
pub proof fn lemma_moved_lands<T>(order: Seq<T>, from: int, to: int)
    requires
        0 <= from < order.len(),
        0 <= to <= order.len(),
    ensures
        moved(order, from, to).len() == order.len(),
        moved(order, from, to)[landing(from, to)] == order[from],
        to < order.len() && to != from ==> moved(order, from, to)[landing(from, to) + 1]
            == order[to],
        moved(order, from, to).remove(landing(from, to)) == order.remove(from),
{
    if from != to {
        let rest = order.remove(from);
        let at = landing(from, to);
        assert(rest.insert(at, order[from]).remove(at) =~= rest);
    }
}

/// A move loses nothing and adds nothing.
pub proof fn lemma_moved_permutes<T>(order: Seq<T>, from: int, to: int)
    ensures
        moved(order, from, to).to_multiset() == order.to_multiset(),
{
    if 0 <= from < order.len() && 0 <= to <= order.len() && from != to {
        let rest = order.remove(from);
        let at = landing(from, to);
        broadcast use vstd::multiset::group_multiset_axioms;

        vstd::seq_lib::to_multiset_remove(order, from);
        vstd::seq_lib::to_multiset_insert(rest, at, order[from]);
        order.to_multiset_ensures();
        assert(order.contains(order[from]));
        assert(order.to_multiset().count(order[from]) > 0);
        assert(rest.to_multiset().insert(order[from]) =~= order.to_multiset());
    }
}

/// The drop position for a row that is hovered while another is dragged:
/// the hovered row's own position when the pointer is in its upper half or
/// the row is the dragged one, else the position behind it.
pub open spec fn spec_drop_target(dragged: int, hovered: int, above: bool) -> int {
    if dragged == hovered || above {
        hovered
    } else {
        hovered + 1
    }
}

/// The drop position for a row that is hovered while another is dragged.
/// `above` tells whether the pointer is above the middle of the hovered
/// row.
pub fn drop_target(dragged: usize, hovered: usize, above: bool) -> (to: usize)
    requires
        hovered < usize::MAX,
    ensures
        to == spec_drop_target(dragged as int, hovered as int, above),
{
    if dragged == hovered || above {
        hovered
    } else {
        hovered + 1
    }
}

/// Hovering the dragged row itself gives a drop position that moves nothing.
pub proof fn lemma_drop_on_self<T>(order: Seq<T>, index: int, above: bool)
    ensures
        moved(order, index, spec_drop_target(index, index, above)) == order,
{
    lemma_moved_self(order, index);
}

/// The list as a mathematical value: the records in order, and the keys of
/// the selected ones.
#[verifier::ext_equal]
pub struct DataView {
    pub frames: Seq<LoadedFrame>,
    pub selected: Set<u64>,
}

/// A request of the user on the list.
#[derive(Debug)]
pub enum Request {
    /// Put a loaded frame at the end of the list.
    Add(LoadedFrame),
    /// Select the row at this index if it is not selected, else deselect it.
    ToggleSelect(usize),
    /// Select every row.
    SelectAll,
    /// Deselect every row.
    DeselectAll,
    /// Select every row if none is selected, else deselect every row.
    ToggleAll,
    /// Delete the row at this index.
    Delete(usize),
    /// Delete every row.
    DeleteAll,
    /// Move the row at `from` to the drop position `to`.
    Reorder { from: usize, to: usize },
}

impl DataView {
    /// The list without rows.
    pub open spec fn empty() -> DataView {
        DataView { frames: Seq::empty(), selected: Set::empty() }
    }

    /// Whether a row of the list has the key.
    pub open spec fn has_key(self, key: u64) -> bool {
        exists|index: int| 0 <= index < self.frames.len() && #[trigger] self.frames[index].key == key
    }

    /// The keys of the rows.
    pub open spec fn keys(self) -> Set<u64> {
        Set::new(|key: u64| self.has_key(key))
    }

    /// Every selected key is the key of a row: the selection never refers
    /// to a record that is not in the list.
    pub open spec fn wf(self) -> bool {
        forall|key: u64| self.selected.contains(key) ==> self.has_key(key)
    }

    /// Whether the row at `index` is selected.
    pub open spec fn is_selected(self, index: int) -> bool {
        0 <= index < self.frames.len() && self.selected.contains(self.frames[index].key)
    }

    /// The selected records, in the order of the list.
    pub open spec fn picked(self) -> Seq<LoadedFrame> {
        self.frames.filter(|frame: LoadedFrame| self.selected.contains(frame.key))
    }

    /// The list after `frame` was added at its end.
    pub open spec fn added(self, frame: LoadedFrame) -> DataView {
        DataView { frames: self.frames.push(frame), ..self }
    }

    /// The list after the selection of the row at `index` was toggled. No
    /// other key enters or leaves the selection.
    pub open spec fn toggled(self, index: int) -> DataView {
        if 0 <= index < self.frames.len() {
            let key = self.frames[index].key;
            DataView {
                selected: if self.selected.contains(key) {
                    self.selected.remove(key)
                } else {
                    self.selected.insert(key)
                },
                ..self
            }
        } else {
            self
        }
    }

    /// The list with every row selected.
    pub open spec fn all_selected(self) -> DataView {
        DataView { selected: self.keys(), ..self }
    }

    /// The list with no row selected.
    pub open spec fn none_selected(self) -> DataView {
        DataView { selected: Set::empty(), ..self }
    }

    /// The list after the button that selects or deselects all rows was
    /// pressed: every row is selected if none was, else none is.
    pub open spec fn toggled_all(self) -> DataView {
        if self.selected.is_empty() {
            self.all_selected()
        } else {
            self.none_selected()
        }
    }

    /// The list after the row at `index` was deleted: the row is gone, and
    /// its key is gone from the selection in the same step.
    pub open spec fn deleted(self, index: int) -> DataView {
        if 0 <= index < self.frames.len() {
            DataView {
                frames: self.frames.remove(index),
                selected: self.selected.remove(self.frames[index].key),
            }
        } else {
            self
        }
    }

    /// The list after the row at `from` was dropped at the position `to`.
    pub open spec fn reordered(self, from: int, to: int) -> DataView {
        DataView { frames: moved(self.frames, from, to), ..self }
    }

    /// The list after a request was carried out.
    pub open spec fn step(self, request: Request) -> DataView {
        match request {
            Request::Add(frame) => self.added(frame),
            Request::ToggleSelect(index) => self.toggled(index as int),
            Request::SelectAll => self.all_selected(),
            Request::DeselectAll => self.none_selected(),
            Request::ToggleAll => self.toggled_all(),
            Request::Delete(index) => self.deleted(index as int),
            Request::DeleteAll => DataView::empty(),
            Request::Reorder { from, to } => self.reordered(from as int, to as int),
        }
    }

    /// The list after a sequence of requests was carried out in order.
    pub open spec fn run(self, requests: Seq<Request>) -> DataView
        decreases requests.len(),
    {
        if requests.len() == 0 {
            self
        } else {
            self.run(requests.drop_last()).step(requests.last())
        }
    }
}

/// The ordered list of loaded frames and the set of selected ones.
pub struct Data {
    frames: Vec<LoadedFrame>,
    selected: HashSet<u64>,
}

impl Data {
    /// The list as a mathematical value.
    pub closed spec fn view(&self) -> DataView {
        DataView { frames: self.frames@, selected: self.selected@ }
    }

    /// A list without rows.
    pub fn new() -> (data: Data)
        ensures
            data@ == DataView::empty(),
            data@.wf(),
    {
        Data { frames: Vec::new(), selected: HashSet::new() }
    }

    /// The number of rows.
    pub fn len(&self) -> (len: usize)
        ensures
            len == self@.frames.len(),
    {
        self.frames.len()
    }

    /// The records, in the order of the list.
    pub fn frames(&self) -> (frames: &Vec<LoadedFrame>)
        ensures
            frames@ == self@.frames,
    {
        &self.frames
    }

    /// Whether the row at `index` is selected; no row is where the list
    /// has no such row.
    pub fn is_selected(&self, index: usize) -> (selected: bool)
        ensures
            selected == self@.is_selected(index as int),
    {
        index < self.frames.len() && self.selected.contains(&self.frames[index].key)
    }

    /// Whether no row is selected.
    pub fn none_selected(&self) -> (none: bool)
        ensures
            none == self@.selected.is_empty(),
    {
        self.selected.is_empty()
    }

    /// Puts `frame` at the end of the list, not selected unless a record
    /// with its key is.
    pub fn add(&mut self, frame: LoadedFrame)
        ensures
            final(self)@ == old(self)@.added(frame),
            old(self)@.wf() ==> final(self)@.wf(),
    {
        proof {
            if self@.wf() {
                lemma_step_wf(self@, Request::Add(frame));
            }
        }
        self.frames.push(frame);
    }

    /// Toggles the selection of the row at `index`, and tells whether the
    /// row is selected now; `None`, and nothing changes, where the list
    /// has no such row.
    pub fn toggle_select(&mut self, index: usize) -> (now: Option<bool>)
        ensures
            final(self)@ == old(self)@.toggled(index as int),
            now == if index < old(self)@.frames.len() {
                Some(!old(self)@.is_selected(index as int))
            } else {
                None
            },
            old(self)@.wf() ==> final(self)@.wf(),
    {
        proof {
            if self@.wf() {
                lemma_step_wf(self@, Request::ToggleSelect(index));
            }
        }
        if index < self.frames.len() {
            let key = self.frames[index].key;
            if self.selected.contains(&key) {
                self.selected.remove(&key);
                Some(false)
            } else {
                self.selected.insert(key);
                Some(true)
            }
        } else {
            None
        }
    }

    /// Selects every row.
    pub fn select_all(&mut self)
        ensures
            final(self)@ == old(self)@.all_selected(),
            final(self)@.wf(),
    {
        self.selected.clear();
        let mut index: usize = 0;
        while index < self.frames.len()
            invariant
                index <= self.frames.len(),
                self.frames == old(self).frames,
                forall|key: u64|
                    self.selected@.contains(key) <==> exists|i: int|
                        0 <= i < index && #[trigger] self.frames@[i].key == key,
            decreases self.frames.len() - index,
        {
            let key = self.frames[index].key;
            self.selected.insert(key);
            index += 1;
        }
        proof {
            assert(self.selected@ =~= old(self)@.keys());
        }
    }

    /// Deselects every row.
    pub fn deselect_all(&mut self)
        ensures
            final(self)@ == old(self)@.none_selected(),
            final(self)@.wf(),
    {
        self.selected.clear();
    }

    /// The button that selects or deselects all rows: selects every row if
    /// none is selected, else deselects every row.
    pub fn toggle_all(&mut self)
        ensures
            final(self)@ == old(self)@.toggled_all(),
            final(self)@.wf(),
    {
        if self.selected.is_empty() {
            self.select_all();
        } else {
            self.deselect_all();
        }
    }

    /// Deletes the row at `index` and gives its record; `None`, and
    /// nothing changes, where the list has no such row. The record's key
    /// leaves the selection with it.
    pub fn delete(&mut self, index: usize) -> (deleted: Option<LoadedFrame>)
        ensures
            final(self)@ == old(self)@.deleted(index as int),
            deleted == if index < old(self)@.frames.len() {
                Some(old(self)@.frames[index as int])
            } else {
                None
            },
            old(self)@.wf() ==> final(self)@.wf(),
    {
        proof {
            if self@.wf() {
                lemma_step_wf(self@, Request::Delete(index));
            }
        }
        if index < self.frames.len() {
            let frame = self.frames.remove(index);
            self.selected.remove(&frame.key);
            Some(frame)
        } else {
            None
        }
    }

    /// Deletes every row; nothing stays selected.
    pub fn delete_all(&mut self)
        ensures
            final(self)@ == DataView::empty(),
            final(self)@.wf(),
    {
        self.frames.clear();
        self.selected.clear();
    }

    /// Moves the row at `from` to the drop position `to`, and tells
    /// whether both positions are within the list, which is when the list
    /// is what `moved` says; else nothing changes.
    pub fn reorder(&mut self, from: usize, to: usize) -> (within: bool)
        ensures
            final(self)@ == old(self)@.reordered(from as int, to as int),
            within == (from < old(self)@.frames.len() && to <= old(self)@.frames.len()),
            old(self)@.wf() ==> final(self)@.wf(),
    {
        proof {
            if self@.wf() {
                lemma_step_wf(self@, Request::Reorder { from, to });
            }
        }
        if from < self.frames.len() && to <= self.frames.len() {
            if from != to {
                let frame = self.frames.remove(from);
                if from < to {
                    self.frames.insert(to - 1, frame);
                } else {
                    self.frames.insert(to, frame);
                }
            }
            true
        } else {
            false
        }
    }

    /// The selected records, in the order of the list.
    pub fn selected(&self) -> (picked: Vec<&LoadedFrame>)
        ensures
            picked@.len() == self@.picked().len(),
            forall|i: int| 0 <= i < picked@.len() ==> *#[trigger] picked@[i] == self@.picked()[i],
    {
        let mut picked: Vec<&LoadedFrame> = Vec::new();
        let mut index: usize = 0;
        let ghost chosen = |frame: LoadedFrame| self.selected@.contains(frame.key);
        while index < self.frames.len()
            invariant
                index <= self.frames.len(),
                chosen == |frame: LoadedFrame| self.selected@.contains(frame.key),
                picked@.len() == self.frames@.take(index as int).filter(chosen).len(),
                forall|i: int|
                    0 <= i < picked@.len() ==> *#[trigger] picked@[i] == self.frames@.take(
                        index as int,
                    ).filter(chosen)[i],
            decreases self.frames.len() - index,
        {
            proof {
                let before = self.frames@.take(index as int);
                let after = self.frames@.take(index + 1);
                assert(after.drop_last() == before);
                assert(after.last() == self.frames@[index as int]);
                reveal(Seq::filter);
            }
            if self.selected.contains(&self.frames[index].key) {
                picked.push(&self.frames[index]);
            }
            index += 1;
        }
        proof {
            assert(self.frames@.take(self.frames.len() as int) == self.frames@);
        }
        picked
    }

    /// Carries out a request of the user.
    pub fn apply(&mut self, request: Request)
        ensures
            final(self)@ == old(self)@.step(request),
            old(self)@.wf() ==> final(self)@.wf(),
    {
        proof {
            if self@.wf() {
                lemma_step_wf(self@, request);
            }
        }
        match request {
            Request::Add(frame) => {
                self.add(frame);
            },
            Request::ToggleSelect(index) => {
                self.toggle_select(index);
            },
            Request::SelectAll => {
                self.select_all();
            },
            Request::DeselectAll => {
                self.deselect_all();
            },
            Request::ToggleAll => {
                self.toggle_all();
            },
            Request::Delete(index) => {
                self.delete(index);
            },
            Request::DeleteAll => {
                self.delete_all();
            },
            Request::Reorder { from, to } => {
                self.reorder(from, to);
            },
        }
    }
}

impl Default for Data {
    fn default() -> (data: Data)
        ensures
            data@ == DataView::empty(),
    {
        Data::new()
    }
}

/// A move keeps every record of the list in the list.
pub proof fn lemma_moved_keeps<T>(order: Seq<T>, from: int, to: int, index: int)
    requires
        0 <= index < order.len(),
    ensures
        moved(order, from, to).contains(order[index]),
{
    broadcast use vstd::multiset::group_multiset_axioms;

    lemma_moved_permutes(order, from, to);
    order.to_multiset_ensures();
    moved(order, from, to).to_multiset_ensures();
    assert(order.contains(order[index]));
    assert(order.to_multiset().count(order[index]) > 0);
}

/// A selected key of a consistent list is the key of some row.
proof fn lemma_row_of_key(view: DataView, key: u64) -> (index: int)
    requires
        view.wf(),
        view.selected.contains(key),
    ensures
        0 <= index < view.frames.len(),
        view.frames[index].key == key,
{
    assert(view.has_key(key));
    choose|index: int| 0 <= index < view.frames.len() && #[trigger] view.frames[index].key == key
}

/// No request makes the selection refer to a record that is not in the
/// list.
pub proof fn lemma_step_wf(view: DataView, request: Request)
    requires
        view.wf(),
    ensures
        view.step(request).wf(),
{
    let after = view.step(request);
    assert forall|key: u64| after.selected.contains(key) implies after.has_key(key) by {
        match request {
            Request::Add(frame) => {
                let index = lemma_row_of_key(view, key);
                assert(after.frames[index].key == key);
            },
            Request::ToggleSelect(at) => {
                if 0 <= at < view.frames.len() && key == view.frames[at as int].key {
                    assert(after.frames[at as int].key == key);
                } else {
                    assert(view.selected.contains(key));
                    let index = lemma_row_of_key(view, key);
                    assert(after.frames[index].key == key);
                }
            },
            Request::SelectAll => {},
            Request::DeselectAll => {},
            Request::ToggleAll => {},
            Request::Delete(at) => {
                if 0 <= at < view.frames.len() {
                    assert(view.selected.contains(key));
                    let index = lemma_row_of_key(view, key);
                    if index < at {
                        assert(after.frames[index].key == key);
                    } else {
                        assert(index > at);
                        assert(after.frames[index - 1].key == key);
                    }
                }
            },
            Request::DeleteAll => {},
            Request::Reorder { from, to } => {
                let index = lemma_row_of_key(view, key);
                lemma_moved_keeps(view.frames, from as int, to as int, index);
                let landed = choose|landed: int|
                    0 <= landed < after.frames.len() && after.frames[landed] == view.frames[index];
                assert(after.frames[landed].key == key);
            },
        }
    }
}

/// Whatever the user asks for, in whatever order, every selected key stays
/// the key of a row of the list.
pub proof fn lemma_run_wf(view: DataView, requests: Seq<Request>)
    requires
        view.wf(),
    ensures
        view.run(requests).wf(),
    decreases requests.len(),
{
    if requests.len() > 0 {
        lemma_run_wf(view, requests.drop_last());
        lemma_step_wf(view.run(requests.drop_last()), requests.last());
    }
}

/// From the empty list on, the selection never refers to a record that is
/// not in the list.
pub proof fn lemma_selection_consistent(requests: Seq<Request>)
    ensures
        DataView::empty().run(requests).wf(),
{
    lemma_run_wf(DataView::empty(), requests);
}

/// Selecting all rows selects exactly the rows of the list, whatever was
/// selected before; pressing the button for all rows after that deselects
/// every row. From an empty selection the button itself selects all rows.
pub proof fn lemma_select_all_toggle(view: DataView)
    ensures
        view.all_selected().selected == view.keys(),
        view.all_selected().frames == view.frames,
        view.all_selected().toggled_all().selected == Set::<u64>::empty(),
        view.selected.is_empty() ==> view.toggled_all() == view.all_selected(),
        !view.selected.is_empty() ==> view.toggled_all().selected == Set::<u64>::empty(),
{
    let all = view.all_selected();
    if all.selected.is_empty() {
        assert(all.keys() =~= all.selected);
        assert(all.toggled_all().selected =~= Set::<u64>::empty());
    }
}

/// Toggling a row changes the selection of that record and of no other.
pub proof fn lemma_toggle_one_row(view: DataView, index: int, key: u64)
    requires
        0 <= index < view.frames.len(),
    ensures
        view.toggled(index).frames == view.frames,
        view.toggled(index).selected.contains(view.frames[index].key) == !view.selected.contains(
            view.frames[index].key,
        ),
        key != view.frames[index].key ==> view.toggled(index).selected.contains(key)
            == view.selected.contains(key),
        view.toggled(index).toggled(index) == view,
{
    assert(view.toggled(index).toggled(index).selected =~= view.selected);
}

/// Dropping a row at its own position leaves the list as it is.
pub proof fn lemma_reorder_self(view: DataView, index: int)
    ensures
        view.reordered(index, index) == view,
{
    lemma_moved_self(view.frames, index);
}

/// After a deletion the selection holds what it held, but for the key of
/// the deleted record.
pub proof fn lemma_deleted_selection(view: DataView, index: int)
    requires
        0 <= index < view.frames.len(),
    ensures
        view.deleted(index).frames.len() == view.frames.len() - 1,
        !view.deleted(index).selected.contains(view.frames[index].key),
        forall|key: u64|
            key != view.frames[index].key ==> view.deleted(index).selected.contains(key)
                == view.selected.contains(key),
{
}

} // verus!
