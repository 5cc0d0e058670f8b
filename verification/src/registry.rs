//! The pane registry: the open panes by tile id, and the layout root.

use crate::kind::Kind;
use crate::pane::Pane;
use crate::tiles::{
    no_tiles, tiles_add_child, tiles_ids, tiles_insert_pane, tiles_insert_vertical,
    tiles_is_container, tiles_new, tiles_pane, tiles_remove, tiles_view, TileView,
};
use egui_tiles::Tiles;
use vstd::prelude::*;

verus! {

broadcast use vstd::std_specs::vec::axiom_spec_into_iter;

/// The registry as a mathematical value: what each tile id names, and the
/// tile that the layout starts from.
#[verifier::ext_equal]
pub struct RegistryView {
    pub tiles: Map<u64, TileView>,
    pub root: Option<u64>,
}

impl RegistryView {
    /// The registry without tiles.
    pub open spec fn empty() -> RegistryView {
        RegistryView { tiles: no_tiles(), root: None }
    }

    /// Only finitely many ids are in use.
    pub open spec fn wf(self) -> bool {
        self.tiles.dom().finite()
    }

    /// Whether `id` names a pane.
    pub open spec fn has_pane(self, id: u64) -> bool {
        self.tiles.contains_key(id) && self.tiles[id] is Pane
    }

    /// The open panes, by tile id.
    pub open spec fn panes(self) -> Map<u64, Pane> {
        Map::new(|id: u64| self.has_pane(id), |id: u64| self.tiles[id]->Pane_0)
    }

    /// Whether `top` is the largest id in use, or 0 where none is.
    pub open spec fn is_top(self, top: u64) -> bool {
        &&& top == 0 || self.tiles.contains_key(top)
        &&& forall|id: u64| self.tiles.contains_key(id) ==> id <= top
    }

    /// The largest id in use, or 0 where none is.
    pub open spec fn top(self) -> u64 {
        choose|top: u64| self.is_top(top)
    }

    /// Whether the ids have run out. A new pane takes the id after the
    /// largest in use, and the container that may have to hold it the one
    /// after that.
    pub open spec fn full(self) -> bool {
        self.top() > u64::MAX - 2
    }

    /// The id that the next pane gets.
    pub open spec fn next_id(self) -> u64
        recommends
            !self.full(),
    {
        (self.top() + 1) as u64
    }

    /// Whether `id` names a pane of the given kind and liveness.
    pub open spec fn is_match(self, id: u64, kind: Kind, real_time: bool) -> bool {
        self.has_pane(id) && self.tiles[id]->Pane_0.fills(kind, real_time)
    }

    /// Whether `id` is the least id that names a pane of the given kind
    /// and liveness.
    pub open spec fn is_first_match(self, id: u64, kind: Kind, real_time: bool) -> bool {
        &&& self.is_match(id, kind, real_time)
        &&& forall|other: u64| self.is_match(other, kind, real_time) ==> id <= other
    }

    /// The first pane of the given kind and liveness, in the order of the
    /// ids, which is the order in which the registry opened them.
    pub open spec fn find(self, kind: Kind, real_time: bool) -> Option<u64> {
        if exists|id: u64| self.is_first_match(id, kind, real_time) {
            Some(choose|id: u64| self.is_first_match(id, kind, real_time))
        } else {
            None
        }
    }

    /// The registry after `pane` was opened: the pane stands under the next
    /// id, as the last child of the root container. A root that is a pane
    /// is first put into a new top-down container, which becomes the root;
    /// without a root tile the new pane is the root.
    pub open spec fn inserted(self, pane: Pane) -> RegistryView
        recommends
            !self.full(),
    {
        let id = self.next_id();
        let tiles = self.tiles.insert(id, TileView::Pane(pane));
        match self.root {
            Some(root) if self.tiles.contains_key(root) => match self.tiles[root] {
                TileView::Container(children) => RegistryView {
                    tiles: tiles.insert(root, TileView::Container(children.push(id))),
                    root: self.root,
                },
                TileView::Pane(_) => RegistryView {
                    tiles: tiles.insert(
                        (id + 1) as u64,
                        TileView::Container(seq![root, id]),
                    ),
                    root: Some((id + 1) as u64),
                },
            },
            _ => RegistryView { tiles, root: Some(id) },
        }
    }

    /// The registry after the tile `id` was deleted. A container that lists
    /// the tile as a child keeps listing it; a root that was this tile is
    /// no root any more.
    pub open spec fn removed(self, id: u64) -> RegistryView {
        RegistryView {
            tiles: self.tiles.remove(id),
            root: if self.root == Some(id) {
                None
            } else {
                self.root
            },
        }
    }

    /// The registry after the panes were opened one after the other, each
    /// as far as an id was left for it.
    pub open spec fn opened_all(self, panes: Seq<Pane>) -> RegistryView
        decreases panes.len(),
    {
        if panes.len() == 0 {
            self
        } else {
            let before = self.opened_all(panes.drop_last());
            if before.full() {
                before
            } else {
                before.inserted(panes.last())
            }
        }
    }

    /// Whether at most one pane of the given kind and liveness is open.
    pub open spec fn at_most_one(self, kind: Kind, real_time: bool) -> bool {
        forall|a: u64, b: u64|
            self.is_match(a, kind, real_time) && self.is_match(b, kind, real_time) ==> a == b
    }

    /// What a toggle does.
    pub open spec fn toggle_outcome(self, template: Pane) -> Toggled {
        match self.find(template.kind, template.is_real_time()) {
            Some(id) => Toggled::Closed(id),
            None => if self.full() {
                Toggled::Full
            } else {
                Toggled::Opened(self.next_id())
            },
        }
    }

    /// The registry after a toggle: the first pane of the template's kind
    /// and liveness is closed, or, where there is none, the template is
    /// opened.
    pub open spec fn toggled(self, template: Pane) -> RegistryView {
        match self.toggle_outcome(template) {
            Toggled::Closed(id) => self.removed(id),
            Toggled::Opened(_) => self.inserted(template),
            Toggled::Full => self,
        }
    }
}

/// What a toggle did.
#[derive(Clone, Copy, Debug, PartialEq, Eq, Structural)]
pub enum Toggled {
    /// A pane of the template's kind and liveness was open under this id,
    /// and was closed.
    Closed(u64),
    /// No such pane was open; the template was opened under this id.
    Opened(u64),
    /// No such pane was open, and none could be opened: the ids have run out.
    Full,
}

/// The largest id in use is determined by the tiles.
pub proof fn lemma_top_unique(view: RegistryView, a: u64, b: u64)
    requires
        view.is_top(a),
        view.is_top(b),
    ensures
        a == b,
        view.top() == a,
{
}

/// A finite set of ids has a largest member, unless it is empty.
proof fn lemma_largest_id(ids: Set<u64>) -> (largest: u64)
    requires
        ids.finite(),
        !ids.is_empty(),
    ensures
        ids.contains(largest),
        forall|id: u64| ids.contains(id) ==> id <= largest,
    decreases ids.len(),
{
    let picked = ids.choose();
    let rest = ids.remove(picked);
    if rest.is_empty() {
        assert forall|id: u64| ids.contains(id) implies id <= picked by {
            if id != picked {
                assert(rest.contains(id));
            }
        }
        picked
    } else {
        let of_rest = lemma_largest_id(rest);
        let largest = if picked > of_rest {
            picked
        } else {
            of_rest
        };
        assert forall|id: u64| ids.contains(id) implies id <= largest by {
            if id != picked {
                assert(rest.contains(id));
            }
        }
        largest
    }
}

/// Among finitely many ids one is the largest: `top` is what it says.
pub proof fn lemma_top(view: RegistryView)
    requires
        view.wf(),
    ensures
        view.is_top(view.top()),
        view.tiles.dom().is_empty() ==> view.top() == 0,
{
    if view.tiles.dom().is_empty() {
        assert(view.is_top(0)) by {
            assert forall|id: u64| view.tiles.contains_key(id) implies id <= 0 by {
                assert(view.tiles.dom().contains(id));
            }
        }
    } else {
        let largest = lemma_largest_id(view.tiles.dom());
        assert(view.is_top(largest));
    }
}

/// The first match is determined by the tiles.
pub proof fn lemma_first_match_unique(view: RegistryView, kind: Kind, real_time: bool, a: u64)
    requires
        view.is_first_match(a, kind, real_time),
    ensures
        view.find(kind, real_time) == Some(a),
{
    let b = choose|id: u64| view.is_first_match(id, kind, real_time);
    assert(view.is_match(a, kind, real_time));
    assert(view.is_match(b, kind, real_time));
}

/// The open panes by tile id, held in the tile container of `egui_tiles`,
/// together with the id of the tile that the layout starts from.
pub struct PaneRegistry {
    pub tiles: Tiles<Pane>,
    pub root: Option<u64>,
}

impl PaneRegistry {
    /// The registry as a mathematical value.
    pub open spec fn view(&self) -> RegistryView {
        RegistryView { tiles: tiles_view(self.tiles), root: self.root }
    }

    /// A registry without tiles.
    pub fn new() -> (registry: PaneRegistry)
        ensures
            registry@ == RegistryView::empty(),
    {
        PaneRegistry { tiles: tiles_new(), root: None }
    }

    /// Closes every pane and forgets the layout.
    pub fn reset(&mut self)
        ensures
            final(self)@ == RegistryView::empty(),
    {
        self.tiles = tiles_new();
        self.root = None;
    }

    /// The largest id in use, or 0 where none is.
    pub fn top(&self) -> (top: u64)
        ensures
            self@.is_top(top),
            top == self@.top(),
            self@.wf(),
    {
        let ids = tiles_ids(&self.tiles);
        let mut top: u64 = 0;
        let mut index: usize = 0;
        while index < ids.len()
            invariant
                index <= ids.len(),
                top == 0 || exists|i: int| 0 <= i < index && ids@[i] == top,
                forall|i: int| 0 <= i < index ==> ids@[i] <= top,
            decreases ids.len() - index,
        {
            if ids[index] > top {
                top = ids[index];
            }
            index += 1;
        }
        proof {
            vstd::seq_lib::seq_to_set_is_finite(ids@);
            assert forall|id: u64| self@.tiles.contains_key(id) implies id <= top by {
                assert(ids@.to_set().contains(id));
                let i = choose|i: int| 0 <= i < ids@.len() && ids@[i] == id;
                assert(ids@[i] <= top);
            }
            if top != 0 {
                let i = choose|i: int| 0 <= i < index && ids@[i] == top;
                assert(ids@.contains(ids@[i]));
                assert(ids@.to_set().contains(top));
            }
            lemma_top_unique(self@, top, top);
        }
        top
    }

    /// Whether the ids have run out, so that no pane can be opened.
    pub fn is_full(&self) -> (full: bool)
        ensures
            full == self@.full(),
    {
        self.top() > u64::MAX - 2
    }

    /// The pane that `id` names, if it names one.
    pub fn pane(&self, id: u64) -> (pane: Option<&Pane>)
        ensures
            match pane {
                Some(pane) => self@.has_pane(id) && self@.panes()[id] == *pane,
                None => !self@.has_pane(id),
            },
    {
        tiles_pane(&self.tiles, id)
    }

    /// Opens `pane` as a new tile and gives its id, or `None` where the ids
    /// have run out. No pane is looked for first: a pane of the same kind
    /// and liveness may be open already.
    pub fn insert(&mut self, pane: Pane) -> (id: Option<u64>)
        ensures
            id == if old(self)@.full() {
                None
            } else {
                Some(old(self)@.next_id())
            },
            final(self)@ == if old(self)@.full() {
                old(self)@
            } else {
                old(self)@.inserted(pane)
            },
            !old(self)@.full() ==> !old(self)@.tiles.contains_key(old(self)@.next_id()),
            !old(self)@.full() ==> final(self)@.panes() == old(self)@.panes().insert(
                old(self)@.next_id(),
                pane,
            ),
            old(self)@.wf(),
            final(self)@.wf(),
    {
        let top = self.top();
        if top > u64::MAX - 2 {
            return None;
        }
        let id = top + 1;
        let ghost before = self@;
        match self.root {
            Some(root) => {
                if tiles_is_container(&self.tiles, root) {
                    tiles_insert_pane(&mut self.tiles, id, pane);
                    tiles_add_child(&mut self.tiles, root, id);
                } else if tiles_pane(&self.tiles, root).is_some() {
                    let mut children = Vec::new();
                    children.push(root);
                    children.push(id);
                    tiles_insert_pane(&mut self.tiles, id, pane);
                    tiles_insert_vertical(&mut self.tiles, id + 1, children);
                    self.root = Some(id + 1);
                    proof {
                        assert(children@ =~= seq![root, id]);
                    }
                } else {
                    tiles_insert_pane(&mut self.tiles, id, pane);
                    self.root = Some(id);
                }
            },
            None => {
                tiles_insert_pane(&mut self.tiles, id, pane);
                self.root = Some(id);
            },
        }
        proof {
            assert(self@.tiles =~= before.inserted(pane).tiles);
            assert(self@ == before.inserted(pane));
            lemma_inserted_panes(before, pane);
        }
        Some(id)
    }

    /// Opens the panes one after the other, each as far as an id is left
    /// for it.
    pub fn insert_all(&mut self, panes: Vec<Pane>)
        ensures
            final(self)@ == old(self)@.opened_all(panes@),
    {
        let ghost before = self@;
        let ghost all = panes@;
        for pane in it: panes.into_iter()
            invariant
                it.seq() == all,
                self@ == before.opened_all(all.take(it.index() as int)),
        {
            proof {
                let done = it.index() as int;
                assert(all.take(done + 1).drop_last() == all.take(done));
                assert(all.take(done + 1).last() == pane);
            }
            self.insert(pane);
        }
        proof {
            assert(all.take(all.len() as int) == all);
        }
    }

    /// The first pane of the given kind and liveness, in the order of the
    /// ids, or `None` where no such pane is open.
    pub fn find(&self, kind: Kind, real_time: bool) -> (found: Option<u64>)
        ensures
            found == self@.find(kind, real_time),
            match found {
                Some(id) => self@.is_first_match(id, kind, real_time),
                None => forall|id: u64| !self@.is_match(id, kind, real_time),
            },
            self@.wf(),
    {
        let ids = tiles_ids(&self.tiles);
        let mut found: Option<u64> = None;
        let mut index: usize = 0;
        while index < ids.len()
            invariant
                index <= ids.len(),
                ids@.to_set() == self@.tiles.dom(),
                match found {
                    Some(id) => self@.is_match(id, kind, real_time),
                    None => true,
                },
                forall|i: int|
                    0 <= i < index && self@.is_match(ids@[i], kind, real_time) ==> found is Some
                        && found->0 <= ids@[i],
            decreases ids.len() - index,
        {
            let id = ids[index];
            let better = match found {
                Some(least) => id < least,
                None => true,
            };
            if better {
                match tiles_pane(&self.tiles, id) {
                    Some(pane) => {
                        if pane.kind == kind && pane.is_real_time() == real_time {
                            found = Some(id);
                        }
                    },
                    None => {},
                }
            }
            index += 1;
        }
        proof {
            vstd::seq_lib::seq_to_set_is_finite(ids@);
            assert forall|id: u64| self@.is_match(id, kind, real_time) implies found is Some
                && found->0 <= id by {
                assert(ids@.to_set().contains(id));
                let i = choose|i: int| 0 <= i < ids@.len() && ids@[i] == id;
                assert(self@.is_match(ids@[i], kind, real_time));
            }
            match found {
                Some(id) => {
                    lemma_first_match_unique(self@, kind, real_time, id);
                },
                None => {},
            }
        }
        found
    }

    /// Deletes the tile `id`; nothing changes where `id` is not in use.
    pub fn remove(&mut self, id: u64)
        ensures
            final(self)@ == old(self)@.removed(id),
            final(self)@.panes() == old(self)@.panes().remove(id),
    {
        tiles_remove(&mut self.tiles, id);
        if self.root == Some(id) {
            self.root = None;
        }
        proof {
            assert(self@.panes() =~= old(self)@.panes().remove(id));
        }
    }

    /// Closes the first pane of the template's kind and liveness, or opens
    /// the template where no such pane is open. This is how a live pane is
    /// opened on request: as long as live panes are opened in no other way,
    /// at most one of each kind is open.
    pub fn toggle(&mut self, template: Pane) -> (done: Toggled)
        ensures
            done == old(self)@.toggle_outcome(template),
            final(self)@ == old(self)@.toggled(template),
            old(self)@.wf(),
            final(self)@.wf(),
    {
        let ghost before = self@;
        match self.find(template.kind, template.is_real_time()) {
            Some(id) => {
                self.remove(id);
                proof {
                    lemma_removed_panes(before, id);
                }
                Toggled::Closed(id)
            },
            None => match self.insert(template) {
                Some(id) => Toggled::Opened(id),
                None => Toggled::Full,
            },
        }
    }
}

/// Opening a pane leaves every pane that was open as it was, and adds the
/// new one under an id that was not in use.
pub proof fn lemma_inserted_panes(view: RegistryView, pane: Pane)
    requires
        view.wf(),
        !view.full(),
    ensures
        !view.tiles.contains_key(view.next_id()),
        view.inserted(pane).panes() == view.panes().insert(view.next_id(), pane),
        view.inserted(pane).wf(),
{
    lemma_top(view);
    assert(view.inserted(pane).panes() =~= view.panes().insert(view.next_id(), pane));
}

/// Toggling twice cancels out: where no pane of the template's kind and
/// liveness is open, a toggle opens the template, and a second toggle with
/// a template of the same kind and liveness closes exactly that pane again,
/// so that the same panes are open under the same ids as before.
pub proof fn lemma_toggle_twice(view: RegistryView, first: Pane, second: Pane)
    requires
        view.wf(),
        !view.full(),
        second.kind == first.kind,
        second.is_real_time() == first.is_real_time(),
        view.find(first.kind, first.is_real_time()) is None,
    ensures
        view.toggle_outcome(first) == Toggled::Opened(view.next_id()),
        view.toggled(first).toggle_outcome(second) == Toggled::Closed(view.next_id()),
        view.toggled(first).toggled(second).panes() == view.panes(),
{
    let kind = first.kind;
    let real_time = first.is_real_time();
    let id = view.next_id();
    let opened = view.toggled(first);
    lemma_inserted_panes(view, first);
    assert(opened == view.inserted(first));
    assert(opened.panes().contains_key(id));
    assert(opened.panes()[id] == first);
    assert(opened.is_match(id, kind, real_time));
    assert forall|other: u64| opened.is_match(other, kind, real_time) implies id <= other by {
        if other != id {
            assert(opened.panes().contains_key(other));
            assert(view.panes().contains_key(other));
            assert(view.is_match(other, kind, real_time));
            lemma_no_match(view, kind, real_time, other);
        }
    }
    lemma_first_match_unique(opened, kind, real_time, id);
    lemma_removed_panes(opened, id);
    assert(!view.panes().contains_key(id));
    assert(view.panes().insert(id, first).remove(id) =~= view.panes());
}

/// Deleting a tile closes the pane that it named, if any, and no other.
pub proof fn lemma_removed_panes(view: RegistryView, id: u64)
    ensures
        view.removed(id).panes() == view.panes().remove(id),
        view.wf() ==> view.removed(id).wf(),
{
    assert(view.removed(id).panes() =~= view.panes().remove(id));
}

/// Where `find` gives nothing, no pane is of the given kind and liveness.
pub proof fn lemma_no_match(view: RegistryView, kind: Kind, real_time: bool, id: u64)
    requires
        view.find(kind, real_time) is None,
    ensures
        !view.is_match(id, kind, real_time),
    decreases id,
{
    if view.is_match(id, kind, real_time) {
        if exists|lower: u64| lower < id && view.is_match(lower, kind, real_time) {
            let lower = choose|lower: u64| lower < id && view.is_match(lower, kind, real_time);
            lemma_no_match(view, kind, real_time, lower);
        } else {
            assert(view.is_first_match(id, kind, real_time));
        }
    }
}

/// Toggling keeps panes unique: where at most one pane of some kind and
/// liveness is open, a toggle with any template leaves at most one such
/// pane open. So among panes that are only ever opened by toggling, no two
/// are of the same kind and liveness.
pub proof fn lemma_toggle_keeps_one(view: RegistryView, template: Pane, kind: Kind, real_time: bool)
    requires
        view.wf(),
        view.at_most_one(kind, real_time),
    ensures
        view.toggled(template).at_most_one(kind, real_time),
{
    let after = view.toggled(template);
    match view.toggle_outcome(template) {
        Toggled::Closed(id) => {
            lemma_removed_panes(view, id);
            assert forall|a: u64, b: u64|
                after.is_match(a, kind, real_time) && after.is_match(
                    b,
                    kind,
                    real_time,
                ) implies a == b by {
                assert(after.panes().contains_key(a) && after.panes().contains_key(b));
                assert(view.is_match(a, kind, real_time) && view.is_match(b, kind, real_time));
            }
        },
        Toggled::Opened(id) => {
            lemma_inserted_panes(view, template);
            assert forall|a: u64, b: u64|
                after.is_match(a, kind, real_time) && after.is_match(
                    b,
                    kind,
                    real_time,
                ) implies a == b by {
                assert(after.panes().contains_key(a) && after.panes().contains_key(b));
                if a != id {
                    assert(view.panes().contains_key(a));
                    assert(view.is_match(a, kind, real_time));
                }
                if b != id {
                    assert(view.panes().contains_key(b));
                    assert(view.is_match(b, kind, real_time));
                }
                if a != b && (a == id || b == id) {
                    let other = if a == id {
                        b
                    } else {
                        a
                    };
                    assert(after.panes()[id] == template);
                    assert(template.fills(kind, real_time));
                    lemma_no_match(view, kind, real_time, other);
                }
            }
        },
        Toggled::Full => {},
    }
}

/// Toggling twice where the pane is open: the first toggle closes it, and
/// the second opens the second template in its place, under the id that is
/// next once the first pane is gone. Every other pane stays as it was.
pub proof fn lemma_toggle_twice_reopens(view: RegistryView, first: Pane, second: Pane, id: u64)
    requires
        view.wf(),
        second.kind == first.kind,
        second.is_real_time() == first.is_real_time(),
        view.find(first.kind, first.is_real_time()) == Some(id),
        view.at_most_one(first.kind, first.is_real_time()),
        !view.removed(id).full(),
    ensures
        view.toggle_outcome(first) == Toggled::Closed(id),
        view.toggled(first).toggle_outcome(second) == Toggled::Opened(view.removed(id).next_id()),
        view.toggled(first).toggled(second).panes() == view.panes().remove(id).insert(
            view.removed(id).next_id(),
            second,
        ),
{
    let kind = first.kind;
    let real_time = first.is_real_time();
    let closed = view.removed(id);
    lemma_removed_panes(view, id);
    assert(view.is_first_match(id, kind, real_time));
    assert forall|other: u64| !closed.is_match(other, kind, real_time) by {
        if closed.is_match(other, kind, real_time) {
            assert(closed.panes().contains_key(other));
            assert(view.is_match(other, kind, real_time));
            assert(other == id);
        }
    }
    assert(closed.find(kind, real_time) is None) by {
        if exists|found: u64| closed.is_first_match(found, kind, real_time) {
            let found = choose|found: u64| closed.is_first_match(found, kind, real_time);
            assert(closed.is_match(found, kind, real_time));
        }
    }
    lemma_inserted_panes(closed, second);
}

} // verus!
