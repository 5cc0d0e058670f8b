//! The tile container of `egui_tiles`, as far as the registry uses it.
//!
//! Tile ids cross this boundary as plain `u64` numbers, the number that a
//! `TileId` wraps. Nothing in this file is proved: each function states what
//! the `egui_tiles` source shows of the call that it makes.

use crate::pane::Pane;
use egui_tiles::{Container, Tile, TileId, Tiles};
use vstd::prelude::*;

verus! {

/// `egui_tiles::Tiles`, the container that holds every tile by its id.
#[verifier::external_type_specification]
#[verifier::external_body]
#[verifier::reject_recursive_types(T)]
pub struct ExTiles<T>(Tiles<T>);

/// What a tile is: a pane, or a layout container with the ids of its
/// children in order.
pub enum TileView {
    Pane(Pane),
    Container(Seq<u64>),
}

/// The tiles that a container holds, by id.
pub uninterp spec fn tiles_view(tiles: Tiles<Pane>) -> Map<u64, TileView>;

/// The contents of a container without tiles.
pub open spec fn no_tiles() -> Map<u64, TileView> {
    Map::empty()
}

/// `Tiles::default`: a container without tiles.
#[verifier::external_body]
pub(crate) fn tiles_new() -> (made: Tiles<Pane>)
    ensures
        tiles_view(made) == no_tiles(),
{
    Tiles::default()
}

/// `Tiles::tile_ids`: the ids that are in use, in no particular order.
#[verifier::external_body]
pub(crate) fn tiles_ids(tiles: &Tiles<Pane>) -> (ids: Vec<u64>)
    ensures
        ids@.to_set() == tiles_view(*tiles).dom(),
{
    tiles.tile_ids().map(|id| id.0).collect()
}

/// `Tiles::get_pane`: the pane under `id`, or nothing where `id` is not in
/// use or names a container.
#[verifier::external_body]
pub(crate) fn tiles_pane(tiles: &Tiles<Pane>, id: u64) -> (pane: Option<&Pane>)
    ensures
        match pane {
            Some(pane) => tiles_view(*tiles).contains_key(id) && tiles_view(*tiles)[id]
                == TileView::Pane(*pane),
            None => !(tiles_view(*tiles).contains_key(id) && tiles_view(*tiles)[id] is Pane),
        },
{
    tiles.get_pane(&TileId::from_u64(id))
}

/// `Tiles::get_container`: whether `id` names a container.
#[verifier::external_body]
pub(crate) fn tiles_is_container(tiles: &Tiles<Pane>, id: u64) -> (found: bool)
    ensures
        found == (tiles_view(*tiles).contains_key(id) && tiles_view(*tiles)[id] is Container),
{
    tiles.get_container(TileId::from_u64(id)).is_some()
}

/// `Tiles::insert` of a pane: `id` names the pane from now on, whatever it
/// named before; no other tile changes.
#[verifier::external_body]
pub(crate) fn tiles_insert_pane(tiles: &mut Tiles<Pane>, id: u64, pane: Pane)
    ensures
        tiles_view(*final(tiles)) == tiles_view(*old(tiles)).insert(id, TileView::Pane(pane)),
{
    tiles.insert(TileId::from_u64(id), Tile::Pane(pane));
}

/// `Tiles::insert` of `Container::new_vertical`: `id` names a top-down
/// container of the given children from now on; no other tile changes.
#[verifier::external_body]
pub(crate) fn tiles_insert_vertical(tiles: &mut Tiles<Pane>, id: u64, children: Vec<u64>)
    ensures
        tiles_view(*final(tiles)) == tiles_view(*old(tiles)).insert(
            id,
            TileView::Container(children@),
        ),
{
    let children = children.into_iter().map(TileId::from_u64).collect();
    tiles.insert(TileId::from_u64(id), Tile::Container(Container::new_vertical(children)));
}

/// `Tiles::get_mut`, then `Container::add_child`: `child` becomes the last
/// child of the container `parent`; no other tile changes.
#[verifier::external_body]
pub(crate) fn tiles_add_child(tiles: &mut Tiles<Pane>, parent: u64, child: u64)
    requires
        tiles_view(*old(tiles)).contains_key(parent),
        tiles_view(*old(tiles))[parent] is Container,
    ensures
        tiles_view(*final(tiles)) == tiles_view(*old(tiles)).insert(
            parent,
            TileView::Container(tiles_view(*old(tiles))[parent]->Container_0.push(child)),
        ),
{
    if let Some(Tile::Container(container)) = tiles.get_mut(TileId::from_u64(parent)) {
        container.add_child(TileId::from_u64(child));
    }
}

/// `Tiles::remove`: `id` names no tile from now on; no other tile changes,
/// and a container that lists `id` as a child keeps listing it.
#[verifier::external_body]
pub(crate) fn tiles_remove(tiles: &mut Tiles<Pane>, id: u64)
    ensures
        tiles_view(*final(tiles)) == tiles_view(*old(tiles)).remove(id),
{
    tiles.remove(TileId::from_u64(id));
}

} // verus!
