//! Facts about counting the entries that show a wallpaper, and about the
//! searches of the model.

use vstd::prelude::*;
use crate::wayland::model::{
    BackgroundView, LayerView, WallpaperKey, WallpaperView, find_background_from,
    find_equal_from, find_layer_from, first_vacant_from, references, same_key, sharing,
    swap_removed,
};

verus! {

/// One more entry adds one to the count of the wallpaper it shows.
pub proof fn lemma_references_push(
    backgrounds: Seq<BackgroundView>,
    background: BackgroundView,
    id: usize,
)
    ensures
        references(backgrounds.push(background), id) == references(backgrounds, id) + if
            background.wallpaper == id {
            1nat
        } else {
            0nat
        },
{
    assert(backgrounds.push(background).drop_last() =~= backgrounds);
}

/// An entry that shows a wallpaper is counted.
pub proof fn lemma_references_positive(backgrounds: Seq<BackgroundView>, b: int, id: usize)
    requires
        0 <= b < backgrounds.len(),
        backgrounds[b].wallpaper == id,
    ensures
        references(backgrounds, id) >= 1,
    decreases backgrounds.len(),
{
    if b < backgrounds.len() - 1 {
        lemma_references_positive(backgrounds.drop_last(), b, id);
    }
}

/// A layer's entries are counted among those of all layers.
pub proof fn lemma_sharing_includes(layers: Seq<LayerView>, l: int, id: usize)
    requires
        0 <= l < layers.len(),
    ensures
        sharing(layers, id) >= references(layers[l].backgrounds, id),
    decreases layers.len(),
{
    if l < layers.len() - 1 {
        lemma_sharing_includes(layers.drop_last(), l, id);
    }
}

/// A wallpaper that some entry shows has a sharer.
pub proof fn lemma_shown_is_shared(layers: Seq<LayerView>, l: int, b: int, id: usize)
    requires
        0 <= l < layers.len(),
        0 <= b < layers[l].backgrounds.len(),
        layers[l].backgrounds[b].wallpaper == id,
    ensures
        sharing(layers, id) >= 1,
{
    lemma_references_positive(layers[l].backgrounds, b, id);
    lemma_sharing_includes(layers, l, id);
}

/// One more layer adds the count of its entries.
pub proof fn lemma_sharing_push(layers: Seq<LayerView>, layer: LayerView, id: usize)
    ensures
        sharing(layers.push(layer), id) == sharing(layers, id) + references(
            layer.backgrounds,
            id,
        ),
{
    assert(layers.push(layer).drop_last() =~= layers);
}

/// Replacing a layer replaces the count of its entries.
pub proof fn lemma_sharing_update(layers: Seq<LayerView>, l: int, layer: LayerView, id: usize)
    requires
        0 <= l < layers.len(),
    ensures
        sharing(layers.update(l, layer), id) + references(layers[l].backgrounds, id) == sharing(
            layers,
            id,
        ) + references(layer.backgrounds, id),
    decreases layers.len(),
{
    let updated = layers.update(l, layer);
    if l == layers.len() - 1 {
        assert(updated.drop_last() =~= layers.drop_last());
    } else {
        assert(updated.drop_last() =~= layers.drop_last().update(l, layer));
        lemma_sharing_update(layers.drop_last(), l, layer, id);
    }
}

/// Removing a layer removes the count of its entries.
pub proof fn lemma_sharing_swap_removed(layers: Seq<LayerView>, l: int, id: usize)
    requires
        0 <= l < layers.len(),
    ensures
        sharing(swap_removed(layers, l), id) + references(layers[l].backgrounds, id) == sharing(
            layers,
            id,
        ),
{
    lemma_sharing_update(layers, l, layers.last(), id);
}

/// The number of entries that show one wallpaper is at most the number of
/// all entries, which is at most `bound` for each layer.
pub proof fn lemma_references_bound(backgrounds: Seq<BackgroundView>, id: usize)
    ensures
        references(backgrounds, id) <= backgrounds.len(),
    decreases backgrounds.len(),
{
    if backgrounds.len() > 0 {
        lemma_references_bound(backgrounds.drop_last(), id);
    }
}

/// With at most `bound` entries in each layer, no wallpaper has more than
/// `bound` sharers per layer.
pub proof fn lemma_sharing_bound(layers: Seq<LayerView>, id: usize, bound: nat)
    requires
        forall|l: int| 0 <= l < layers.len() ==> (#[trigger] layers[l]).backgrounds.len() <= bound,
    ensures
        sharing(layers, id) <= layers.len() * bound,
    decreases layers.len(),
{
    if layers.len() > 0 {
        lemma_sharing_bound(layers.drop_last(), id, bound);
        lemma_references_bound(layers.last().backgrounds, id);
        assert(layers.drop_last().len() * bound + bound == layers.len() * bound)
            by (nonlinear_arith)
            requires
                layers.drop_last().len() + 1 == layers.len(),
        ;
    }
}

/// What [`find_equal_from`] finds is the first live wallpaper with the key
/// from `start` on, and it finds nothing only where there is none.
pub proof fn lemma_find_equal_from(
    wallpapers: Seq<Option<WallpaperView>>,
    key: WallpaperKey,
    start: int,
)
    requires
        0 <= start <= wallpapers.len() <= usize::MAX,
    ensures
        match find_equal_from(wallpapers, key, start) {
            Some(id) => {
                &&& start <= id < wallpapers.len()
                &&& wallpapers[id as int] is Some
                &&& same_key(wallpapers[id as int]->0.key, key)
                &&& forall|j: int|
                    start <= j < id ==> !((#[trigger] wallpapers[j]) is Some && same_key(
                        wallpapers[j]->0.key,
                        key,
                    ))
            },
            None => forall|j: int|
                start <= j < wallpapers.len() ==> !((#[trigger] wallpapers[j]) is Some
                    && same_key(wallpapers[j]->0.key, key)),
        },
    decreases wallpapers.len() - start,
{
    if start < wallpapers.len() && !(wallpapers[start] is Some && same_key(
        wallpapers[start]->0.key,
        key,
    )) {
        lemma_find_equal_from(wallpapers, key, start + 1);
    }
}

/// What [`first_vacant_from`] returns is the first vacant place from
/// `start` on, or the length where every place is taken.
pub proof fn lemma_first_vacant_from(wallpapers: Seq<Option<WallpaperView>>, start: int)
    requires
        0 <= start <= wallpapers.len(),
    ensures
        start <= first_vacant_from(wallpapers, start) <= wallpapers.len(),
        first_vacant_from(wallpapers, start) < wallpapers.len() ==> wallpapers[first_vacant_from(
            wallpapers,
            start,
        )] is None,
        forall|j: int|
            start <= j < first_vacant_from(wallpapers, start) ==> (#[trigger] wallpapers[j])
                is Some,
    decreases wallpapers.len() - start,
{
    if start < wallpapers.len() && wallpapers[start] is Some {
        lemma_first_vacant_from(wallpapers, start + 1);
    }
}

/// What [`find_layer_from`] finds is the first layer of that name from
/// `start` on, and it finds nothing only where there is none.
pub proof fn lemma_find_layer_from(layers: Seq<LayerView>, name: Seq<char>, start: int)
    requires
        0 <= start <= layers.len() <= usize::MAX,
    ensures
        match find_layer_from(layers, name, start) {
            Some(l) => {
                &&& start <= l < layers.len()
                &&& layers[l as int].output_name == name
                &&& forall|j: int| start <= j < l ==> (#[trigger] layers[j]).output_name != name
            },
            None => forall|j: int|
                start <= j < layers.len() ==> (#[trigger] layers[j]).output_name != name,
        },
    decreases layers.len() - start,
{
    if start < layers.len() && layers[start].output_name != name {
        lemma_find_layer_from(layers, name, start + 1);
    }
}

/// What [`find_background_from`] finds is the wallpaper of the first entry
/// of that name from `start` on.
pub proof fn lemma_find_background_from(
    backgrounds: Seq<BackgroundView>,
    name: Seq<char>,
    start: int,
)
    requires
        0 <= start <= backgrounds.len(),
    ensures
        match find_background_from(backgrounds, name, start) {
            Some(wallpaper) => exists|b: int|
                {
                    &&& start <= b < backgrounds.len()
                    &&& (#[trigger] backgrounds[b]).workspace_name == name
                    &&& backgrounds[b].wallpaper == wallpaper
                    &&& forall|j: int|
                        start <= j < b ==> (#[trigger] backgrounds[j]).workspace_name != name
                },
            None => forall|j: int|
                start <= j < backgrounds.len() ==> (#[trigger] backgrounds[j]).workspace_name
                    != name,
        },
    decreases backgrounds.len() - start,
{
    if start < backgrounds.len() {
        if backgrounds[start].workspace_name != name {
            lemma_find_background_from(backgrounds, name, start + 1);
            match find_background_from(backgrounds, name, start + 1) {
                Some(wallpaper) => {
                    let b = choose|b: int|
                        {
                            &&& start + 1 <= b < backgrounds.len()
                            &&& (#[trigger] backgrounds[b]).workspace_name == name
                            &&& backgrounds[b].wallpaper == wallpaper
                            &&& forall|j: int|
                                start + 1 <= j < b ==> (#[trigger] backgrounds[j]).workspace_name
                                    != name
                        };
                    assert(start <= b < backgrounds.len() && backgrounds[b].workspace_name
                        == name);
                },
                None => {},
            }
        } else {
            assert(backgrounds[start].workspace_name == name);
        }
    }
}

/// Entries of which none shows a wallpaper do not count for it.
pub proof fn lemma_references_none(backgrounds: Seq<BackgroundView>, id: usize)
    requires
        forall|b: int| 0 <= b < backgrounds.len() ==> (#[trigger] backgrounds[b]).wallpaper != id,
    ensures
        references(backgrounds, id) == 0,
    decreases backgrounds.len(),
{
    if backgrounds.len() > 0 {
        assert forall|b: int| 0 <= b < backgrounds.drop_last().len() implies (
        #[trigger] backgrounds.drop_last()[b]).wallpaper != id by {
            assert(backgrounds.drop_last()[b] == backgrounds[b]);
        }
        lemma_references_none(backgrounds.drop_last(), id);
        assert(backgrounds.last() == backgrounds[backgrounds.len() - 1]);
    }
}

/// A wallpaper that no entry shows has no sharer.
pub proof fn lemma_unshown_is_unshared(layers: Seq<LayerView>, id: usize)
    requires
        forall|l: int, b: int|
            0 <= l < layers.len() && 0 <= b < layers[l].backgrounds.len() ==> (
            #[trigger] layers[l].backgrounds[b]).wallpaper != id,
    ensures
        sharing(layers, id) == 0,
    decreases layers.len(),
{
    if layers.len() > 0 {
        assert forall|l: int, b: int|
            0 <= l < layers.drop_last().len() && 0 <= b < layers.drop_last()[l].backgrounds.len()
            implies (#[trigger] layers.drop_last()[l].backgrounds[b]).wallpaper != id by {
            assert(layers.drop_last()[l] == layers[l]);
            assert(layers[l].backgrounds[b].wallpaper != id);
        }
        lemma_unshown_is_unshared(layers.drop_last(), id);
        let last = layers.len() - 1;
        assert forall|b: int| 0 <= b < layers.last().backgrounds.len() implies (
        #[trigger] layers.last().backgrounds[b]).wallpaper != id by {
            assert(layers[last].backgrounds[b].wallpaper != id);
        }
        lemma_references_none(layers.last().backgrounds, id);
    }
}

} // verus!
