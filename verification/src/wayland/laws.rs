//! What holds of the model in every state: each operation keeps the state
//! well formed, and the behaviour that callers rely on across several calls.

use vstd::prelude::*;
use crate::output::OutputGeometry;
use crate::wayland::lemmas::{
    lemma_find_background_from, lemma_find_equal_from, lemma_find_layer_from,
    lemma_first_vacant_from, lemma_references_positive, lemma_references_push,
    lemma_sharing_push, lemma_sharing_swap_removed, lemma_sharing_update,
    lemma_shown_is_shared, lemma_unshown_is_unshared,
};
use crate::wayland::model::{
    BackgroundView, DestroyedView, DrawOutcome, FileView, FreedWallpaper, LayerDraw, LayerView,
    Placement, StateView, WallpaperView, attached, default_workspace, find_background_from,
    built_for, find_equal, find_layer, find_layer_from, first_vacant, references, same_key,
    sharing,
    swap_removed, unshared, unshared_all,
};

verus! {

/// Two arenas with the same wallpapers in the same places, up to their
/// active-use counts.
pub open spec fn same_sharing(
    a: Seq<Option<WallpaperView>>,
    b: Seq<Option<WallpaperView>>,
) -> bool {
    &&& a.len() == b.len()
    &&& forall|i: int|
        0 <= i < a.len() ==> match (#[trigger] a[i], b[i]) {
            (Some(x), Some(y)) => x.key == y.key && x.sharing_count == y.sharing_count
                && x.shm_size == y.shm_size,
            (None, None) => true,
            _ => false,
        }
}

/// The state before the first output is well formed.
pub proof fn lemma_initial_wf(force_xrgb8888: bool)
    ensures
        StateView::initial(force_xrgb8888).wf(),
{
    assert forall|id: usize| true implies sharing(Seq::<LayerView>::empty(), id) == 0 by {}
}

/// A state stays well formed when its wallpapers change in their
/// active-use counts only.
pub proof fn lemma_recount_wf(s: StateView, wallpapers: Seq<Option<WallpaperView>>)
    requires
        s.wf(),
        same_sharing(s.wallpapers, wallpapers),
    ensures
        (StateView { wallpapers, ..s }).wf(),
{
    let t = StateView { wallpapers, ..s };
    assert forall|l: int, b: int|
        0 <= l < t.layers.len() && 0 <= b < t.layers[l].backgrounds.len() implies {
        &&& (#[trigger] t.layers[l].backgrounds[b]).wallpaper < t.wallpapers.len()
        &&& t.wallpapers[t.layers[l].backgrounds[b].wallpaper as int] is Some
        &&& built_for(
            t.wallpapers[t.layers[l].backgrounds[b].wallpaper as int]->0.key,
            t.layers[l],
        )
    } by {
        let id = s.layers[l].backgrounds[b].wallpaper;
        assert(s.wallpapers[id as int] is Some);
    }
    assert forall|id: usize| id < t.wallpapers.len()
        implies match #[trigger] t.wallpapers[id as int] {
        Some(w) => w.sharing_count == sharing(t.layers, id) && w.sharing_count > 0,
        None => sharing(t.layers, id) == 0,
    } by {
        assert(s.wallpapers[id as int] is Some || s.wallpapers[id as int] is None);
    }
    assert forall|i: int, j: int|
        0 <= i < j < t.wallpapers.len() && (#[trigger] t.wallpapers[i]) is Some && (
        #[trigger] t.wallpapers[j]) is Some implies !same_key(
        t.wallpapers[i]->0.key,
        t.wallpapers[j]->0.key,
    ) by {
        assert(s.wallpapers[i] is Some && s.wallpapers[j] is Some);
    }
}

/// A state stays well formed when one layer changes in anything but its
/// entries and its geometry.
pub proof fn lemma_relayer_wf(s: StateView, l: int, layer: LayerView)
    requires
        s.wf(),
        0 <= l < s.layers.len(),
        layer.backgrounds == s.layers[l].backgrounds,
        layer.width == s.layers[l].width,
        layer.height == s.layers[l].height,
        layer.transform == s.layers[l].transform,
    ensures
        (StateView { layers: s.layers.update(l, layer), ..s }).wf(),
{
    let t = StateView { layers: s.layers.update(l, layer), ..s };
    assert forall|k: int, b: int|
        0 <= k < t.layers.len() && 0 <= b < t.layers[k].backgrounds.len() implies {
        &&& (#[trigger] t.layers[k].backgrounds[b]).wallpaper < t.wallpapers.len()
        &&& t.wallpapers[t.layers[k].backgrounds[b].wallpaper as int] is Some
        &&& built_for(
            t.wallpapers[t.layers[k].backgrounds[b].wallpaper as int]->0.key,
            t.layers[k],
        )
    } by {
        assert(t.layers[k].backgrounds[b] == s.layers[k].backgrounds[b]);
    }
    assert forall|k: int| 0 <= k < t.layers.len() implies (#[trigger] t.layers[k]).backgrounds.len()
        <= usize::MAX by {
        assert(t.layers[k].backgrounds == s.layers[k].backgrounds);
    }
    assert forall|id: usize| id < t.wallpapers.len()
        implies match #[trigger] t.wallpapers[id as int] {
        Some(w) => w.sharing_count == sharing(t.layers, id) && w.sharing_count > 0,
        None => sharing(t.layers, id) == 0,
    } by {
        lemma_sharing_update(s.layers, l, layer, id);
    }
}

/// A new output keeps the state well formed.
pub proof fn lemma_add_layer_wf(s: StateView, output_name: Seq<char>, geometry: OutputGeometry)
    requires
        s.wf(),
        s.layers.len() < usize::MAX,
    ensures
        s.add_layer(output_name, geometry).wf(),
{
    let t = s.add_layer(output_name, geometry);
    let fresh = LayerView::fresh(output_name, geometry);
    assert forall|k: int, b: int|
        0 <= k < t.layers.len() && 0 <= b < t.layers[k].backgrounds.len() implies {
        &&& (#[trigger] t.layers[k].backgrounds[b]).wallpaper < t.wallpapers.len()
        &&& t.wallpapers[t.layers[k].backgrounds[b].wallpaper as int] is Some
        &&& built_for(
            t.wallpapers[t.layers[k].backgrounds[b].wallpaper as int]->0.key,
            t.layers[k],
        )
    } by {
        assert(k < s.layers.len());
        assert(t.layers[k].backgrounds[b] == s.layers[k].backgrounds[b]);
    }
    assert forall|k: int| 0 <= k < t.layers.len() implies (#[trigger] t.layers[k]).backgrounds.len()
        <= usize::MAX by {
        if k < s.layers.len() {
            assert(t.layers[k] == s.layers[k]);
        }
    }
    assert forall|id: usize| id < t.wallpapers.len()
        implies match #[trigger] t.wallpapers[id as int] {
        Some(w) => w.sharing_count == sharing(t.layers, id) && w.sharing_count > 0,
        None => sharing(t.layers, id) == 0,
    } by {
        lemma_sharing_push(s.layers, fresh, id);
    }
}

/// Placing a wallpaper file keeps the state well formed, as long as the
/// lists still fit this machine.
pub proof fn lemma_place_wf(s: StateView, layer: usize, file: FileView, loaded: Option<usize>)
    requires
        s.wf(),
        s.place(layer, file, loaded).0.wallpapers.len() <= usize::MAX,
        layer < s.layers.len() ==> s.layers[layer as int].backgrounds.len() < usize::MAX,
    ensures
        s.place(layer, file, loaded).0.wf(),
{
    let t = s.place(layer, file, loaded).0;
    if layer < s.layers.len() {
        let old_layer = s.layers[layer as int];
        let key = old_layer.key_for(file);
        lemma_find_equal_from(s.wallpapers, key, 0);
        lemma_first_vacant_from(s.wallpapers, 0);
        let found = find_equal(s.wallpapers, key);
        if found is Some || loaded is Some {
            let id: usize = if found is Some {
                found->0
            } else {
                first_vacant(s.wallpapers) as usize
            };
            let background = BackgroundView { workspace_name: file.workspace, wallpaper: id };
            let new_layer = old_layer.with_background(background);
            assert(t.layers == s.layers.update(layer as int, new_layer));
            assert(t.wallpapers.len() >= s.wallpapers.len());
            assert(id < t.wallpapers.len() && t.wallpapers[id as int] is Some);
            assert forall|k: int, b: int|
                0 <= k < t.layers.len() && 0 <= b < t.layers[k].backgrounds.len() implies {
                &&& (#[trigger] t.layers[k].backgrounds[b]).wallpaper < t.wallpapers.len()
                &&& t.wallpapers[t.layers[k].backgrounds[b].wallpaper as int] is Some
                &&& built_for(
                    t.wallpapers[t.layers[k].backgrounds[b].wallpaper as int]->0.key,
                    t.layers[k],
                )
            } by {
                if k == layer && b == old_layer.backgrounds.len() {
                    assert(t.layers[k].backgrounds[b] == background);
                } else {
                    assert(t.layers[k].backgrounds[b] == s.layers[k].backgrounds[b]);
                    let shown = s.layers[k].backgrounds[b].wallpaper;
                    assert(s.wallpapers[shown as int] is Some);
                }
            }
            assert forall|k: int| 0 <= k < t.layers.len() implies (
            #[trigger] t.layers[k]).backgrounds.len() <= usize::MAX by {
                if k != layer {
                    assert(t.layers[k] == s.layers[k]);
                }
            }
            if found is None {
                assert forall|l: int, b: int|
                    0 <= l < s.layers.len() && 0 <= b < s.layers[l].backgrounds.len() implies (
                #[trigger] s.layers[l].backgrounds[b]).wallpaper != id by {
                    let shown = s.layers[l].backgrounds[b].wallpaper;
                    assert(s.wallpapers[shown as int] is Some);
                }
                lemma_unshown_is_unshared(s.layers, id);
            }
            assert forall|i: usize| i < t.wallpapers.len()
                implies match #[trigger] t.wallpapers[i as int] {
                Some(w) => w.sharing_count == sharing(t.layers, i) && w.sharing_count > 0,
                None => sharing(t.layers, i) == 0,
            } by {
                lemma_sharing_update(s.layers, layer as int, new_layer, i);
                lemma_references_push(old_layer.backgrounds, background, i);
                if i != id {
                    assert(i < s.wallpapers.len());
                    assert(t.wallpapers[i as int] == s.wallpapers[i as int]);
                }
            }
            assert forall|i: int, j: int|
                0 <= i < j < t.wallpapers.len() && (#[trigger] t.wallpapers[i]) is Some && (
                #[trigger] t.wallpapers[j]) is Some implies !same_key(
                t.wallpapers[i]->0.key,
                t.wallpapers[j]->0.key,
            ) by {
                if found is Some {
                    assert(s.wallpapers[i] is Some && s.wallpapers[j] is Some);
                } else {
                    if i != id && j != id {
                        assert(s.wallpapers[i] is Some && s.wallpapers[j] is Some);
                    } else if i == id {
                        assert(s.wallpapers[j] is Some);
                    } else {
                        assert(s.wallpapers[i] is Some);
                    }
                }
            }
        }
    }
}

/// While a layer is being taken down: each live wallpaper's sharing count
/// is the number of entries that show it, in the layers that stay and in
/// the entries still to be given up together.
pub open spec fn shares_split(
    layers: Seq<LayerView>,
    pending: Seq<BackgroundView>,
    wallpapers: Seq<Option<WallpaperView>>,
) -> bool {
    &&& forall|b: int|
        0 <= b < pending.len() ==> (#[trigger] pending[b]).wallpaper < wallpapers.len()
    &&& forall|id: usize|
        id < wallpapers.len() ==> match #[trigger] wallpapers[id as int] {
            Some(w) => w.sharing_count == sharing(layers, id) + references(pending, id)
                && w.sharing_count > 0,
            None => sharing(layers, id) + references(pending, id) == 0,
        }
}

/// No two live wallpapers have the same key.
pub open spec fn distinct_keys(wallpapers: Seq<Option<WallpaperView>>) -> bool {
    forall|i: int, j: int|
        0 <= i < j < wallpapers.len() && (#[trigger] wallpapers[i]) is Some && (
        #[trigger] wallpapers[j]) is Some ==> !same_key(
            wallpapers[i]->0.key,
            wallpapers[j]->0.key,
        )
}

/// What giving up entries leaves behind: a wallpaper stays, unchanged but
/// for its sharing count, exactly where the layers that stay still show it;
/// the others become vacant, and exactly those are listed as freed, each
/// with the active-use count it had.
pub open spec fn gave_up(
    layers: Seq<LayerView>,
    before: Seq<Option<WallpaperView>>,
    freed_before: Seq<FreedWallpaper>,
    after: Seq<Option<WallpaperView>>,
    freed: Seq<FreedWallpaper>,
) -> bool {
    &&& after.len() == before.len()
    &&& freed.len() >= freed_before.len()
    &&& forall|k: int| 0 <= k < freed_before.len() ==> freed[k] == freed_before[k]
    &&& forall|id: usize|
        id < after.len() ==> match #[trigger] after[id as int] {
            Some(w) => before[id as int] matches Some(v) && w.key == v.key && w.shm_size
                == v.shm_size && w.active_count == v.active_count && w.sharing_count
                == sharing(layers, id) && w.sharing_count > 0,
            None => sharing(layers, id) == 0,
        }
    &&& forall|k: int|
        freed_before.len() <= k < freed.len() ==> {
            &&& (#[trigger] freed[k]).wallpaper < after.len()
            &&& after[freed[k].wallpaper as int] is None
            &&& before[freed[k].wallpaper as int] matches Some(v) && freed[k].active_count
                == v.active_count
        }
    &&& forall|id: usize|
        id < after.len() && (#[trigger] before[id as int]) is Some && after[id as int] is None
            ==> exists|k: int|
            freed_before.len() <= k < freed.len() && (#[trigger] freed[k]).wallpaper == id
}

/// Giving up all pending entries brings the counts down to the entries of
/// the layers that stay.
pub proof fn lemma_unshared_all(
    layers: Seq<LayerView>,
    pending: Seq<BackgroundView>,
    wallpapers: Seq<Option<WallpaperView>>,
    freed: Seq<FreedWallpaper>,
)
    requires
        shares_split(layers, pending, wallpapers),
        distinct_keys(wallpapers),
    ensures
        gave_up(
            layers,
            wallpapers,
            freed,
            unshared_all(wallpapers, freed, pending).0,
            unshared_all(wallpapers, freed, pending).1,
        ),
        distinct_keys(unshared_all(wallpapers, freed, pending).0),
    decreases pending.len(),
{
    if pending.len() == 0 {
        assert forall|id: usize| id < wallpapers.len()
            implies match #[trigger] wallpapers[id as int] {
            Some(w) => w.sharing_count == sharing(layers, id) && w.sharing_count > 0,
            None => sharing(layers, id) == 0,
        } by {
            assert(references(pending, id) == 0);
        }
    } else {
        let id0 = pending.last().wallpaper;
        let rest = pending.drop_last();
        let (w1, f1) = unshared(wallpapers, freed, id0);
        assert(pending[pending.len() - 1].wallpaper < wallpapers.len());
        lemma_references_positive(pending, pending.len() - 1, id0);
        assert(wallpapers[id0 as int] is Some);
        assert forall|b: int| 0 <= b < rest.len() implies (#[trigger] rest[b]).wallpaper
            < w1.len() by {
            assert(rest[b] == pending[b]);
        }
        assert forall|id: usize| id < w1.len() implies match #[trigger] w1[id as int] {
            Some(w) => w.sharing_count == sharing(layers, id) + references(rest, id)
                && w.sharing_count > 0,
            None => sharing(layers, id) + references(rest, id) == 0,
        } by {
            assert(wallpapers[id as int] is Some || wallpapers[id as int] is None);
        }
        assert(distinct_keys(w1)) by {
            assert forall|i: int, j: int|
                0 <= i < j < w1.len() && (#[trigger] w1[i]) is Some && (#[trigger] w1[j])
                    is Some implies !same_key(w1[i]->0.key, w1[j]->0.key) by {
                assert(wallpapers[i] is Some && wallpapers[j] is Some);
            }
        }
        lemma_unshared_all(layers, rest, w1, f1);
        let (w2, f2) = unshared_all(w1, f1, rest);
        assert forall|id: usize| id < w2.len() implies match #[trigger] w2[id as int] {
            Some(w) => wallpapers[id as int] matches Some(v) && w.key == v.key && w.shm_size
                == v.shm_size && w.active_count == v.active_count && w.sharing_count
                == sharing(layers, id) && w.sharing_count > 0,
            None => sharing(layers, id) == 0,
        } by {
            assert(w1[id as int] is Some || w1[id as int] is None);
        }
        assert forall|k: int| freed.len() <= k < f2.len() implies {
            &&& (#[trigger] f2[k]).wallpaper < w2.len()
            &&& w2[f2[k].wallpaper as int] is None
            &&& wallpapers[f2[k].wallpaper as int] matches Some(v) && f2[k].active_count
                == v.active_count
        } by {
            if k < f1.len() {
                assert(f2[k] == f1[k]);
                assert(f1[k].wallpaper == id0);
                assert(w1[id0 as int] is None);
                assert(w2[id0 as int] is Some ==> w1[id0 as int] is Some);
            } else {
                let id = f2[k].wallpaper;
                assert(w1[id as int] is Some);
            }
        }
        assert forall|id: usize|
            id < w2.len() && (#[trigger] wallpapers[id as int]) is Some && w2[id as int]
                is None implies exists|k: int|
            freed.len() <= k < f2.len() && (#[trigger] f2[k]).wallpaper == id by {
            if w1[id as int] is Some {
                let k = choose|k: int| f1.len() <= k < f2.len() && (#[trigger] f2[k]).wallpaper
                    == id;
                assert(freed.len() <= k < f2.len() && f2[k].wallpaper == id);
            } else {
                assert(id == id0);
                assert(f1.len() == freed.len() + 1);
                assert(f2[freed.len() as int] == f1[freed.len() as int]);
                assert(f2[freed.len() as int].wallpaper == id);
            }
        }
    }
}

/// The end of an output keeps the state well formed, and leaves every
/// wallpaper that another output still shows as it was.
pub proof fn lemma_destroy_wf(s: StateView, output: Seq<char>)
    requires
        s.wf(),
    ensures
        s.destroy(output).0.wf(),
        s.destroy(output).1 matches DestroyedView::Requery(teardown) ==> gave_up(
            s.destroy(output).0.layers,
            s.wallpapers,
            Seq::empty(),
            s.destroy(output).0.wallpapers,
            teardown.freed,
        ),
{
    lemma_find_layer_from(s.layers, output, 0);
    match find_layer(s.layers, output) {
        None => {},
        Some(layer) => {
            let t = s.destroy(output).0;
            let pending = s.layers[layer as int].backgrounds;
            let rest = swap_removed(s.layers, layer as int);
            assert(shares_split(rest, pending, s.wallpapers)) by {
                assert forall|id: usize| id < s.wallpapers.len()
                    implies match #[trigger] s.wallpapers[id as int] {
                    Some(w) => w.sharing_count == sharing(rest, id) + references(pending, id)
                        && w.sharing_count > 0,
                    None => sharing(rest, id) + references(pending, id) == 0,
                } by {
                    lemma_sharing_swap_removed(s.layers, layer as int, id);
                }
                assert forall|b: int| 0 <= b < pending.len() implies (
                #[trigger] pending[b]).wallpaper < s.wallpapers.len() by {
                    assert(s.layers[layer as int].backgrounds[b].wallpaper < s.wallpapers.len());
                }
            }
            lemma_unshared_all(rest, pending, s.wallpapers, Seq::empty());
            assert forall|k: int| 0 <= k < t.layers.len() implies (
            #[trigger] t.layers[k]).backgrounds.len() <= usize::MAX by {
                if k == layer {
                    assert(t.layers[k] == s.layers.last());
                    assert(s.layers.last() == s.layers[s.layers.len() - 1]);
                } else {
                    assert(t.layers[k] == s.layers[k]);
                }
            }
            assert forall|k: int, b: int|
                0 <= k < t.layers.len() && 0 <= b < t.layers[k].backgrounds.len() implies {
                &&& (#[trigger] t.layers[k].backgrounds[b]).wallpaper < t.wallpapers.len()
                &&& t.wallpapers[t.layers[k].backgrounds[b].wallpaper as int] is Some
                &&& built_for(
                    t.wallpapers[t.layers[k].backgrounds[b].wallpaper as int]->0.key,
                    t.layers[k],
                )
            } by {
                let from: int = if k == layer {
                    s.layers.len() - 1
                } else {
                    k
                };
                assert(t.layers[k] == s.layers[from]);
                let id = s.layers[from].backgrounds[b].wallpaper;
                assert(id < s.wallpapers.len());
                lemma_shown_is_shared(t.layers, k, b, id);
                assert(t.wallpapers[id as int] is Some || t.wallpapers[id as int] is None);
            }
            assert forall|id: usize| id < t.wallpapers.len()
                implies match #[trigger] t.wallpapers[id as int] {
                Some(w) => w.sharing_count == sharing(t.layers, id) && w.sharing_count > 0,
                None => sharing(t.layers, id) == 0,
            } by {}
        },
    }
}

/// A configuration acknowledgment keeps the state well formed.
pub proof fn lemma_configure_wf(s: StateView, layer: usize)
    requires
        s.wf(),
    ensures
        s.configure(layer).0.wf(),
{
    if layer < s.layers.len() && !s.layers[layer as int].configured {
        lemma_relayer_wf(
            s,
            layer as int,
            LayerView { configured: true, ..s.layers[layer as int] },
        );
    }
}

/// A draw keeps the state well formed.
pub proof fn lemma_draw_wf(s: StateView, output: Seq<char>, name: Seq<char>)
    requires
        s.wf(),
    ensures
        s.draw(output, name).0.wf(),
{
    lemma_find_layer_from(s.layers, output, 0);
    match find_layer(s.layers, output) {
        None => {},
        Some(layer) => {
            let drawn = s.layers[layer as int].draw(name).0;
            lemma_relayer_wf(s, layer as int, drawn);
            let mid = StateView { layers: s.layers.update(layer as int, drawn), ..s };
            match s.layers[layer as int].draw(name).1 {
                LayerDraw::Attach(wallpaper) => {
                    lemma_recount_wf(mid, attached(s.wallpapers, wallpaper));
                },
                _ => {},
            }
        },
    }
}

/// Any number of draws keeps the state well formed, and answers each event.
pub proof fn lemma_draw_all_wf(s: StateView, events: Seq<(Seq<char>, Seq<char>)>)
    requires
        s.wf(),
    ensures
        s.draw_all(events).0.wf(),
        s.draw_all(events).1.len() == events.len(),
    decreases events.len(),
{
    if events.len() > 0 {
        lemma_draw_all_wf(s, events.drop_last());
        lemma_draw_wf(s.draw_all(events.drop_last()).0, events.last().0, events.last().1);
    }
}

/// A release notification keeps the state well formed.
pub proof fn lemma_release_wf(s: StateView, id: usize)
    requires
        s.wf(),
    ensures
        s.release(id).0.wf(),
{
    lemma_recount_wf(s, s.release(id).0.wallpapers);
}

/// A change of an output keeps the state well formed.
pub proof fn lemma_update_wf(s: StateView, output: Seq<char>, geometry: OutputGeometry)
    requires
        s.wf(),
    ensures
        s.update(output, geometry).0.wf(),
{
    lemma_find_layer_from(s.layers, output, 0);
    match find_layer(s.layers, output) {
        None => {},
        Some(layer) => {
            lemma_relayer_wf(
                s,
                layer as int,
                LayerView {
                    has_viewport: geometry.scaling_spec() is Fractional,
                    ..s.layers[layer as int]
                },
            );
        },
    }
}

/// A layer that changes in anything but its name is found where it was.
pub proof fn lemma_find_layer_renewed(
    layers: Seq<LayerView>,
    l: int,
    layer: LayerView,
    name: Seq<char>,
    start: int,
)
    requires
        0 <= l < layers.len(),
        0 <= start <= layers.len(),
        layer.output_name == layers[l].output_name,
    ensures
        find_layer_from(layers.update(l, layer), name, start) == find_layer_from(
            layers,
            name,
            start,
        ),
    decreases layers.len() - start,
{
    if start < layers.len() {
        lemma_find_layer_renewed(layers, l, layer, name, start + 1);
    }
}

/// Drawing the same workspace on the same output twice in a row attaches
/// at most once: the second draw attaches nothing and changes nothing, and
/// where the first one attached, the second finds the workspace shown.
pub proof fn lemma_draw_twice_attaches_once(s: StateView, output: Seq<char>, name: Seq<char>)
    requires
        s.wf(),
    ensures
        ({
            let (first, first_outcome) = s.draw(output, name);
            let (second, second_outcome) = first.draw(output, name);
            &&& !(second_outcome is Attach)
            &&& second == first
            &&& first_outcome is Attach ==> second_outcome == DrawOutcome::AlreadyCurrent
            &&& !(first_outcome is Attach) ==> first == s && second_outcome == first_outcome
        }),
{
    lemma_find_layer_from(s.layers, output, 0);
    match find_layer(s.layers, output) {
        None => {},
        Some(layer) => {
            let drawn = s.layers[layer as int].draw(name).0;
            lemma_find_layer_renewed(s.layers, layer as int, drawn, output, 0);
        },
    }
}

/// On a configured layer that shows another workspace, a workspace without
/// an entry of its own gets the wallpaper of the first `_default` entry:
/// that wallpaper is attached, its active-use count goes up by one (and
/// stays at the largest number), the layer shows the workspace, and nothing
/// else changes: no other layer, no other wallpaper, no sharing count.
/// Where there is no such entry either, nothing is attached and the state,
/// with what the layer shows, is as before.
pub proof fn lemma_unknown_workspace_falls_back(
    s: StateView,
    output: Seq<char>,
    name: Seq<char>,
)
    requires
        s.wf(),
        find_layer(s.layers, output) matches Some(layer) && s.layers[layer as int].configured
            && s.layers[layer as int].current_workspace != Some(name),
        forall|b: int|
            0 <= b < s.layers[find_layer(s.layers, output)->0 as int].backgrounds.len() ==> (
            #[trigger] s.layers[find_layer(
                s.layers,
                output,
            )->0 as int].backgrounds[b]).workspace_name != name,
    ensures
        ({
            let layer = find_layer(s.layers, output)->0;
            let backgrounds = s.layers[layer as int].backgrounds;
            let (after, outcome) = s.draw(output, name);
            match find_background_from(backgrounds, default_workspace(), 0) {
                Some(wallpaper) => {
                    &&& outcome == DrawOutcome::Attach {
                        layer,
                        wallpaper,
                        width: s.layers[layer as int].width,
                        height: s.layers[layer as int].height,
                    }
                    &&& exists|b: int|
                        0 <= b < backgrounds.len() && (#[trigger] backgrounds[b]).workspace_name
                            == default_workspace() && backgrounds[b].wallpaper == wallpaper
                    &&& after.layers == s.layers.update(
                        layer as int,
                        LayerView { current_workspace: Some(name), ..s.layers[layer as int] },
                    )
                    &&& wallpaper < s.wallpapers.len()
                    &&& s.wallpapers[wallpaper as int] matches Some(shown)
                    &&& after.wallpapers == s.wallpapers.update(
                        wallpaper as int,
                        Some(
                            WallpaperView {
                                active_count: if shown.active_count < usize::MAX {
                                    (shown.active_count + 1) as usize
                                } else {
                                    shown.active_count
                                },
                                ..shown
                            },
                        ),
                    )
                    &&& forall|id: int|
                        0 <= id < s.wallpapers.len() && id != wallpaper
                            ==> #[trigger] after.wallpapers[id] == s.wallpapers[id]
                    &&& after.force_xrgb8888 == s.force_xrgb8888
                    &&& after.pixel_layout == s.pixel_layout
                },
                None => {
                    &&& outcome == DrawOutcome::NoWallpaper
                    &&& after == s
                    &&& forall|b: int|
                        0 <= b < backgrounds.len() ==> (#[trigger] backgrounds[b]).workspace_name
                            != default_workspace()
                },
            }
        }),
{
    let layer = find_layer(s.layers, output)->0;
    lemma_find_layer_from(s.layers, output, 0);
    let backgrounds = s.layers[layer as int].backgrounds;
    lemma_find_background_from(backgrounds, name, 0);
    lemma_find_background_from(backgrounds, default_workspace(), 0);
    if find_background_from(backgrounds, name, 0) is Some {
        let b = choose|b: int|
            0 <= b < backgrounds.len() && (#[trigger] backgrounds[b]).workspace_name == name;
        assert(backgrounds[b].workspace_name != name);
    }
    if find_background_from(backgrounds, default_workspace(), 0) is Some {
        let wallpaper = find_background_from(backgrounds, default_workspace(), 0)->0;
        let b = choose|b: int|
            0 <= b < backgrounds.len() && (#[trigger] backgrounds[b]).workspace_name
                == default_workspace() && backgrounds[b].wallpaper == wallpaper;
        assert(s.layers[layer as int].backgrounds[b].wallpaper == wallpaper);
    }
}

/// In every well-formed state, the wallpapers that two entries show are one
/// wallpaper where they come from the same file, as it was when it was
/// read, and the entries' layers have the same width, height and transform.
pub proof fn lemma_one_wallpaper_per_file(s: StateView, l1: int, b1: int, l2: int, b2: int)
    requires
        s.wf(),
        0 <= l1 < s.layers.len(),
        0 <= b1 < s.layers[l1].backgrounds.len(),
        0 <= l2 < s.layers.len(),
        0 <= b2 < s.layers[l2].backgrounds.len(),
        s.layers[l1].width == s.layers[l2].width,
        s.layers[l1].height == s.layers[l2].height,
        s.layers[l1].transform == s.layers[l2].transform,
        s.wallpapers[s.layers[l1].backgrounds[b1].wallpaper as int]->0.key.canon_path
            == s.wallpapers[s.layers[l2].backgrounds[b2].wallpaper as int]->0.key.canon_path,
        s.wallpapers[s.layers[l1].backgrounds[b1].wallpaper as int]->0.key.canon_modified
            == s.wallpapers[s.layers[l2].backgrounds[b2].wallpaper as int]->0.key.canon_modified,
    ensures
        s.layers[l1].backgrounds[b1].wallpaper == s.layers[l2].backgrounds[b2].wallpaper,
{
    let first = s.layers[l1].backgrounds[b1].wallpaper;
    let second = s.layers[l2].backgrounds[b2].wallpaper;
    assert(s.wallpapers[first as int] is Some && s.wallpapers[second as int] is Some);
    assert(same_key(s.wallpapers[first as int]->0.key, s.wallpapers[second as int]->0.key));
    if first != second {
        if (first as int) < (second as int) {
            assert(!same_key(
                s.wallpapers[first as int]->0.key,
                s.wallpapers[second as int]->0.key,
            ));
        } else {
            assert(!same_key(
                s.wallpapers[second as int]->0.key,
                s.wallpapers[first as int]->0.key,
            ));
        }
    }
}

/// In every well-formed state, a file that some entry already shows, on a
/// layer of the same width, height and transform, is not loaded again:
/// placing it shares the wallpaper of that entry, whichever output the
/// entry is on.
pub proof fn lemma_shown_file_is_shared(
    s: StateView,
    layer: usize,
    file: FileView,
    loaded: Option<usize>,
    l: int,
    b: int,
)
    requires
        s.wf(),
        layer < s.layers.len(),
        0 <= l < s.layers.len(),
        0 <= b < s.layers[l].backgrounds.len(),
        s.layers[l].width == s.layers[layer as int].width,
        s.layers[l].height == s.layers[layer as int].height,
        s.layers[l].transform == s.layers[layer as int].transform,
        s.wallpapers[s.layers[l].backgrounds[b].wallpaper as int]->0.key.canon_path
            == file.canon_path,
        s.wallpapers[s.layers[l].backgrounds[b].wallpaper as int]->0.key.canon_modified
            == file.canon_modified,
    ensures
        s.place(layer, file, loaded).1 == Placement::Shared(s.layers[l].backgrounds[b].wallpaper),
{
    let id = s.layers[l].backgrounds[b].wallpaper;
    assert(s.wallpapers[id as int] is Some);
    lemma_equal_file_shares(s, layer, file, loaded, id);
}

/// The state after `count` release notifications for wallpaper `id`, and
/// how many of them were anomalies.
pub open spec fn released_times(s: StateView, id: usize, count: nat) -> (StateView, nat)
    decreases count,
{
    if count == 0 {
        (s, 0)
    } else {
        let (before, anomalies) = released_times(s, id, (count - 1) as nat);
        let (after, outcome) = before.release(id);
        (
            after,
            anomalies + if outcome is Unexpected {
                1nat
            } else {
                0nat
            },
        )
    }
}

/// Release notifications bring the active-use count of a live wallpaper
/// down to zero and no further: of `count` notifications, those beyond the
/// attaches still active are anomalies, and nothing else changes. One
/// notification too many gives exactly one anomaly.
pub proof fn lemma_excess_releases_clamp(s: StateView, id: usize, count: nat)
    requires
        id < s.wallpapers.len(),
        s.wallpapers[id as int] is Some,
    ensures
        ({
            let active = s.wallpapers[id as int]->0.active_count as nat;
            let (after, anomalies) = released_times(s, id, count);
            &&& after.layers == s.layers
            &&& after.wallpapers.len() == s.wallpapers.len()
            &&& after.wallpapers[id as int] matches Some(w) && w.active_count == if count
                <= active {
                active - count
            } else {
                0
            } && w.key == s.wallpapers[id as int]->0.key && w.sharing_count
                == s.wallpapers[id as int]->0.sharing_count
            &&& anomalies == if count <= active {
                0
            } else {
                count - active
            }
            &&& count == active + 1
                ==> anomalies == 1 && after.wallpapers[id as int]->0.active_count
                == 0
        }),
    decreases count,
{
    if count > 0 {
        lemma_excess_releases_clamp(s, id, (count - 1) as nat);
    }
}

/// A wallpaper file meets its equal: where a live wallpaper has the key of
/// `file` on the geometry of layer `layer`, placing the file shares that
/// very wallpaper, whether or not a loaded buffer is offered, and no
/// wallpaper is entered.
pub proof fn lemma_equal_file_shares(
    s: StateView,
    layer: usize,
    file: FileView,
    loaded: Option<usize>,
    id: usize,
)
    requires
        s.wf(),
        layer < s.layers.len(),
        id < s.wallpapers.len(),
        s.wallpapers[id as int] matches Some(w) && same_key(
            w.key,
            s.layers[layer as int].key_for(file),
        ),
    ensures
        s.place(layer, file, loaded).1 == Placement::Shared(id),
        s.place(layer, file, loaded).0.wallpapers.len() == s.wallpapers.len(),
        s.place(layer, file, loaded).0.wallpapers[id as int] matches Some(w) && w.sharing_count
            == s.wallpapers[id as int]->0.sharing_count + 1,
{
    let key = s.layers[layer as int].key_for(file);
    lemma_find_equal_from(s.wallpapers, key, 0);
    let found = find_equal(s.wallpapers, key);
    assert(found is Some) by {
        if found is None {
            assert(!(s.wallpapers[id as int] is Some && same_key(
                s.wallpapers[id as int]->0.key,
                key,
            )));
        }
    }
    let other = found->0;
    if other != id {
        if (other as int) < (id as int) {
            assert(!same_key(s.wallpapers[other as int]->0.key, s.wallpapers[id as int]->0.key));
        } else {
            assert(!same_key(s.wallpapers[id as int]->0.key, s.wallpapers[other as int]->0.key));
        }
    }
}

/// Two wallpaper files with the same canonical path and modification time,
/// on outputs of the same width, height and transform, come to one shared
/// wallpaper: once the first is placed, the second shares what the first
/// got.
pub proof fn lemma_equal_files_share_one_wallpaper(
    s: StateView,
    first_layer: usize,
    first: FileView,
    first_loaded: Option<usize>,
    second_layer: usize,
    second: FileView,
    second_loaded: Option<usize>,
)
    requires
        s.wf(),
        first_layer < s.layers.len(),
        second_layer < s.layers.len(),
        s.layers[first_layer as int].backgrounds.len() < usize::MAX,
        s.place(first_layer, first, first_loaded).0.wallpapers.len() <= usize::MAX,
        first.canon_path == second.canon_path,
        first.canon_modified == second.canon_modified,
        s.layers[first_layer as int].width == s.layers[second_layer as int].width,
        s.layers[first_layer as int].height == s.layers[second_layer as int].height,
        s.layers[first_layer as int].transform == s.layers[second_layer as int].transform,
        !(s.place(first_layer, first, first_loaded).1 is NeedsLoad),
    ensures
        ({
            let (placed, first_placement) = s.place(first_layer, first, first_loaded);
            let second_placement = placed.place(second_layer, second, second_loaded).1;
            match first_placement {
                Placement::Shared(id) => second_placement == Placement::Shared(id),
                Placement::Created(id) => second_placement == Placement::Shared(id),
                _ => false,
            }
        }),
{
    let (placed, first_placement) = s.place(first_layer, first, first_loaded);
    lemma_place_wf(s, first_layer, first, first_loaded);
    let key = s.layers[first_layer as int].key_for(first);
    lemma_find_equal_from(s.wallpapers, key, 0);
    lemma_first_vacant_from(s.wallpapers, 0);
    let id: usize = match first_placement {
        Placement::Shared(id) => id,
        Placement::Created(id) => id,
        _ => 0,
    };
    assert(placed.layers[second_layer as int].key_for(second) == key);
    assert(id < placed.wallpapers.len() && placed.wallpapers[id as int] is Some);
    assert(same_key(placed.wallpapers[id as int]->0.key, key));
    lemma_equal_file_shares(placed, second_layer, second, second_loaded, id);
}

/// The end of one output leaves every wallpaper that another output shows
/// in place: it is not among the freed, and its key, its size and its
/// active-use count are what they were.
pub proof fn lemma_destroy_keeps_shared(s: StateView, output: Seq<char>, l: int, b: int)
    requires
        s.wf(),
        s.destroy(output).1 is Requery,
        0 <= l < s.destroy(output).0.layers.len(),
        0 <= b < s.destroy(output).0.layers[l].backgrounds.len(),
    ensures
        ({
            let (after, teardown) = s.destroy(output);
            let id = after.layers[l].backgrounds[b].wallpaper;
            &&& id < after.wallpapers.len()
            &&& after.wallpapers.len() == s.wallpapers.len()
            &&& after.wallpapers[id as int] matches Some(w) && s.wallpapers[id as int] matches Some(
                v,
            ) && w.key == v.key && w.shm_size == v.shm_size && w.active_count == v.active_count
            &&& forall|k: int|
                0 <= k < teardown->Requery_0.freed.len()
                    ==> (#[trigger] teardown->Requery_0.freed[k]).wallpaper
                    != id
        }),
{
    lemma_destroy_wf(s, output);
    let (after, teardown) = s.destroy(output);
    let id = after.layers[l].backgrounds[b].wallpaper;
    assert(after.wallpapers[id as int] is Some);
}

/// Events handled in two passes give what the same events give when
/// handled in one: the state is the same, and the outcomes follow each
/// other. How many events a wake finds in the channel makes no difference.
pub proof fn lemma_draw_all_split(
    s: StateView,
    first: Seq<(Seq<char>, Seq<char>)>,
    second: Seq<(Seq<char>, Seq<char>)>,
)
    ensures
        s.draw_all(first + second).0 == s.draw_all(first).0.draw_all(second).0,
        s.draw_all(first + second).1 == s.draw_all(first).1 + s.draw_all(first).0.draw_all(
            second,
        ).1,
    decreases second.len(),
{
    if second.len() == 0 {
        assert(first + second =~= first);
        assert(s.draw_all(first).1 + Seq::<DrawOutcome>::empty() =~= s.draw_all(first).1);
    } else {
        assert((first + second).drop_last() =~= first + second.drop_last());
        assert((first + second).last() == second.last());
        lemma_draw_all_split(s, first, second.drop_last());
        let before = s.draw_all(first).0.draw_all(second.drop_last());
        let outcome = before.0.draw(second.last().0, second.last().1).1;
        assert((s.draw_all(first).1 + before.1).push(outcome) =~= s.draw_all(first).1
            + before.1.push(outcome));
    }
}

/// A buffer is attached only on a configured layer, and only the buffer of
/// a wallpaper that the layer has an entry for.
pub proof fn lemma_attach_needs_configured(s: StateView, output: Seq<char>, name: Seq<char>)
    requires
        s.wf(),
        s.draw(output, name).1 is Attach,
    ensures
        ({
            let outcome = s.draw(output, name).1;
            let layer = outcome->layer;
            &&& find_layer(s.layers, output) == Some(layer)
            &&& layer < s.layers.len()
            &&& s.layers[layer as int].configured
            &&& s.layers[layer as int].output_name == output
            &&& exists|b: int|
                0 <= b < s.layers[layer as int].backgrounds.len() && (
                #[trigger] s.layers[layer as int].backgrounds[b]).wallpaper == outcome->wallpaper
            &&& outcome->wallpaper < s.wallpapers.len()
            &&& s.wallpapers[outcome->wallpaper as int] is Some
        }),
{
    lemma_find_layer_from(s.layers, output, 0);
    let layer = find_layer(s.layers, output)->0;
    let backgrounds = s.layers[layer as int].backgrounds;
    lemma_find_background_from(backgrounds, name, 0);
    lemma_find_background_from(backgrounds, default_workspace(), 0);
    let wallpaper = s.draw(output, name).1->wallpaper;
    let b = choose|b: int|
        0 <= b < backgrounds.len() && (#[trigger] backgrounds[b]).wallpaper == wallpaper;
    assert(s.layers[layer as int].backgrounds[b].wallpaper == wallpaper);
}

/// A wallpaper file without its equal is loaded: where no live wallpaper
/// has the key of `file` on the geometry of layer `layer`, nothing is
/// shared. Without a loaded buffer nothing changes; with one, a new
/// wallpaper enters the first vacant place.
pub proof fn lemma_unequal_file_loads(s: StateView, layer: usize, file: FileView, size: usize)
    requires
        s.wf(),
        layer < s.layers.len(),
        forall|id: int|
            0 <= id < s.wallpapers.len() && (#[trigger] s.wallpapers[id]) is Some ==> !same_key(
                s.wallpapers[id]->0.key,
                s.layers[layer as int].key_for(file),
            ),
    ensures
        s.place(layer, file, None) == (s, Placement::NeedsLoad),
        s.place(layer, file, Some(size)).1 == Placement::Created(
            first_vacant(s.wallpapers) as usize,
        ),
{
    let key = s.layers[layer as int].key_for(file);
    lemma_find_equal_from(s.wallpapers, key, 0);
    if find_equal(s.wallpapers, key) is Some {
        let id = find_equal(s.wallpapers, key)->0;
        assert(s.wallpapers[id as int] is Some);
    }
}

} // verus!
