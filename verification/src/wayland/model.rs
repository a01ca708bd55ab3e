//! The mathematical model of the daemon's state: what each background layer
//! and each wallpaper is, and what every operation does to them.

use vstd::prelude::*;
use crate::image::{PixelLayout, ShmFormat, preferred_layout};
use crate::output::{OutputError, OutputGeometry, Scaling, Transform};

verus! {

/// What makes two wallpapers the same resource: the file they were decoded
/// from, as it was when it was read, and the geometry they were built for.
pub struct WallpaperKey {
    pub canon_path: Seq<u8>,
    pub canon_modified: u128,
    pub width: i32,
    pub height: i32,
    pub transform: Transform,
}

/// A decoded wallpaper with its two counters.
pub struct WallpaperView {
    pub key: WallpaperKey,
    pub shm_size: usize,
    /// How many workspace entries, on any output, show this wallpaper.
    pub sharing_count: nat,
    /// How many attaches the display server has not yet released.
    pub active_count: usize,
}

/// One workspace entry of a layer: the wallpaper shown for a workspace.
pub struct BackgroundView {
    pub workspace_name: Seq<char>,
    pub wallpaper: usize,
}

/// The background of one output.
pub struct LayerView {
    pub output_name: Seq<char>,
    pub width: i32,
    pub height: i32,
    pub transform: Transform,
    pub configured: bool,
    pub backgrounds: Seq<BackgroundView>,
    pub current_workspace: Option<Seq<char>>,
    pub has_viewport: bool,
}

/// All layers, and the arena of wallpapers that their entries index.
pub struct StateView {
    pub layers: Seq<LayerView>,
    pub wallpapers: Seq<Option<WallpaperView>>,
    pub force_xrgb8888: bool,
    pub pixel_layout: Option<PixelLayout>,
}

/// A wallpaper file found for a workspace.
pub struct FileView {
    pub workspace: Seq<char>,
    pub canon_path: Seq<u8>,
    pub canon_modified: u128,
}

/// What became of a wallpaper file offered to a layer.
#[derive(Clone, Copy, Debug, PartialEq, Eq, Structural)]
pub enum Placement {
    /// An equal wallpaper existed: the new entry shares it.
    Shared(usize),
    /// A new wallpaper was entered for the loaded buffer.
    Created(usize),
    /// No equal wallpaper exists, and no loaded buffer was offered.
    NeedsLoad,
    /// There is no layer of that index.
    NoSuchLayer,
}

/// The answer to a configuration acknowledgment.
#[derive(Clone, Copy, Debug, PartialEq, Eq, Structural)]
pub enum Configured {
    /// The layer became configured: the workspace visible on its output is
    /// to be asked for.
    RequestVisible,
    /// The layer was configured before; nothing changed.
    AlreadyConfigured,
    /// There is no layer of that index.
    NoSuchLayer,
}

/// What a draw on one layer did.
#[derive(Clone, Copy, Debug, PartialEq, Eq, Structural)]
pub enum LayerDraw {
    /// The layer is not configured yet; nothing changed.
    NotConfigured,
    /// The workspace is the one already shown; nothing changed.
    AlreadyCurrent,
    /// Neither the workspace nor `_default` has a wallpaper; nothing changed.
    NoWallpaper,
    /// This wallpaper is to be attached, damaged in full and committed.
    Attach(usize),
}

/// What a draw did.
#[derive(Clone, Copy, Debug, PartialEq, Eq, Structural)]
pub enum DrawOutcome {
    /// No layer has that output name.
    UnknownOutput,
    NotConfigured,
    AlreadyCurrent,
    NoWallpaper,
    /// The buffer of `wallpaper` is to be attached to the surface of layer
    /// `layer`, `width` by `height` pixels damaged, and the surface committed.
    Attach { layer: usize, wallpaper: usize, width: i32, height: i32 },
}

/// What a release notification did.
#[derive(Clone, Copy, Debug, PartialEq, Eq, Structural)]
pub enum ReleaseOutcome {
    /// The active-use count went down by one.
    Released,
    /// The count was zero already and stays zero: an anomaly to report.
    Unexpected,
    /// No live wallpaper has that handle.
    Stale,
}

/// A wallpaper whose last entry is gone: its memory is to be unmapped and
/// its buffer destroyed. A nonzero `active_count` is to be reported.
#[derive(Clone, Copy, Debug, PartialEq, Eq, Structural)]
pub struct FreedWallpaper {
    pub wallpaper: usize,
    pub active_count: usize,
}

/// What the removal of a layer left to do.
pub struct TeardownView {
    /// The index the layer had; the last layer has taken its place.
    pub layer: usize,
    /// The wallpapers that no entry shows any more.
    pub freed: Seq<FreedWallpaper>,
}

/// The model of the answer to the end of an output.
pub enum DestroyedView {
    /// No layer has that output name; nothing changed.
    UnknownOutput,
    /// The layer is gone: the workspaces visible on all outputs are to be
    /// asked for anew.
    Requery(TeardownView),
}

/// What is to be done with a layer's viewport.
#[derive(Clone, Copy, Debug, PartialEq, Eq, Structural)]
pub enum ViewportChange {
    /// There is none and none is needed.
    Keep,
    /// The existing one is to be destroyed.
    Destroy,
    /// One is to be created with this destination size.
    Create { logical_width: i32, logical_height: i32 },
    /// The existing one gets this destination size.
    Resize { logical_width: i32, logical_height: i32 },
}

/// What is to be done to the surface of an output that changed.
#[derive(Clone, Copy, Debug, PartialEq, Eq, Structural)]
pub struct OutputUpdate {
    pub layer: usize,
    /// The buffers were built for another size than the output has now.
    pub size_changed: bool,
    pub buffer_scale: i32,
    pub viewport: ViewportChange,
}

/// The name of the fallback workspace.
pub open spec fn default_workspace() -> Seq<char> {
    "_default"@
}

impl LayerView {
    /// A fresh layer for an output: unconfigured, without wallpapers,
    /// showing nothing.
    pub open spec fn fresh(output_name: Seq<char>, geometry: OutputGeometry) -> LayerView {
        LayerView {
            output_name,
            width: geometry.width,
            height: geometry.height,
            transform: geometry.transform,
            configured: false,
            backgrounds: Seq::empty(),
            current_workspace: None,
            has_viewport: geometry.scaling_spec() is Fractional,
        }
    }

    /// The key of a wallpaper for `file` on this layer.
    pub open spec fn key_for(self, file: FileView) -> WallpaperKey {
        WallpaperKey {
            canon_path: file.canon_path,
            canon_modified: file.canon_modified,
            width: self.width,
            height: self.height,
            transform: self.transform,
        }
    }

    /// The layer with one more entry at the end.
    pub open spec fn with_background(self, background: BackgroundView) -> LayerView {
        LayerView { backgrounds: self.backgrounds.push(background), ..self }
    }
}

/// Whether a wallpaper with `key` was built for the geometry of `layer`.
pub open spec fn built_for(key: WallpaperKey, layer: LayerView) -> bool {
    key.width == layer.width && key.height == layer.height && key.transform == layer.transform
}

/// Whether two keys name the same resource.
pub open spec fn same_key(a: WallpaperKey, b: WallpaperKey) -> bool {
    &&& a.canon_path == b.canon_path
    &&& a.canon_modified == b.canon_modified
    &&& a.width == b.width
    &&& a.height == b.height
    &&& a.transform == b.transform
}

/// How many of `backgrounds` show wallpaper `id`.
pub open spec fn references(backgrounds: Seq<BackgroundView>, id: usize) -> nat
    decreases backgrounds.len(),
{
    if backgrounds.len() == 0 {
        0
    } else {
        references(backgrounds.drop_last(), id) + if backgrounds.last().wallpaper == id {
            1nat
        } else {
            0nat
        }
    }
}

/// How many entries of all `layers` show wallpaper `id`.
pub open spec fn sharing(layers: Seq<LayerView>, id: usize) -> nat
    decreases layers.len(),
{
    if layers.len() == 0 {
        0
    } else {
        sharing(layers.drop_last(), id) + references(layers.last().backgrounds, id)
    }
}

/// The first live wallpaper with `key` among `wallpapers[start..]`.
pub open spec fn find_equal_from(
    wallpapers: Seq<Option<WallpaperView>>,
    key: WallpaperKey,
    start: int,
) -> Option<usize>
    decreases wallpapers.len() - start,
{
    if start < 0 || start >= wallpapers.len() {
        None
    } else if wallpapers[start] is Some && same_key(wallpapers[start]->0.key, key) {
        Some(start as usize)
    } else {
        find_equal_from(wallpapers, key, start + 1)
    }
}

/// The first live wallpaper with `key`.
pub open spec fn find_equal(wallpapers: Seq<Option<WallpaperView>>, key: WallpaperKey) -> Option<
    usize,
> {
    find_equal_from(wallpapers, key, 0)
}

/// The first vacant place among `wallpapers[start..]`, or the length.
pub open spec fn first_vacant_from(wallpapers: Seq<Option<WallpaperView>>, start: int) -> int
    decreases wallpapers.len() - start,
{
    if start < 0 || start >= wallpapers.len() {
        wallpapers.len() as int
    } else if wallpapers[start] is None {
        start
    } else {
        first_vacant_from(wallpapers, start + 1)
    }
}

/// Where a new wallpaper goes: the first vacant place, or the end.
pub open spec fn first_vacant(wallpapers: Seq<Option<WallpaperView>>) -> int {
    first_vacant_from(wallpapers, 0)
}

/// The arena with `wallpaper` at place `id`, which is vacant or the end.
pub open spec fn with_wallpaper(
    wallpapers: Seq<Option<WallpaperView>>,
    id: int,
    wallpaper: WallpaperView,
) -> Seq<Option<WallpaperView>> {
    if 0 <= id < wallpapers.len() {
        wallpapers.update(id, Some(wallpaper))
    } else {
        wallpapers.push(Some(wallpaper))
    }
}

/// The first layer named `name` among `layers[start..]`.
pub open spec fn find_layer_from(layers: Seq<LayerView>, name: Seq<char>, start: int) -> Option<
    usize,
>
    decreases layers.len() - start,
{
    if start < 0 || start >= layers.len() {
        None
    } else if layers[start].output_name == name {
        Some(start as usize)
    } else {
        find_layer_from(layers, name, start + 1)
    }
}

/// The first layer named `name`.
pub open spec fn find_layer(layers: Seq<LayerView>, name: Seq<char>) -> Option<usize> {
    find_layer_from(layers, name, 0)
}

/// The wallpaper of the first entry for `name` among `backgrounds[start..]`.
pub open spec fn find_background_from(
    backgrounds: Seq<BackgroundView>,
    name: Seq<char>,
    start: int,
) -> Option<usize>
    decreases backgrounds.len() - start,
{
    if start < 0 || start >= backgrounds.len() {
        None
    } else if backgrounds[start].workspace_name == name {
        Some(backgrounds[start].wallpaper)
    } else {
        find_background_from(backgrounds, name, start + 1)
    }
}

/// The wallpaper for a workspace: that of the first entry of that name,
/// else that of the first entry named `_default`.
pub open spec fn resolve(backgrounds: Seq<BackgroundView>, name: Seq<char>) -> Option<usize> {
    match find_background_from(backgrounds, name, 0) {
        Some(wallpaper) => Some(wallpaper),
        None => find_background_from(backgrounds, default_workspace(), 0),
    }
}

/// The arena after one more attach of wallpaper `id`: its active-use count
/// goes up by one, and stays where it is at the largest number.
pub open spec fn attached(wallpapers: Seq<Option<WallpaperView>>, id: usize) -> Seq<
    Option<WallpaperView>,
> {
    if id < wallpapers.len() && wallpapers[id as int] is Some {
        let w = wallpapers[id as int]->0;
        wallpapers.update(
            id as int,
            Some(
                WallpaperView {
                    active_count: if w.active_count < usize::MAX {
                        (w.active_count + 1) as usize
                    } else {
                        w.active_count
                    },
                    ..w
                },
            ),
        )
    } else {
        wallpapers
    }
}

/// The arena after one entry showing wallpaper `id` is gone, and the
/// wallpapers freed so far: the sharing count goes down by one, and at zero
/// the place becomes vacant and the wallpaper is listed as freed.
pub open spec fn unshared(
    wallpapers: Seq<Option<WallpaperView>>,
    freed: Seq<FreedWallpaper>,
    id: usize,
) -> (Seq<Option<WallpaperView>>, Seq<FreedWallpaper>) {
    if id < wallpapers.len() && wallpapers[id as int] is Some {
        let w = wallpapers[id as int]->0;
        if w.sharing_count <= 1 {
            (
                wallpapers.update(id as int, None),
                freed.push(FreedWallpaper { wallpaper: id, active_count: w.active_count }),
            )
        } else {
            (
                wallpapers.update(
                    id as int,
                    Some(WallpaperView { sharing_count: (w.sharing_count - 1) as nat, ..w }),
                ),
                freed,
            )
        }
    } else {
        (wallpapers, freed)
    }
}

/// [`unshared`] for every entry of `backgrounds`, the last one first.
pub open spec fn unshared_all(
    wallpapers: Seq<Option<WallpaperView>>,
    freed: Seq<FreedWallpaper>,
    backgrounds: Seq<BackgroundView>,
) -> (Seq<Option<WallpaperView>>, Seq<FreedWallpaper>)
    decreases backgrounds.len(),
{
    if backgrounds.len() == 0 {
        (wallpapers, freed)
    } else {
        let (w, f) = unshared(wallpapers, freed, backgrounds.last().wallpaper);
        unshared_all(w, f, backgrounds.drop_last())
    }
}

/// `layers` without the one at `index`; the last layer takes its place.
pub open spec fn swap_removed(layers: Seq<LayerView>, index: int) -> Seq<LayerView> {
    layers.update(index, layers.last()).drop_last()
}

/// The buffer scale that belongs to a scaling.
pub open spec fn buffer_scale_of(scaling: Scaling) -> i32 {
    match scaling {
        Scaling::Integer(factor) => factor,
        _ => 1,
    }
}

/// What is to be done with a viewport when the scaling becomes `scaling`.
pub open spec fn viewport_change_of(has_viewport: bool, scaling: Scaling) -> ViewportChange {
    match scaling {
        Scaling::Fractional { logical_width, logical_height } => if has_viewport {
            ViewportChange::Resize { logical_width, logical_height }
        } else {
            ViewportChange::Create { logical_width, logical_height }
        },
        _ => if has_viewport {
            ViewportChange::Destroy
        } else {
            ViewportChange::Keep
        },
    }
}

impl LayerView {
    /// A draw of workspace `name` on this layer alone.
    pub open spec fn draw(self, name: Seq<char>) -> (LayerView, LayerDraw) {
        if !self.configured {
            (self, LayerDraw::NotConfigured)
        } else if self.current_workspace == Some(name) {
            (self, LayerDraw::AlreadyCurrent)
        } else {
            match resolve(self.backgrounds, name) {
                None => (self, LayerDraw::NoWallpaper),
                Some(wallpaper) => (
                    LayerView { current_workspace: Some(name), ..self },
                    LayerDraw::Attach(wallpaper),
                ),
            }
        }
    }
}

impl StateView {
    /// The state before the first output: no layer, no wallpaper, no pixel
    /// layout chosen.
    pub open spec fn initial(force_xrgb8888: bool) -> StateView {
        StateView {
            layers: Seq::empty(),
            wallpapers: Seq::empty(),
            force_xrgb8888,
            pixel_layout: None,
        }
    }

    /// The lists fit this machine; every entry shows a live wallpaper,
    /// built for the width, height and transform of the entry's layer; each
    /// live wallpaper's sharing count is the number of entries that show it,
    /// and is not zero; no entry shows a vacant place; no two live
    /// wallpapers have the same key.
    pub open spec fn wf(self) -> bool {
        &&& self.layers.len() <= usize::MAX
        &&& self.wallpapers.len() <= usize::MAX
        &&& forall|l: int|
            0 <= l < self.layers.len() ==> (#[trigger] self.layers[l]).backgrounds.len()
                <= usize::MAX
        &&& forall|l: int, b: int|
            0 <= l < self.layers.len() && 0 <= b < self.layers[l].backgrounds.len() ==> {
                &&& (#[trigger] self.layers[l].backgrounds[b]).wallpaper < self.wallpapers.len()
                &&& self.wallpapers[self.layers[l].backgrounds[b].wallpaper as int] is Some
                &&& built_for(
                    self.wallpapers[self.layers[l].backgrounds[b].wallpaper as int]->0.key,
                    self.layers[l],
                )
            }
        &&& forall|id: usize|
            id < self.wallpapers.len() ==> match #[trigger] self.wallpapers[id as int] {
                Some(w) => w.sharing_count == sharing(self.layers, id) && w.sharing_count > 0,
                None => sharing(self.layers, id) == 0,
            }
        &&& forall|i: int, j: int|
            0 <= i < j < self.wallpapers.len() && (#[trigger] self.wallpapers[i]) is Some && (
            #[trigger] self.wallpapers[j]) is Some ==> !same_key(
                self.wallpapers[i]->0.key,
                self.wallpapers[j]->0.key,
            )
    }

    /// The pixel layout is chosen at the first request and kept from then on.
    pub open spec fn choose_layout(self, formats: Seq<ShmFormat>) -> (StateView, PixelLayout) {
        match self.pixel_layout {
            Some(layout) => (self, layout),
            None => {
                let layout = preferred_layout(self.force_xrgb8888, formats);
                (StateView { pixel_layout: Some(layout), ..self }, layout)
            },
        }
    }

    /// A new output: one more layer at the end.
    pub open spec fn add_layer(
        self,
        output_name: Seq<char>,
        geometry: OutputGeometry,
    ) -> StateView {
        StateView { layers: self.layers.push(LayerView::fresh(output_name, geometry)), ..self }
    }

    /// A wallpaper file for layer `layer`.
    ///
    /// Where a live wallpaper has the file's key on this layer's geometry,
    /// the layer gets an entry that shares it. Where none has and a loaded
    /// buffer of `loaded` bytes is offered, a new wallpaper enters the first
    /// vacant place with one sharer and no active use, and the layer gets an
    /// entry for it. Where none has and nothing is offered, nothing changes.
    pub open spec fn place(self, layer: usize, file: FileView, loaded: Option<usize>) -> (
        StateView,
        Placement,
    ) {
        if layer >= self.layers.len() {
            (self, Placement::NoSuchLayer)
        } else {
            let key = self.layers[layer as int].key_for(file);
            match find_equal(self.wallpapers, key) {
                Some(id) => {
                    let w = self.wallpapers[id as int]->0;
                    (
                        StateView {
                            layers: self.layers.update(
                                layer as int,
                                self.layers[layer as int].with_background(
                                    BackgroundView {
                                        workspace_name: file.workspace,
                                        wallpaper: id,
                                    },
                                ),
                            ),
                            wallpapers: self.wallpapers.update(
                                id as int,
                                Some(WallpaperView { sharing_count: w.sharing_count + 1, ..w }),
                            ),
                            ..self
                        },
                        Placement::Shared(id),
                    )
                },
                None => match loaded {
                    None => (self, Placement::NeedsLoad),
                    Some(shm_size) => {
                        let id = first_vacant(self.wallpapers);
                        (
                            StateView {
                                layers: self.layers.update(
                                    layer as int,
                                    self.layers[layer as int].with_background(
                                        BackgroundView {
                                            workspace_name: file.workspace,
                                            wallpaper: id as usize,
                                        },
                                    ),
                                ),
                                wallpapers: with_wallpaper(
                                    self.wallpapers,
                                    id,
                                    WallpaperView {
                                        key,
                                        shm_size,
                                        sharing_count: 1,
                                        active_count: 0,
                                    },
                                ),
                                ..self
                            },
                            Placement::Created(id as usize),
                        )
                    },
                },
            }
        }
    }

    /// A configuration acknowledgment for layer `layer`.
    pub open spec fn configure(self, layer: usize) -> (StateView, Configured) {
        if layer >= self.layers.len() {
            (self, Configured::NoSuchLayer)
        } else if self.layers[layer as int].configured {
            (self, Configured::AlreadyConfigured)
        } else {
            (
                StateView {
                    layers: self.layers.update(
                        layer as int,
                        LayerView { configured: true, ..self.layers[layer as int] },
                    ),
                    ..self
                },
                Configured::RequestVisible,
            )
        }
    }

    /// A draw of workspace `name` on the first layer of output `output`.
    pub open spec fn draw(self, output: Seq<char>, name: Seq<char>) -> (StateView, DrawOutcome) {
        match find_layer(self.layers, output) {
            None => (self, DrawOutcome::UnknownOutput),
            Some(layer) => {
                let (drawn, outcome) = self.layers[layer as int].draw(name);
                match outcome {
                    LayerDraw::NotConfigured => (self, DrawOutcome::NotConfigured),
                    LayerDraw::AlreadyCurrent => (self, DrawOutcome::AlreadyCurrent),
                    LayerDraw::NoWallpaper => (self, DrawOutcome::NoWallpaper),
                    LayerDraw::Attach(wallpaper) => (
                        StateView {
                            layers: self.layers.update(layer as int, drawn),
                            wallpapers: attached(self.wallpapers, wallpaper),
                            ..self
                        },
                        DrawOutcome::Attach {
                            layer,
                            wallpaper,
                            width: drawn.width,
                            height: drawn.height,
                        },
                    ),
                }
            },
        }
    }

    /// Draws for `events`, pairs of output and workspace, in their order.
    pub open spec fn draw_all(self, events: Seq<(Seq<char>, Seq<char>)>) -> (
        StateView,
        Seq<DrawOutcome>,
    )
        decreases events.len(),
    {
        if events.len() == 0 {
            (self, Seq::empty())
        } else {
            let (before, outcomes) = self.draw_all(events.drop_last());
            let (after, outcome) = before.draw(events.last().0, events.last().1);
            (after, outcomes.push(outcome))
        }
    }

    /// A release notification for the buffer of wallpaper `id`.
    pub open spec fn release(self, id: usize) -> (StateView, ReleaseOutcome) {
        if id < self.wallpapers.len() && self.wallpapers[id as int] is Some {
            let w = self.wallpapers[id as int]->0;
            if w.active_count == 0 {
                (self, ReleaseOutcome::Unexpected)
            } else {
                (
                    StateView {
                        wallpapers: self.wallpapers.update(
                            id as int,
                            Some(
                                WallpaperView { active_count: (w.active_count - 1) as usize, ..w },
                            ),
                        ),
                        ..self
                    },
                    ReleaseOutcome::Released,
                )
            }
        } else {
            (self, ReleaseOutcome::Stale)
        }
    }

    /// The end of output `output`: its first layer leaves, each of the
    /// layer's entries gives up its share of a wallpaper, and the visible
    /// workspaces are to be asked for anew. Without a layer of that name
    /// nothing happens.
    pub open spec fn destroy(self, output: Seq<char>) -> (StateView, DestroyedView) {
        match find_layer(self.layers, output) {
            None => (self, DestroyedView::UnknownOutput),
            Some(layer) => {
                let (wallpapers, freed) = unshared_all(
                    self.wallpapers,
                    Seq::empty(),
                    self.layers[layer as int].backgrounds,
                );
                (
                    StateView {
                        layers: swap_removed(self.layers, layer as int),
                        wallpapers,
                        ..self
                    },
                    DestroyedView::Requery(TeardownView { layer, freed }),
                )
            },
        }
    }

    /// A change of output `output` to `geometry`: the scaling is brought up
    /// to date; the buffers stay as they were built.
    pub open spec fn update(self, output: Seq<char>, geometry: OutputGeometry) -> (
        StateView,
        Result<OutputUpdate, OutputError>,
    ) {
        match find_layer(self.layers, output) {
            None => (self, Err(OutputError::NoBackgroundLayer)),
            Some(layer) => {
                let old = self.layers[layer as int];
                let scaling = geometry.scaling_spec();
                (
                    StateView {
                        layers: self.layers.update(
                            layer as int,
                            LayerView { has_viewport: scaling is Fractional, ..old },
                        ),
                        ..self
                    },
                    Ok(
                        OutputUpdate {
                            layer,
                            size_changed: old.width != geometry.width || old.height
                                != geometry.height,
                            buffer_scale: buffer_scale_of(scaling),
                            viewport: viewport_change_of(old.has_viewport, scaling),
                        },
                    ),
                )
            },
        }
    }
}

/// How many places of the arena hold a wallpaper.
pub open spec fn live_count(wallpapers: Seq<Option<WallpaperView>>) -> nat
    decreases wallpapers.len(),
{
    if wallpapers.len() == 0 {
        0
    } else {
        live_count(wallpapers.drop_last()) + if wallpapers.last() is Some {
            1nat
        } else {
            0nat
        }
    }
}

/// The bytes of shared memory that the wallpapers of the arena take.
pub open spec fn live_bytes(wallpapers: Seq<Option<WallpaperView>>) -> nat
    decreases wallpapers.len(),
{
    if wallpapers.len() == 0 {
        0
    } else {
        live_bytes(wallpapers.drop_last()) + match wallpapers.last() {
            Some(w) => w.shm_size as nat,
            None => 0nat,
        }
    }
}

/// The name of the surface of an output's layer.
pub open spec fn surface_name(output_name: Seq<char>) -> Seq<char> {
    "multibg-sway"@ + "_wallpaper_"@ + output_name
}

} // verus!
