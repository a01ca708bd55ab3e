//! The buffer cache: one background layer per output, and the wallpapers
//! that their workspace entries share.
//!
//! A wallpaper is held once, in an arena, however many workspaces and
//! outputs show it. Each workspace entry of a layer names its wallpaper by
//! the wallpaper's place in the arena; the shared memory and the protocol
//! objects stay with the caller, under the same number.

pub mod laws;
pub mod lemmas;
pub mod model;

use vstd::prelude::*;
use crate::image::{PixelLayout, ShmFormat, select_pixel_layout};
use crate::output::{
    OutputError, OutputGeometry, OutputInfo, Scaling, Transform, describe_output, geometry_of,
};
use crate::bytes::bytes_equal;
use crate::compositors::{WorkspaceVisible, events_view};
use crate::wayland::laws::{
    lemma_add_layer_wf, lemma_configure_wf, lemma_destroy_wf, lemma_draw_wf, lemma_initial_wf,
    lemma_place_wf, lemma_release_wf, lemma_update_wf,
};
use crate::wayland::lemmas::{
    lemma_find_equal_from, lemma_find_layer_from, lemma_first_vacant_from, lemma_sharing_bound,
};
use crate::wayland::model::{
    BackgroundView, Configured, DrawOutcome, FileView, FreedWallpaper, LayerDraw, LayerView,
    DestroyedView, OutputUpdate, Placement, ReleaseOutcome, StateView, TeardownView,
    ViewportChange,
    WallpaperKey, WallpaperView, find_background_from, find_equal,
    find_equal_from, find_layer, find_layer_from, first_vacant, first_vacant_from, live_bytes,
    live_count, surface_name, unshared, unshared_all,
};
use vstd::string::StringExecFns;

verus! {

/// A wallpaper file found for a workspace of an output.
pub struct WallpaperFile {
    /// The file's stem: the name of the workspace it is for.
    pub workspace: String,
    /// The bytes of the file's canonical path.
    pub canon_path: Vec<u8>,
    /// When the file was last modified, in nanoseconds since the epoch.
    pub canon_modified: u128,
}

impl View for WallpaperFile {
    type V = FileView;

    open spec fn view(&self) -> FileView {
        FileView {
            workspace: self.workspace@,
            canon_path: self.canon_path@,
            canon_modified: self.canon_modified,
        }
    }
}

/// A decoded wallpaper: where it came from, what it was built for, and its
/// two counters.
pub struct Wallpaper {
    canon_path: Vec<u8>,
    canon_modified: u128,
    width: i32,
    height: i32,
    transform: Transform,
    shm_size: usize,
    sharing_count: u128,
    active_count: usize,
}

impl View for Wallpaper {
    type V = WallpaperView;

    closed spec fn view(&self) -> WallpaperView {
        WallpaperView {
            key: WallpaperKey {
                canon_path: self.canon_path@,
                canon_modified: self.canon_modified,
                width: self.width,
                height: self.height,
                transform: self.transform,
            },
            shm_size: self.shm_size,
            sharing_count: self.sharing_count as nat,
            active_count: self.active_count,
        }
    }
}

/// The wallpaper shown for one workspace.
pub struct WorkspaceBackground {
    workspace_name: String,
    wallpaper: usize,
}

impl View for WorkspaceBackground {
    type V = BackgroundView;

    closed spec fn view(&self) -> BackgroundView {
        BackgroundView { workspace_name: self.workspace_name@, wallpaper: self.wallpaper }
    }
}

/// The background of one output: its wallpapers by workspace, and which
/// workspace it shows.
pub struct BackgroundLayer {
    output_name: String,
    width: i32,
    height: i32,
    transform: Transform,
    configured: bool,
    workspace_backgrounds: Vec<WorkspaceBackground>,
    current_workspace: Option<String>,
    has_viewport: bool,
}

/// The views of a layer's entries.
pub closed spec fn backgrounds_view(backgrounds: Seq<WorkspaceBackground>) -> Seq<BackgroundView> {
    backgrounds.map_values(|b: WorkspaceBackground| b@)
}

/// The view of an optional string.
pub open spec fn name_view(name: Option<String>) -> Option<Seq<char>> {
    match name {
        Some(name) => Some(name@),
        None => None,
    }
}

impl View for BackgroundLayer {
    type V = LayerView;

    closed spec fn view(&self) -> LayerView {
        LayerView {
            output_name: self.output_name@,
            width: self.width,
            height: self.height,
            transform: self.transform,
            configured: self.configured,
            backgrounds: backgrounds_view(self.workspace_backgrounds@),
            current_workspace: name_view(self.current_workspace),
            has_viewport: self.has_viewport,
        }
    }
}

/// The views of the layers.
pub closed spec fn layers_view(layers: Seq<BackgroundLayer>) -> Seq<LayerView> {
    layers.map_values(|l: BackgroundLayer| l@)
}

/// The views of the places of the arena.
pub closed spec fn wallpapers_view(wallpapers: Seq<Option<Wallpaper>>) -> Seq<
    Option<WallpaperView>,
> {
    wallpapers.map_values(
        |w: Option<Wallpaper>|
            match w {
                Some(w) => Some(w@),
                None => None,
            },
    )
}

/// All background layers and the wallpapers they share.
pub struct State {
    layers: Vec<BackgroundLayer>,
    wallpapers: Vec<Option<Wallpaper>>,
    force_xrgb8888: bool,
    pixel_layout: Option<PixelLayout>,
}

impl View for State {
    type V = StateView;

    closed spec fn view(&self) -> StateView {
        StateView {
            layers: layers_view(self.layers@),
            wallpapers: wallpapers_view(self.wallpapers@),
            force_xrgb8888: self.force_xrgb8888,
            pixel_layout: self.pixel_layout,
        }
    }
}

/// What a new output needs on the display side.
#[derive(Clone, Copy, Debug, PartialEq, Eq, Structural)]
pub struct NewOutput {
    /// The index of the layer made for the output.
    pub layer: usize,
    pub geometry: OutputGeometry,
    pub scaling: Scaling,
}

/// What the removal of a layer left to do.
pub struct Teardown {
    /// The index the layer had; the last layer has taken its place.
    pub layer: usize,
    /// The wallpapers that no entry shows any more.
    pub freed: Vec<FreedWallpaper>,
}

impl View for Teardown {
    type V = TeardownView;

    open spec fn view(&self) -> TeardownView {
        TeardownView { layer: self.layer, freed: self.freed@ }
    }
}

/// The answer to the end of an output.
pub enum Destroyed {
    /// No layer has that output name; nothing changed.
    UnknownOutput,
    /// The layer is gone: the wallpapers listed are to be unmapped and
    /// destroyed, and the workspaces visible on all outputs are to be asked
    /// for anew.
    Requery(Teardown),
}

impl View for Destroyed {
    type V = DestroyedView;

    open spec fn view(&self) -> DestroyedView {
        match self {
            Destroyed::UnknownOutput => DestroyedView::UnknownOutput,
            Destroyed::Requery(teardown) => DestroyedView::Requery(teardown@),
        }
    }
}

impl State {
    /// Whether the state is one that the operations of this type produce:
    /// see [`StateView::wf`].
    pub open spec fn wf(&self) -> bool {
        self@.wf()
    }

    /// The state before the first output. With `force_xrgb8888` the
    /// four-byte pixel layout is used whatever the display server offers.
    pub fn new(force_xrgb8888: bool) -> (state: State)
        ensures
            state@ == StateView::initial(force_xrgb8888),
            state.wf(),
    {
        let state = State {
            layers: Vec::new(),
            wallpapers: Vec::new(),
            force_xrgb8888,
            pixel_layout: None,
        };
        proof {
            lemma_initial_wf(force_xrgb8888);
            assert(state@.layers =~= Seq::empty());
            assert(state@.wallpapers =~= Seq::empty());
        }
        state
    }

    /// The pixel layout of all buffers: chosen from `formats`, the formats
    /// the display server advertises, at the first call, and kept from
    /// then on.
    pub fn pixel_format(&mut self, formats: &Vec<ShmFormat>) -> (layout: PixelLayout)
        ensures
            (final(self)@, layout) == old(self)@.choose_layout(formats@),
            old(self).wf() ==> final(self).wf(),
    {
        match self.pixel_layout {
            Some(layout) => layout,
            None => {
                let layout = select_pixel_layout(self.force_xrgb8888, formats);
                self.pixel_layout = Some(layout);
                layout
            },
        }
    }

    /// The number of layers.
    pub fn layer_count(&self) -> (count: usize)
        ensures
            count == self@.layers.len(),
    {
        self.layers.len()
    }

    /// The index of the first layer on an output named `output`.
    pub fn find_layer(&self, output: &String) -> (found: Option<usize>)
        ensures
            found == find_layer(self@.layers, output@),
    {
        let mut index: usize = 0;
        while index < self.layers.len()
            invariant
                index <= self.layers.len(),
                find_layer(self@.layers, output@) == find_layer_from(
                    self@.layers,
                    output@,
                    index as int,
                ),
            decreases self.layers.len() - index,
        {
            if self.layers[index].output_name == *output {
                return Some(index);
            }
            index += 1;
        }
        None
    }

    /// The place of the live wallpaper with this key, if there is one.
    fn find_equal_wallpaper(
        &self,
        canon_path: &Vec<u8>,
        canon_modified: u128,
        width: i32,
        height: i32,
        transform: Transform,
    ) -> (found: Option<usize>)
        ensures
            found == find_equal(
                self@.wallpapers,
                WallpaperKey { canon_path: canon_path@, canon_modified, width, height, transform },
            ),
    {
        let ghost key = WallpaperKey {
            canon_path: canon_path@,
            canon_modified,
            width,
            height,
            transform,
        };
        let mut index: usize = 0;
        while index < self.wallpapers.len()
            invariant
                index <= self.wallpapers.len(),
                key == (WallpaperKey {
                    canon_path: canon_path@,
                    canon_modified,
                    width,
                    height,
                    transform,
                }),
                find_equal(self@.wallpapers, key) == find_equal_from(
                    self@.wallpapers,
                    key,
                    index as int,
                ),
            decreases self.wallpapers.len() - index,
        {
            match &self.wallpapers[index] {
                Some(w) => {
                    if w.canon_modified == canon_modified && w.width == width && w.height
                        == height && w.transform == transform && bytes_equal(
                        w.canon_path.as_slice(),
                        canon_path.as_slice(),
                    ) {
                        return Some(index);
                    }
                },
                None => {},
            }
            index += 1;
        }
        None
    }

    /// The first vacant place of the arena, or its length.
    fn first_vacant(&self) -> (place: usize)
        ensures
            place == first_vacant(self@.wallpapers),
    {
        let mut index: usize = 0;
        while index < self.wallpapers.len()
            invariant
                index <= self.wallpapers.len(),
                first_vacant(self@.wallpapers) == first_vacant_from(
                    self@.wallpapers,
                    index as int,
                ),
            decreases self.wallpapers.len() - index,
        {
            if self.wallpapers[index].is_none() {
                return index;
            }
            index += 1;
        }
        index
    }

    /// Enters a new output. The description is checked as by
    /// [`describe_output`]; where it passes, the output gets a layer at the
    /// end of the list: unconfigured, without wallpapers, showing nothing.
    pub fn new_output(&mut self, info: Option<&OutputInfo>) -> (made: Result<
        NewOutput,
        OutputError,
    >)
        requires
            old(self).wf(),
        ensures
            final(self).wf(),
            match geometry_of(info) {
                Err(error) => made == Err::<NewOutput, OutputError>(error) && final(self)@ == old(
                    self,
                )@,
                Ok(geometry) => made == Ok::<NewOutput, OutputError>(
                    NewOutput {
                        layer: old(self)@.layers.len() as usize,
                        geometry,
                        scaling: geometry.scaling_spec(),
                    },
                ) && final(self)@ == old(self)@.add_layer(info->0.name->0@, geometry),
            },
    {
        let (described, name) = match info {
            None => {
                return Err(OutputError::NoInfo);
            },
            Some(described) => match &described.name {
                None => {
                    return Err(OutputError::NoName);
                },
                Some(name) => (described, name),
            },
        };
        let geometry = match describe_output(Some(described)) {
            Err(error) => {
                return Err(error);
            },
            Ok(geometry) => geometry,
        };
        let scaling = geometry.scaling();
        let has_viewport = match scaling {
            Scaling::Fractional { .. } => true,
            _ => false,
        };
        let layer = self.layers.len();
        let fresh = BackgroundLayer {
            output_name: name.clone(),
            width: geometry.width,
            height: geometry.height,
            transform: geometry.transform,
            configured: false,
            workspace_backgrounds: Vec::new(),
            current_workspace: None,
            has_viewport,
        };
        proof {
            assert(fresh@.backgrounds =~= Seq::empty());
            assert(fresh@ == LayerView::fresh(name@, geometry));
        }
        self.layers.push(fresh);
        proof {
            assert(self.layers.len() == self.layers@.len());
            assert(self@.layers =~= old(self)@.layers.push(LayerView::fresh(name@, geometry)));
            lemma_add_layer_wf(old(self)@, name@, geometry);
        }
        Ok(NewOutput { layer, geometry, scaling })
    }

    /// Offers a wallpaper file to layer `layer`: see [`StateView::place`].
    ///
    /// Call it first without a loaded buffer. [`Placement::NeedsLoad`] then
    /// says that the file has to be decoded; call it again with the size of
    /// the buffer once that is done.
    pub fn place_wallpaper(
        &mut self,
        layer: usize,
        file: &WallpaperFile,
        loaded: Option<usize>,
    ) -> (placement: Placement)
        requires
            old(self).wf(),
        ensures
            final(self).wf(),
            (final(self)@, placement) == old(self)@.place(layer, file@, loaded),
    {
        if layer >= self.layers.len() {
            return Placement::NoSuchLayer;
        }
        let width = self.layers[layer].width;
        let height = self.layers[layer].height;
        let transform = self.layers[layer].transform;
        let ghost key = old(self)@.layers[layer as int].key_for(file@);
        let found = self.find_equal_wallpaper(
            &file.canon_path,
            file.canon_modified,
            width,
            height,
            transform,
        );
        proof {
            lemma_find_equal_from(self@.wallpapers, key, 0);
            lemma_first_vacant_from(self@.wallpapers, 0);
        }
        let id = match found {
            Some(id) => {
                proof {
                    lemma_sharing_bound(self@.layers, id, usize::MAX as nat);
                    assert(self@.layers.len() * (usize::MAX as nat) <= 0xffff_ffff_ffff_ffff
                        * 0xffff_ffff_ffff_ffff) by (nonlinear_arith)
                        requires
                            self@.layers.len() <= 0xffff_ffff_ffff_ffff,
                            usize::MAX <= 0xffff_ffff_ffff_ffff,
                    ;
                }
                match &mut self.wallpapers[id] {
                    Some(shared) => {
                        shared.sharing_count = shared.sharing_count + 1;
                    },
                    None => {},
                }
                id
            },
            None => {
                let shm_size = match loaded {
                    None => {
                        return Placement::NeedsLoad;
                    },
                    Some(shm_size) => shm_size,
                };
                let id = self.first_vacant();
                let created = Wallpaper {
                    canon_path: file.canon_path.clone(),
                    canon_modified: file.canon_modified,
                    width,
                    height,
                    transform,
                    shm_size,
                    sharing_count: 1,
                    active_count: 0,
                };
                proof {
                    assert(created.canon_path@ =~= file.canon_path@);
                }
                if id < self.wallpapers.len() {
                    self.wallpapers[id] = Some(created);
                } else {
                    self.wallpapers.push(Some(created));
                }
                id
            },
        };
        let background = WorkspaceBackground {
            workspace_name: file.workspace.clone(),
            wallpaper: id,
        };
        self.layers[layer].workspace_backgrounds.push(background);
        proof {
            assert(self.wallpapers.len() == self.wallpapers@.len());
            assert(self.layers[layer as int].workspace_backgrounds.len()
                == self.layers[layer as int].workspace_backgrounds@.len());
            let expected = old(self)@.place(layer, file@, loaded).0;
            assert(self@.layers[layer as int].backgrounds
                =~= expected.layers[layer as int].backgrounds);
            assert(self@.layers =~= expected.layers);
            assert(self@.wallpapers =~= expected.wallpapers);
            lemma_place_wf(old(self)@, layer, file@, loaded);
        }
        match found {
            Some(_) => Placement::Shared(id),
            None => Placement::Created(id),
        }
    }

    /// A configuration acknowledgment for the surface of layer `layer`. At
    /// the first one the layer becomes configured, and the workspace
    /// visible on its output is to be asked for.
    pub fn configure(&mut self, layer: usize) -> (answer: Configured)
        requires
            old(self).wf(),
        ensures
            final(self).wf(),
            (final(self)@, answer) == old(self)@.configure(layer),
    {
        proof {
            lemma_configure_wf(self@, layer);
        }
        if layer >= self.layers.len() {
            return Configured::NoSuchLayer;
        }
        if self.layers[layer].configured {
            return Configured::AlreadyConfigured;
        }
        self.layers[layer].configured = true;
        proof {
            assert(self@.layers =~= old(self)@.configure(layer).0.layers);
        }
        Configured::RequestVisible
    }

    /// Shows the wallpaper of workspace `workspace_name` on the first layer
    /// of output `output`: see [`StateView::draw`].
    pub fn draw(&mut self, output: &str, workspace_name: &str) -> (outcome: DrawOutcome)
        requires
            old(self).wf(),
        ensures
            final(self).wf(),
            (final(self)@, outcome) == old(self)@.draw(output@, workspace_name@),
    {
        proof {
            lemma_draw_wf(self@, output@, workspace_name@);
        }
        let output_name = output.to_owned();
        let layer = match self.find_layer(&output_name) {
            None => {
                return DrawOutcome::UnknownOutput;
            },
            Some(layer) => layer,
        };
        proof {
            lemma_find_layer_from(self@.layers, output@, 0);
        }
        let drawn = self.layers[layer].draw_workspace_bg(workspace_name);
        match drawn {
            LayerDraw::NotConfigured => {
                proof {
                    assert(self@.layers =~= old(self)@.layers);
                }
                DrawOutcome::NotConfigured
            },
            LayerDraw::AlreadyCurrent => {
                proof {
                    assert(self@.layers =~= old(self)@.layers);
                }
                DrawOutcome::AlreadyCurrent
            },
            LayerDraw::NoWallpaper => {
                proof {
                    assert(self@.layers =~= old(self)@.layers);
                }
                DrawOutcome::NoWallpaper
            },
            LayerDraw::Attach(wallpaper) => {
                if wallpaper < self.wallpapers.len() {
                    match &mut self.wallpapers[wallpaper] {
                        Some(shown) => {
                            if shown.active_count < usize::MAX {
                                shown.active_count = shown.active_count + 1;
                            }
                        },
                        None => {},
                    }
                }
                proof {
                    let expected = old(self)@.draw(output@, workspace_name@).0;
                    assert(self@.layers =~= expected.layers);
                    assert(self@.wallpapers =~= expected.wallpapers);
                }
                DrawOutcome::Attach {
                    layer,
                    wallpaper,
                    width: self.layers[layer].width,
                    height: self.layers[layer].height,
                }
            },
        }
    }

    /// Draws for all `events` in their order: see [`StateView::draw_all`].
    /// The outcomes come in the order of the events, one for each.
    pub fn handle_events(&mut self, events: &Vec<WorkspaceVisible>) -> (outcomes: Vec<DrawOutcome>)
        requires
            old(self).wf(),
        ensures
            final(self).wf(),
            (final(self)@, outcomes@) == old(self)@.draw_all(events_view(events@)),
            outcomes@.len() == events@.len(),
    {
        let mut outcomes: Vec<DrawOutcome> = Vec::new();
        let ghost start = self@;
        let ghost all = events_view(events@);
        let mut index: usize = 0;
        proof {
            assert(all.take(0) =~= Seq::empty());
        }
        while index < events.len()
            invariant
                index <= events.len(),
                all == events_view(events@),
                self.wf(),
                (self@, outcomes@) == start.draw_all(all.take(index as int)),
                outcomes@.len() == index,
            decreases events.len() - index,
        {
            let outcome = self.draw(
                events[index].output.as_str(),
                events[index].workspace_name.as_str(),
            );
            outcomes.push(outcome);
            proof {
                assert(all.take(index + 1).drop_last() =~= all.take(index as int));
                assert(all.take(index + 1).last() == events@[index as int]@);
            }
            index += 1;
        }
        proof {
            assert(all.take(index as int) =~= all);
        }
        outcomes
    }

    /// A release notification for the buffer of wallpaper `wallpaper`. The
    /// active-use count goes down by one; at zero it stays, and the
    /// notification is an anomaly to report.
    pub fn release(&mut self, wallpaper: usize) -> (outcome: ReleaseOutcome)
        requires
            old(self).wf(),
        ensures
            final(self).wf(),
            (final(self)@, outcome) == old(self)@.release(wallpaper),
    {
        proof {
            lemma_release_wf(self@, wallpaper);
        }
        if wallpaper >= self.wallpapers.len() {
            return ReleaseOutcome::Stale;
        }
        let outcome = match &mut self.wallpapers[wallpaper] {
            None => ReleaseOutcome::Stale,
            Some(shown) => {
                if shown.active_count == 0 {
                    ReleaseOutcome::Unexpected
                } else {
                    shown.active_count = shown.active_count - 1;
                    ReleaseOutcome::Released
                }
            },
        };
        proof {
            assert(self@.wallpapers =~= old(self)@.release(wallpaper).0.wallpapers);
        }
        outcome
    }

    /// The end of output `output`: see [`StateView::destroy`]. The first
    /// layer of that name leaves the list, the last layer takes its index,
    /// and each wallpaper that no entry shows any more is handed back to be
    /// unmapped and destroyed. The workspaces that were on the output may
    /// now be visible elsewhere, so the answer asks for a new query of all
    /// visible workspaces.
    pub fn output_destroyed(&mut self, output: &str) -> (destroyed: Destroyed)
        requires
            old(self).wf(),
        ensures
            final(self).wf(),
            (final(self)@, destroyed@) == old(self)@.destroy(output@),
    {
        proof {
            lemma_destroy_wf(self@, output@);
            lemma_find_layer_from(self@.layers, output@, 0);
        }
        let output_name = output.to_owned();
        let layer = match self.find_layer(&output_name) {
            None => {
                return Destroyed::UnknownOutput;
            },
            Some(layer) => layer,
        };
        let mut removed = self.layers.swap_remove(layer);
        let mut freed: Vec<FreedWallpaper> = Vec::new();
        let ghost expected = old(self)@.destroy(output@).0;
        let ghost freed_expected = old(self)@.destroy(output@).1->Requery_0.freed;
        proof {
            assert(self@.layers =~= expected.layers);
            assert(removed@.backgrounds == old(self)@.layers[layer as int].backgrounds);
        }
        while removed.workspace_backgrounds.len() > 0
            invariant
                self@.layers == expected.layers,
                self@.force_xrgb8888 == expected.force_xrgb8888,
                self@.pixel_layout == expected.pixel_layout,
                unshared_all(self@.wallpapers, freed@, removed@.backgrounds) == (
                    expected.wallpapers,
                    freed_expected,
                ),
            decreases removed.workspace_backgrounds.len(),
        {
            let ghost pending = removed@.backgrounds;
            let ghost shared_before = self@.wallpapers;
            let ghost freed_before = freed@;
            let background = removed.workspace_backgrounds.pop().unwrap();
            let id = background.wallpaper;
            proof {
                assert(removed@.backgrounds =~= pending.drop_last());
                assert(pending.last() == background@);
            }
            if id < self.wallpapers.len() {
                let vacated = match &mut self.wallpapers[id] {
                    None => None,
                    Some(shared) => {
                        if shared.sharing_count <= 1 {
                            Some(shared.active_count)
                        } else {
                            shared.sharing_count = shared.sharing_count - 1;
                            None
                        }
                    },
                };
                match vacated {
                    None => {},
                    Some(active_count) => {
                        self.wallpapers[id] = None;
                        freed.push(FreedWallpaper { wallpaper: id, active_count });
                    },
                }
            }
            proof {
                let step = unshared(shared_before, freed_before, id);
                assert(self@.wallpapers =~= step.0);
                assert(freed@ =~= step.1);
            }
        }
        Destroyed::Requery(Teardown { layer, freed })
    }

    /// Brings the scaling of a changed output up to date. The description
    /// is checked as by [`describe_output`]; the buffers of the output stay
    /// as they were built.
    pub fn update_output(&mut self, info: Option<&OutputInfo>) -> (updated: Result<
        OutputUpdate,
        OutputError,
    >)
        requires
            old(self).wf(),
        ensures
            final(self).wf(),
            match geometry_of(info) {
                Err(error) => updated == Err::<OutputUpdate, OutputError>(error) && final(self)@
                    == old(self)@,
                Ok(geometry) => (final(self)@, updated) == old(self)@.update(
                    info->0.name->0@,
                    geometry,
                ),
            },
    {
        let (described, name) = match info {
            None => {
                return Err(OutputError::NoInfo);
            },
            Some(described) => match &described.name {
                None => {
                    return Err(OutputError::NoName);
                },
                Some(name) => (described, name),
            },
        };
        let geometry = match describe_output(Some(described)) {
            Err(error) => {
                return Err(error);
            },
            Ok(geometry) => geometry,
        };
        proof {
            lemma_update_wf(self@, name@, geometry);
            lemma_find_layer_from(self@.layers, name@, 0);
        }
        let layer = match self.find_layer(name) {
            None => {
                return Err(OutputError::NoBackgroundLayer);
            },
            Some(layer) => layer,
        };
        let scaling = geometry.scaling();
        let had_viewport = self.layers[layer].has_viewport;
        let size_changed = self.layers[layer].width != geometry.width || self.layers[layer].height
            != geometry.height;
        let (buffer_scale, viewport, has_viewport) = match scaling {
            Scaling::Unscaled => (
                1i32,
                if had_viewport {
                    ViewportChange::Destroy
                } else {
                    ViewportChange::Keep
                },
                false,
            ),
            Scaling::Integer(factor) => (
                factor,
                if had_viewport {
                    ViewportChange::Destroy
                } else {
                    ViewportChange::Keep
                },
                false,
            ),
            Scaling::Fractional { logical_width, logical_height } => (
                1i32,
                if had_viewport {
                    ViewportChange::Resize { logical_width, logical_height }
                } else {
                    ViewportChange::Create { logical_width, logical_height }
                },
                true,
            ),
        };
        self.layers[layer].has_viewport = has_viewport;
        proof {
            assert(self@.layers =~= old(self)@.update(name@, geometry).0.layers);
        }
        Ok(OutputUpdate { layer, size_changed, buffer_scale, viewport })
    }
}

impl BackgroundLayer {
    /// The wallpaper of the first entry for workspace `name`.
    fn find_background(&self, name: &String) -> (found: Option<usize>)
        ensures
            found == find_background_from(self@.backgrounds, name@, 0),
    {
        let mut index: usize = 0;
        while index < self.workspace_backgrounds.len()
            invariant
                index <= self.workspace_backgrounds.len(),
                find_background_from(self@.backgrounds, name@, 0) == find_background_from(
                    self@.backgrounds,
                    name@,
                    index as int,
                ),
            decreases self.workspace_backgrounds.len() - index,
        {
            if self.workspace_backgrounds[index].workspace_name == *name {
                return Some(self.workspace_backgrounds[index].wallpaper);
            }
            index += 1;
        }
        None
    }

    /// Makes `workspace_name` the workspace this layer shows: see
    /// [`LayerView::draw`]. Nothing changes on a layer that is not
    /// configured, that shows the workspace already, or that has a
    /// wallpaper neither for the workspace nor for `_default`.
    pub fn draw_workspace_bg(&mut self, workspace_name: &str) -> (outcome: LayerDraw)
        ensures
            (final(self)@, outcome) == old(self)@.draw(workspace_name@),
    {
        if !self.configured {
            return LayerDraw::NotConfigured;
        }
        let wanted = workspace_name.to_owned();
        let shown = match &self.current_workspace {
            Some(current) => *current == wanted,
            None => false,
        };
        if shown {
            return LayerDraw::AlreadyCurrent;
        }
        let resolved = match self.find_background(&wanted) {
            Some(wallpaper) => Some(wallpaper),
            None => {
                let fallback = "_default".to_owned();
                self.find_background(&fallback)
            },
        };
        match resolved {
            None => LayerDraw::NoWallpaper,
            Some(wallpaper) => {
                self.current_workspace = Some(wanted);
                LayerDraw::Attach(wallpaper)
            },
        }
    }
}

/// How much shared memory the wallpapers take.
#[derive(Clone, Copy, Debug, PartialEq, Eq, Structural)]
pub struct MemoryStats {
    /// The number of wallpapers, each with a pool of its own.
    pub pools: usize,
    /// The bytes of all pools together.
    pub bytes: u128,
}

impl Wallpaper {
    /// The bytes of the canonical path of the file it was decoded from.
    pub fn canon_path(&self) -> (path: &Vec<u8>)
        ensures
            path@ == self@.key.canon_path,
    {
        &self.canon_path
    }

    /// When that file was last modified.
    pub fn canon_modified(&self) -> (modified: u128)
        ensures
            modified == self@.key.canon_modified,
    {
        self.canon_modified
    }

    /// The width in pixels it was built for.
    pub fn width(&self) -> (width: i32)
        ensures
            width == self@.key.width,
    {
        self.width
    }

    /// The height in pixels it was built for.
    pub fn height(&self) -> (height: i32)
        ensures
            height == self@.key.height,
    {
        self.height
    }

    /// The transform it was built for.
    pub fn transform(&self) -> (transform: Transform)
        ensures
            transform == self@.key.transform,
    {
        self.transform
    }

    /// The bytes of its shared memory.
    pub fn shm_size(&self) -> (size: usize)
        ensures
            size == self@.shm_size,
    {
        self.shm_size
    }

    /// How many workspace entries show it.
    pub fn sharing_count(&self) -> (count: u128)
        ensures
            count == self@.sharing_count,
    {
        self.sharing_count
    }

    /// How many attaches the display server has not yet released.
    pub fn active_count(&self) -> (count: usize)
        ensures
            count == self@.active_count,
    {
        self.active_count
    }
}

impl WorkspaceBackground {
    /// The name of the workspace.
    pub fn workspace_name(&self) -> (name: &String)
        ensures
            name@ == self@.workspace_name,
    {
        &self.workspace_name
    }

    /// The place of its wallpaper in the arena.
    pub fn wallpaper(&self) -> (wallpaper: usize)
        ensures
            wallpaper == self@.wallpaper,
    {
        self.wallpaper
    }
}

impl BackgroundLayer {
    /// The name of the output.
    pub fn output_name(&self) -> (name: &String)
        ensures
            name@ == self@.output_name,
    {
        &self.output_name
    }

    /// The width of its buffers in pixels.
    pub fn width(&self) -> (width: i32)
        ensures
            width == self@.width,
    {
        self.width
    }

    /// The height of its buffers in pixels.
    pub fn height(&self) -> (height: i32)
        ensures
            height == self@.height,
    {
        self.height
    }

    /// The transform its buffers were built for.
    pub fn transform(&self) -> (transform: Transform)
        ensures
            transform == self@.transform,
    {
        self.transform
    }

    /// Whether the display server has acknowledged the surface.
    pub fn is_configured(&self) -> (configured: bool)
        ensures
            configured == self@.configured,
    {
        self.configured
    }

    /// Whether the surface has a viewport.
    pub fn has_viewport(&self) -> (has: bool)
        ensures
            has == self@.has_viewport,
    {
        self.has_viewport
    }

    /// The workspace whose wallpaper is shown, if any is.
    pub fn current_workspace(&self) -> (current: Option<&String>)
        ensures
            match current {
                Some(name) => self@.current_workspace == Some(name@),
                None => self@.current_workspace is None,
            },
    {
        self.current_workspace.as_ref()
    }

    /// The number of workspace entries.
    pub fn background_count(&self) -> (count: usize)
        ensures
            count == self@.backgrounds.len(),
    {
        self.workspace_backgrounds.len()
    }

    /// The workspace entry at `index`.
    pub fn background(&self, index: usize) -> (background: Option<&WorkspaceBackground>)
        ensures
            match background {
                Some(b) => index < self@.backgrounds.len() && b@ == self@.backgrounds[index as int],
                None => index >= self@.backgrounds.len(),
            },
    {
        if index < self.workspace_backgrounds.len() {
            Some(&self.workspace_backgrounds[index])
        } else {
            None
        }
    }
}

impl State {
    /// The layer at `index`.
    pub fn layer(&self, index: usize) -> (layer: Option<&BackgroundLayer>)
        ensures
            match layer {
                Some(l) => index < self@.layers.len() && l@ == self@.layers[index as int],
                None => index >= self@.layers.len(),
            },
    {
        if index < self.layers.len() {
            Some(&self.layers[index])
        } else {
            None
        }
    }

    /// The number of places in the arena, vacant ones included.
    pub fn wallpaper_places(&self) -> (places: usize)
        ensures
            places == self@.wallpapers.len(),
    {
        self.wallpapers.len()
    }

    /// The wallpaper at place `id` of the arena, where one is live there.
    pub fn wallpaper(&self, id: usize) -> (wallpaper: Option<&Wallpaper>)
        ensures
            match wallpaper {
                Some(w) => id < self@.wallpapers.len() && self@.wallpapers[id as int] == Some(w@),
                None => id >= self@.wallpapers.len() || self@.wallpapers[id as int] is None,
            },
    {
        if id < self.wallpapers.len() {
            self.wallpapers[id].as_ref()
        } else {
            None
        }
    }

    /// The number of wallpapers and the bytes of their shared memory.
    pub fn memory_stats(&self) -> (stats: MemoryStats)
        ensures
            stats.pools == live_count(self@.wallpapers),
            stats.bytes == live_bytes(self@.wallpapers),
    {
        let mut pools: usize = 0;
        let mut bytes: u128 = 0;
        let mut index: usize = 0;
        proof {
            assert(self@.wallpapers.take(0) =~= Seq::empty());
        }
        while index < self.wallpapers.len()
            invariant
                index <= self.wallpapers.len(),
                pools <= index,
                bytes <= index * usize::MAX,
                pools == live_count(self@.wallpapers.take(index as int)),
                bytes == live_bytes(self@.wallpapers.take(index as int)),
            decreases self.wallpapers.len() - index,
        {
            proof {
                assert(self@.wallpapers.take(index + 1).drop_last() =~= self@.wallpapers.take(
                    index as int,
                ));
                assert(self@.wallpapers.take(index + 1).last() == self@.wallpapers[index as int]);
                assert((index + 1) * usize::MAX == index * usize::MAX + usize::MAX
                    && (index + 1) * usize::MAX <= 0xffff_ffff_ffff_ffff * 0xffff_ffff_ffff_ffff)
                    by (nonlinear_arith)
                    requires
                        0 <= index < 0xffff_ffff_ffff_ffff,
                        0 <= usize::MAX <= 0xffff_ffff_ffff_ffff,
                ;
            }
            match &self.wallpapers[index] {
                Some(w) => {
                    pools = pools + 1;
                    bytes = bytes + w.shm_size as u128;
                },
                None => {},
            }
            index += 1;
        }
        proof {
            assert(self@.wallpapers.take(index as int) =~= self@.wallpapers);
        }
        MemoryStats { pools, bytes }
    }
}

/// The name of the surface of the layer on output `output_name`.
pub fn layer_surface_name(output_name: &str) -> (name: Option<String>)
    ensures
        name matches Some(n) && n@ == surface_name(output_name@),
{
    let mut name = String::from_str("multibg-sway");
    name.append("_wallpaper_");
    name.append(output_name);
    Some(name)
}

} // verus!
