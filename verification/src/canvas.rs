//! Canvas and layer data model.
//!
//! A [`Canvas`] holds dimensions, a background color and an ordered stack of
//! [`Layer`]s. Layers are identified by unique names and stacked bottom to
//! top (index 0 is the bottom).

use crate::error::EngineError;
use crate::field::{cell_count, valid_dimensions};
use crate::unit::{clamp_unit, clamped, in_unit_interval, is_nan, ONE_BITS};
use vstd::prelude::*;

verus! {

/// Blend mode used when compositing a layer onto the canvas.
#[derive(Debug, Clone, Copy, PartialEq, Eq, Structural)]
pub enum BlendMode {
    Normal,
    Additive,
    Multiply,
    Screen,
    Overlay,
}

impl Default for BlendMode {
    fn default() -> (mode: BlendMode)
        ensures
            mode == BlendMode::Normal,
    {
        BlendMode::Normal
    }
}

/// The kind of content a layer renders.
#[derive(Debug, Clone, Copy, PartialEq, Eq, Structural)]
pub enum ContentType {
    Particles,
    Shapes,
    Field,
}

/// The mathematical model of a layer.
pub struct LayerModel {
    pub name: Seq<char>,
    pub blend_mode: BlendMode,
    pub opacity: u64,
    pub visible: bool,
    pub content_type: ContentType,
}

/// A single layer in the canvas stack. Its opacity is a sample in `[0, 1]`.
#[derive(Debug)]
pub struct Layer {
    name: String,
    blend_mode: BlendMode,
    opacity: u64,
    visible: bool,
    content_type: ContentType,
}

impl Clone for Layer {
    /// A layer of the same name and settings.
    fn clone(&self) -> (copy: Layer)
        ensures
            copy@ == self@,
    {
        Layer {
            name: self.name.clone(),
            blend_mode: self.blend_mode,
            opacity: self.opacity,
            visible: self.visible,
            content_type: self.content_type,
        }
    }
}

impl View for Layer {
    type V = LayerModel;

    closed spec fn view(&self) -> LayerModel {
        LayerModel {
            name: self.name@,
            blend_mode: self.blend_mode,
            opacity: self.opacity,
            visible: self.visible,
            content_type: self.content_type,
        }
    }
}

impl Layer {
    /// Creates a layer that blends normally, is fully opaque and visible.
    pub fn new(name: String, content_type: ContentType) -> (layer: Layer)
        ensures
            layer@ == (LayerModel {
                name: name@,
                blend_mode: BlendMode::Normal,
                opacity: ONE_BITS,
                visible: true,
                content_type,
            }),
    {
        Layer { name, blend_mode: BlendMode::Normal, opacity: ONE_BITS, visible: true, content_type }
    }

    /// Returns the layer name.
    pub fn name(&self) -> (name: &str)
        ensures
            name@ == self@.name,
    {
        self.name.as_str()
    }

    /// Returns the blend mode.
    pub fn blend_mode(&self) -> (mode: BlendMode)
        ensures
            mode == self@.blend_mode,
    {
        self.blend_mode
    }

    /// Sets the blend mode.
    pub fn set_blend_mode(&mut self, mode: BlendMode)
        ensures
            final(self)@ == (LayerModel { blend_mode: mode, ..old(self)@ }),
    {
        self.blend_mode = mode;
    }

    /// Returns the opacity.
    pub fn opacity(&self) -> (bits: u64)
        ensures
            bits == self@.opacity,
    {
        self.opacity
    }

    /// Sets the opacity, clamped to `[0, 1]`.
    pub fn set_opacity(&mut self, opacity: u64)
        ensures
            final(self)@ == (LayerModel { opacity: clamped(opacity), ..old(self)@ }),
            !is_nan(opacity) ==> in_unit_interval(final(self)@.opacity),
    {
        self.opacity = clamp_unit(opacity);
    }

    /// Returns whether the layer is visible.
    pub fn visible(&self) -> (visible: bool)
        ensures
            visible == self@.visible,
    {
        self.visible
    }

    /// Sets the visibility flag.
    pub fn set_visible(&mut self, visible: bool)
        ensures
            final(self)@ == (LayerModel { visible, ..old(self)@ }),
    {
        self.visible = visible;
    }

    /// Returns the content type.
    pub fn content_type(&self) -> (content_type: ContentType)
        ensures
            content_type == self@.content_type,
    {
        self.content_type
    }

    /// Returns the layer with the given blend mode.
    pub fn with_blend_mode(self, mode: BlendMode) -> (layer: Layer)
        ensures
            layer@ == (LayerModel { blend_mode: mode, ..self@ }),
    {
        let mut layer = self;
        layer.blend_mode = mode;
        layer
    }

    /// Returns the layer with the given opacity, clamped to `[0, 1]`.
    pub fn with_opacity(self, opacity: u64) -> (layer: Layer)
        ensures
            layer@ == (LayerModel { opacity: clamped(opacity), ..self@ }),
    {
        let mut layer = self;
        layer.opacity = clamp_unit(opacity);
        layer
    }

    /// Returns the layer with the given visibility.
    pub fn with_visible(self, visible: bool) -> (layer: Layer)
        ensures
            layer@ == (LayerModel { visible, ..self@ }),
    {
        let mut layer = self;
        layer.visible = visible;
        layer
    }
}

/// The position of the first layer called `name`, or `layers.len()` if
/// there is none.
pub open spec fn position(layers: Seq<LayerModel>, name: Seq<char>) -> int
    decreases layers.len(),
{
    if layers.len() == 0 {
        0
    } else if layers[0].name == name {
        0
    } else {
        1 + position(layers.drop_first(), name)
    }
}

/// No two layers share a name.
pub open spec fn distinct_names(layers: Seq<LayerModel>) -> bool {
    forall|i: int, j: int|
        0 <= i < j < layers.len() ==> (#[trigger] layers[i]).name != (#[trigger] layers[j]).name
}

/// What `position` finds: no layer of that name before it, and one at it
/// unless the stack ended first.
pub proof fn lemma_position(layers: Seq<LayerModel>, name: Seq<char>)
    ensures
        0 <= position(layers, name) <= layers.len(),
        forall|j: int| 0 <= j < position(layers, name) ==> (#[trigger] layers[j]).name != name,
        position(layers, name) < layers.len() ==> layers[position(layers, name)].name == name,
    decreases layers.len(),
{
    if layers.len() > 0 && layers[0].name != name {
        lemma_position(layers.drop_first(), name);
        assert forall|j: int| 0 <= j < position(layers, name) implies (#[trigger] layers[j]).name
            != name by {
            if j > 0 {
                assert(layers[j] == layers.drop_first()[j - 1]);
            }
        }
    }
}

/// `position` is the only index with that property.
pub proof fn lemma_position_is(layers: Seq<LayerModel>, name: Seq<char>, k: int)
    requires
        0 <= k <= layers.len(),
        forall|j: int| 0 <= j < k ==> (#[trigger] layers[j]).name != name,
        k < layers.len() ==> layers[k].name == name,
    ensures
        position(layers, name) == k,
{
    lemma_position(layers, name);
    let p = position(layers, name);
    if p < k {
        assert(layers[p].name != name);
    }
}

/// The models of a stack of layers, bottom to top.
pub open spec fn models(layers: Seq<Layer>) -> Seq<LayerModel> {
    layers.map_values(|l: Layer| l@)
}

/// Taking a layer out of a stack of distinct names leaves the names distinct.
pub proof fn lemma_remove_distinct(layers: Seq<LayerModel>, at: int)
    requires
        distinct_names(layers),
        0 <= at < layers.len(),
    ensures
        distinct_names(layers.remove(at)),
{
    let rest = layers.remove(at);
    assert forall|i: int, j: int| 0 <= i < j < rest.len() implies (#[trigger] rest[i]).name != (
    #[trigger] rest[j]).name by {
        let a = if i < at {
            i
        } else {
            i + 1
        };
        let b = if j < at {
            j
        } else {
            j + 1
        };
        assert(rest[i] == layers[a]);
        assert(rest[j] == layers[b]);
    }
}

/// Putting a layer into a stack of distinct names that lacks its name leaves
/// the names distinct.
pub proof fn lemma_insert_distinct(layers: Seq<LayerModel>, at: int, layer: LayerModel)
    requires
        distinct_names(layers),
        0 <= at <= layers.len(),
        forall|i: int| 0 <= i < layers.len() ==> (#[trigger] layers[i]).name != layer.name,
    ensures
        distinct_names(layers.insert(at, layer)),
{
    let more = layers.insert(at, layer);
    assert forall|i: int, j: int| 0 <= i < j < more.len() implies (#[trigger] more[i]).name != (
    #[trigger] more[j]).name by {
        if i != at {
            let a = if i < at {
                i
            } else {
                i - 1
            };
            assert(more[i] == layers[a]);
        }
        if j != at {
            let b = if j < at {
                j
            } else {
                j - 1
            };
            assert(more[j] == layers[b]);
        }
    }
}

/// Moving a layer within a stack of distinct names leaves the names
/// distinct.
pub proof fn lemma_moved_distinct(layers: Seq<LayerModel>, from: int, to: int)
    requires
        distinct_names(layers),
        0 <= from < layers.len(),
        0 <= to,
    ensures
        distinct_names(moved(layers, from, to)),
{
    let rest = layers.remove(from);
    lemma_remove_distinct(layers, from);
    assert forall|i: int| 0 <= i < rest.len() implies (#[trigger] rest[i]).name
        != layers[from].name by {
        let a = if i < from {
            i
        } else {
            i + 1
        };
        assert(rest[i] == layers[a]);
    }
    let target = if to < rest.len() {
        to
    } else {
        rest.len() as int
    };
    lemma_insert_distinct(rest, target, layers[from]);
}

/// Exchanging two neighbors in a stack of distinct names leaves the names
/// distinct.
pub proof fn lemma_swapped_distinct(layers: Seq<LayerModel>, at: int)
    requires
        distinct_names(layers),
    ensures
        distinct_names(swapped(layers, at)),
{
    let after = swapped(layers, at);
    if 0 <= at && at + 1 < layers.len() {
        assert forall|i: int, j: int| 0 <= i < j < after.len() implies (#[trigger] after[i]).name
            != (#[trigger] after[j]).name by {
            let a = if i == at {
                at + 1
            } else if i == at + 1 {
                at
            } else {
                i
            };
            let b = if j == at {
                at + 1
            } else if j == at + 1 {
                at
            } else {
                j
            };
            assert(after[i] == layers[a]);
            assert(after[j] == layers[b]);
            if a < b {
                assert(layers[a].name != layers[b].name);
            } else {
                assert(layers[b].name != layers[a].name);
            }
        }
    }
}

/// Changing a layer of a stack of distinct names without changing its name
/// leaves the names distinct.
pub proof fn lemma_renamed_distinct(layers: Seq<LayerModel>, at: int)
    requires
        distinct_names(layers),
        0 <= at < layers.len(),
    ensures
        forall|layer: LayerModel|
            layer.name == layers[at].name ==> distinct_names(#[trigger] layers.update(at, layer)),
{
    assert forall|layer: LayerModel| layer.name == layers[at].name implies distinct_names(
        #[trigger] layers.update(at, layer),
    ) by {
        let after = layers.update(at, layer);
        assert forall|i: int, j: int| 0 <= i < j < after.len() implies (#[trigger] after[i]).name
            != (#[trigger] after[j]).name by {
            assert(after[i].name == layers[i].name);
            assert(after[j].name == layers[j].name);
        }
    }
}

/// A layer put on top of a stack that lacks its name is found on top, and
/// taking it off again leaves the stack as it was.
pub proof fn lemma_push_then_remove(layers: Seq<LayerModel>, layer: LayerModel)
    requires
        position(layers, layer.name) >= layers.len(),
    ensures
        position(layers.push(layer), layer.name) == layers.len(),
        layers.push(layer).remove(layers.len() as int) == layers,
{
    lemma_position(layers, layer.name);
    let more = layers.push(layer);
    assert forall|j: int| 0 <= j < layers.len() implies (#[trigger] more[j]).name
        != layer.name by {
        assert(more[j] == layers[j]);
    }
    lemma_position_is(more, layer.name, layers.len() as int);
    assert(more.remove(layers.len() as int) =~= layers);
}

/// The mathematical model of a canvas.
pub struct CanvasModel<B> {
    pub width: nat,
    pub height: nat,
    pub background: B,
    pub layers: Seq<LayerModel>,
}

impl<B> CanvasModel<B> {
    /// The stack holds a layer called `name`.
    pub open spec fn has(self, name: Seq<char>) -> bool {
        position(self.layers, name) < self.layers.len()
    }

    /// The position of the layer called `name`.
    pub open spec fn find(self, name: Seq<char>) -> int {
        position(self.layers, name)
    }

    /// The canvas with another stack of layers.
    pub open spec fn with_layers(self, layers: Seq<LayerModel>) -> CanvasModel<B> {
        CanvasModel { layers, ..self }
    }
}

/// The result reports that no layer is called `name`.
pub open spec fn not_found<T>(r: Result<T, EngineError>, name: Seq<char>) -> bool {
    r is Err && r->Err_0 is LayerNotFound && r->Err_0->LayerNotFound_0@ == name
}

/// A canvas with dimensions, background color and an ordered layer stack.
/// The canvas does not look into its background, so it can be of any color
/// space.
#[derive(Debug, Clone)]
pub struct Canvas<B> {
    width: usize,
    height: usize,
    background: B,
    layers: Vec<Layer>,
}

impl<B> View for Canvas<B> {
    type V = CanvasModel<B>;

    closed spec fn view(&self) -> CanvasModel<B> {
        CanvasModel {
            width: self.width as nat,
            height: self.height as nat,
            background: self.background,
            layers: models(self.layers@),
        }
    }
}

impl<B> Canvas<B> {
    /// The sides are positive and no two layers share a name.
    pub open spec fn wf(&self) -> bool {
        &&& self@.width > 0
        &&& self@.height > 0
        &&& distinct_names(self@.layers)
    }

    /// Creates an empty canvas.
    pub fn new(width: usize, height: usize, background: B) -> (r: Result<Canvas<B>, EngineError>)
        ensures
            valid_dimensions(width, height) ==> r is Ok && r->Ok_0.wf() && r->Ok_0@ == (
            CanvasModel {
                width: width as nat,
                height: height as nat,
                background,
                layers: Seq::<LayerModel>::empty(),
            }),
            !valid_dimensions(width, height) ==> r is Err && r->Err_0 is InvalidDimensions,
    {
        match cell_count(width, height) {
            None => Err(EngineError::InvalidDimensions),
            Some(_) => {
                let canvas = Canvas { width, height, background, layers: Vec::new() };
                assert(canvas@.layers =~= Seq::<LayerModel>::empty());
                Ok(canvas)
            },
        }
    }

    /// Returns the canvas width.
    pub fn width(&self) -> (w: usize)
        ensures
            w == self@.width,
    {
        self.width
    }

    /// Returns the canvas height.
    pub fn height(&self) -> (h: usize)
        ensures
            h == self@.height,
    {
        self.height
    }

    /// Returns the background color.
    pub fn background(&self) -> (background: &B)
        ensures
            *background == self@.background,
    {
        &self.background
    }

    /// Sets the background color.
    pub fn set_background(&mut self, background: B)
        ensures
            final(self)@ == (CanvasModel { background, ..old(self)@ }),
    {
        self.background = background;
    }

    /// Returns the number of layers.
    pub fn layer_count(&self) -> (n: usize)
        ensures
            n == self@.layers.len(),
    {
        self.layers.len()
    }

    /// Returns all layers, bottom to top.
    pub fn layers(&self) -> (layers: &Vec<Layer>)
        ensures
            models(layers@) == self@.layers,
    {
        &self.layers
    }

    /// Finds the position of the layer called `name`.
    pub fn index_of(&self, name: &str) -> (r: Result<usize, EngineError>)
        ensures
            self@.has(name@) ==> r is Ok && r->Ok_0 == self@.find(name@),
            !self@.has(name@) ==> not_found(r, name@),
            0 <= self@.find(name@) <= self@.layers.len(),
    {
        proof {
            lemma_position(self@.layers, name@);
        }
        let wanted: String = name.to_owned();
        let mut i: usize = 0;
        while i < self.layers.len()
            invariant
                i <= self.layers.len(),
                wanted@ == name@,
                forall|j: int| 0 <= j < i ==> (#[trigger] self@.layers[j]).name != name@,
            decreases self.layers.len() - i,
        {
            if self.layers[i].name == wanted {
                proof {
                    lemma_position_is(self@.layers, name@, i as int);
                }
                return Ok(i);
            }
            i += 1;
        }
        proof {
            lemma_position_is(self@.layers, name@, i as int);
        }
        Err(EngineError::LayerNotFound(wanted))
    }

    /// Adds a layer to the top of the stack, unless a layer of that name is
    /// on it already.
    pub fn add_layer(&mut self, layer: Layer) -> (r: Result<(), EngineError>)
        requires
            old(self).wf(),
        ensures
            final(self).wf(),
            !old(self)@.has(layer@.name) ==> r is Ok && final(self)@ == old(self)@.with_layers(
                old(self)@.layers.push(layer@),
            ),
            old(self)@.has(layer@.name) ==> r is Err && r->Err_0 is DuplicateLayerName
                && r->Err_0->DuplicateLayerName_0@ == layer@.name && final(self)@ == old(self)@,
    {
        proof {
            lemma_position(self@.layers, layer@.name);
        }
        match self.index_of(layer.name.as_str()) {
            Ok(_) => Err(EngineError::DuplicateLayerName(layer.name)),
            Err(_) => {
                self.layers.push(layer);
                proof {
                    let before = old(self)@.layers;
                    assert(self@.layers =~= before.push(layer@));
                    assert(before.push(layer@) =~= before.insert(before.len() as int, layer@));
                    lemma_insert_distinct(before, before.len() as int, layer@);
                }
                Ok(())
            },
        }
    }

    /// Removes the layer called `name` and returns it.
    pub fn remove_layer(&mut self, name: &str) -> (r: Result<Layer, EngineError>)
        requires
            old(self).wf(),
        ensures
            final(self).wf(),
            old(self)@.has(name@) ==> r is Ok && r->Ok_0@ == old(self)@.layers[old(self)@.find(
                name@,
            )] && final(self)@ == old(self)@.with_layers(
                old(self)@.layers.remove(old(self)@.find(name@)),
            ),
            !old(self)@.has(name@) ==> not_found(r, name@) && final(self)@ == old(self)@,
    {
        match self.index_of(name) {
            Err(e) => Err(e),
            Ok(idx) => {
                let layer = self.layers.remove(idx);
                proof {
                    assert(layer@ == old(self)@.layers[idx as int]);
                    assert(self@.layers =~= old(self)@.layers.remove(idx as int));
                    lemma_remove_distinct(old(self)@.layers, idx as int);
                }
                Ok(layer)
            },
        }
    }

    /// Returns the layer called `name`.
    pub fn layer(&self, name: &str) -> (r: Result<&Layer, EngineError>)
        ensures
            self@.has(name@) ==> r is Ok && r->Ok_0@ == self@.layers[self@.find(name@)],
            !self@.has(name@) ==> not_found(r, name@),
    {
        match self.index_of(name) {
            Err(e) => Err(e),
            Ok(idx) => {
                assert(self.layers@[idx as int]@ == self@.layers[idx as int]);
                Ok(&self.layers[idx])
            },
        }
    }

    /// Returns the layer called `name` for changing. The stack is what it
    /// was but for that layer, which is what the caller leaves behind. The
    /// names stay distinct as long as the layer keeps its name.
    pub fn layer_mut(&mut self, name: &str) -> (r: Result<&mut Layer, EngineError>)
        ensures
            old(self)@.has(name@) ==> r is Ok && r->Ok_0@ == old(self)@.layers[old(self)@.find(
                name@,
            )] && final(self)@ == old(self)@.with_layers(
                old(self)@.layers.update(old(self)@.find(name@), final(r->Ok_0)@),
            ),
            !old(self)@.has(name@) ==> not_found(r, name@) && final(self)@ == old(self)@,
            old(self).wf() && (r is Ok ==> final(r->Ok_0)@.name == name@) ==> final(self).wf(),
    {
        match self.index_of(name) {
            Err(e) => Err(e),
            Ok(idx) => {
                assert(self.layers@[idx as int]@ == self@.layers[idx as int]);
                proof {
                    lemma_position(old(self)@.layers, name@);
                    if old(self).wf() {
                        lemma_renamed_distinct(old(self)@.layers, idx as int);
                    }
                }
                let layer = &mut self.layers[idx];
                proof {
                    assert(models(old(self).layers@.update(idx as int, *final(layer)))
                        =~= old(self)@.layers.update(idx as int, final(layer)@));
                }
                Ok(layer)
            },
        }
    }

    /// Moves the layer called `name` to position `index` of the stack, or to
    /// the top if `index` lies beyond it.
    pub fn move_layer_to(&mut self, name: &str, index: usize) -> (r: Result<(), EngineError>)
        requires
            old(self).wf(),
        ensures
            final(self).wf(),
            old(self)@.has(name@) ==> r is Ok && final(self)@ == old(self)@.with_layers(
                moved(old(self)@.layers, old(self)@.find(name@), index as int),
            ),
            !old(self)@.has(name@) ==> not_found(r, name@) && final(self)@ == old(self)@,
    {
        match self.index_of(name) {
            Err(e) => Err(e),
            Ok(idx) => {
                let layer = self.layers.remove(idx);
                let target: usize = if index < self.layers.len() {
                    index
                } else {
                    self.layers.len()
                };
                self.layers.insert(target, layer);
                proof {
                    let before = old(self)@.layers;
                    assert(models(old(self).layers@.remove(idx as int)) =~= before.remove(
                        idx as int,
                    ));
                    assert(self@.layers =~= moved(before, idx as int, index as int));
                    lemma_moved_distinct(before, idx as int, index as int);
                }
                Ok(())
            },
        }
    }

    /// Moves the layer called `name` one position up, unless it is the top.
    pub fn move_layer_up(&mut self, name: &str) -> (r: Result<(), EngineError>)
        requires
            old(self).wf(),
        ensures
            final(self).wf(),
            old(self)@.has(name@) ==> r is Ok && final(self)@ == old(self)@.with_layers(
                swapped(old(self)@.layers, old(self)@.find(name@)),
            ),
            !old(self)@.has(name@) ==> not_found(r, name@) && final(self)@ == old(self)@,
    {
        match self.index_of(name) {
            Err(e) => Err(e),
            Ok(idx) => {
                let n: usize = self.layers.len();
                if idx + 1 < n {
                    let layer = self.layers.remove(idx);
                    self.layers.insert(idx + 1, layer);
                }
                proof {
                    assert(self@.layers =~= swapped(old(self)@.layers, idx as int));
                    lemma_swapped_distinct(old(self)@.layers, idx as int);
                }
                Ok(())
            },
        }
    }

    /// Moves the layer called `name` one position down, unless it is the
    /// bottom.
    pub fn move_layer_down(&mut self, name: &str) -> (r: Result<(), EngineError>)
        requires
            old(self).wf(),
        ensures
            final(self).wf(),
            old(self)@.has(name@) ==> r is Ok && final(self)@ == old(self)@.with_layers(
                swapped(old(self)@.layers, old(self)@.find(name@) - 1),
            ),
            !old(self)@.has(name@) ==> not_found(r, name@) && final(self)@ == old(self)@,
    {
        match self.index_of(name) {
            Err(e) => Err(e),
            Ok(idx) => {
                if idx > 0 {
                    let layer = self.layers.remove(idx);
                    self.layers.insert(idx - 1, layer);
                }
                proof {
                    assert(self.layers@.len() == old(self).layers@.len());
                    assert(self@.layers =~= swapped(old(self)@.layers, idx as int - 1));
                    lemma_swapped_distinct(old(self)@.layers, idx as int - 1);
                }
                Ok(())
            },
        }
    }
}

/// The stack with the layer at `from` taken out and put back at `to`, or on
/// top if `to` lies beyond the stack.
pub open spec fn moved(layers: Seq<LayerModel>, from: int, to: int) -> Seq<LayerModel> {
    let rest = layers.remove(from);
    rest.insert(
        if to < rest.len() {
            to
        } else {
            rest.len() as int
        },
        layers[from],
    )
}

/// The stack with the layers at `at` and `at + 1` exchanged; the stack as
/// it is if one of the two positions lies outside it.
pub open spec fn swapped(layers: Seq<LayerModel>, at: int) -> Seq<LayerModel> {
    if 0 <= at && at + 1 < layers.len() {
        layers.update(at, layers[at + 1]).update(at + 1, layers[at])
    } else {
        layers
    }
}

} // verus!
