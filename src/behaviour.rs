//! The behaviour actor: canvas state, the brush-stroke lifecycle and the
//! presentation actions that follow from dirty flags.
//!
//! The actor owns all canvas state. Each event updates that state and names
//! the one piece of stroke work (`StrokeEffect`) that the brush engine and the
//! compositor must do for it. After a batch of commands the actor hands out at
//! most one action of each kind, built from the settled state.
//!
//! The viewport transform (`X`) and the brush samples (`S`) are carried
//! through untouched; the actor never looks inside them.
use vstd::prelude::*;

use crate::presentation::{Canvas, ColorPicker, Layer, Resolution, Viewport};

verus! {

/// Canvas width before any resolution event.
pub const DEFAULT_CANVAS_WIDTH: u32 = 2304;

/// Canvas height before any resolution event.
pub const DEFAULT_CANVAS_HEIGHT: u32 = 1440;

/// An input event.
#[derive(Clone, Copy, Debug)]
pub enum Event<X, S> {
    SetCanvasResolution(Resolution),
    SetViewportTransform(X),
    BeginBrushStroke,
    UpdateBrushStroke(S),
    EndBrushStroke,
    InvalidateViewport,
    InvalidateColorPicker,
}

/// What a stroke is built with; fixed when the stroke begins.
#[derive(Clone, Copy, Debug, PartialEq, Eq, Structural)]
pub struct StrokeSettings {
    pub canvas_resolution: Resolution,
}

/// Where the texture of a viewport layer comes from.
#[derive(Clone, Copy, Debug, PartialEq, Eq, Structural)]
pub enum LayerSource {
    /// The compositor's canvas, holding every finished stroke.
    Composite,
    /// The preview of the stroke in progress.
    ActiveStroke,
}

/// The stroke work that one event asks of the brush engine and the compositor.
#[derive(Clone, Copy, Debug)]
pub enum StrokeEffect<S> {
    /// Nothing to do.
    Nothing,
    /// Start a new stroke with these settings, dropping any stroke in progress.
    Begin(StrokeSettings),
    /// Hand this sample to the stroke in progress.
    Update(S),
    /// Render the stroke in progress, composite it into the canvas and drop it.
    Commit,
}

/// A presentation action.
#[derive(Clone, Debug)]
pub enum Action<X> {
    PresentViewport(Viewport<X, LayerSource>),
    PresentColorPicker(ColorPicker),
}

/// An entry of the actor's mailbox.
#[derive(Clone, Copy, Debug)]
pub enum Command<X, S> {
    Stop,
    AttachViewport,
    AttachColorPicker,
    HandleEvent(Event<X, S>),
}

/// The stroke in progress: its settings and the samples it has been given.
pub struct StrokeModel<S> {
    pub settings: StrokeSettings,
    pub samples: Seq<S>,
}

/// The actor's state as a mathematical value.
///
/// `composited` lists the samples of every stroke that was committed to the
/// canvas, oldest first.
pub struct CanvasModel<X, S> {
    pub canvas_resolution: Resolution,
    pub viewport_transform: X,
    pub active_stroke: Option<StrokeModel<S>>,
    pub viewport_dirty: bool,
    pub color_picker_dirty: bool,
    pub composited: Seq<Seq<S>>,
}

/// An action as a mathematical value.
pub enum ActionModel<X> {
    Viewport { transform: X, resolution: Resolution, layers: Seq<Layer<LayerSource>> },
    ColorPicker,
}

impl<X> View for Action<X> {
    type V = ActionModel<X>;

    open spec fn view(&self) -> ActionModel<X> {
        match self {
            Action::PresentViewport(v) => ActionModel::Viewport {
                transform: v.transform,
                resolution: v.canvas.resolution,
                layers: v.canvas.layers@,
            },
            Action::PresentColorPicker(_) => ActionModel::ColorPicker,
        }
    }
}

/// The views of a list of actions.
pub open spec fn action_views<X>(actions: Seq<Action<X>>) -> Seq<ActionModel<X>> {
    actions.map_values(|a: Action<X>| a@)
}

/// The state of a fresh actor whose viewport starts at `transform`.
pub open spec fn initial_model<X, S>(transform: X) -> CanvasModel<X, S> {
    CanvasModel {
        canvas_resolution: Resolution { x: DEFAULT_CANVAS_WIDTH, y: DEFAULT_CANVAS_HEIGHT },
        viewport_transform: transform,
        active_stroke: None,
        viewport_dirty: false,
        color_picker_dirty: false,
        composited: Seq::empty(),
    }
}

/// The state after one event.
pub open spec fn apply_event<X, S>(m: CanvasModel<X, S>, e: Event<X, S>) -> CanvasModel<X, S> {
    match e {
        Event::SetCanvasResolution(r) => CanvasModel { canvas_resolution: r, viewport_dirty: true, ..m },
        Event::SetViewportTransform(t) => CanvasModel { viewport_transform: t, viewport_dirty: true, ..m },
        Event::BeginBrushStroke => CanvasModel {
            active_stroke: Some(
                StrokeModel {
                    settings: StrokeSettings { canvas_resolution: m.canvas_resolution },
                    samples: Seq::empty(),
                },
            ),
            ..m
        },
        Event::UpdateBrushStroke(s) => match m.active_stroke {
            Some(st) => CanvasModel {
                active_stroke: Some(StrokeModel { settings: st.settings, samples: st.samples.push(s) }),
                viewport_dirty: true,
                ..m
            },
            None => m,
        },
        Event::EndBrushStroke => match m.active_stroke {
            Some(st) => CanvasModel {
                active_stroke: None,
                composited: m.composited.push(st.samples),
                viewport_dirty: true,
                ..m
            },
            None => m,
        },
        Event::InvalidateViewport => CanvasModel { viewport_dirty: true, ..m },
        Event::InvalidateColorPicker => CanvasModel { color_picker_dirty: true, ..m },
    }
}

/// The stroke work that an event asks for in state `m`.
pub open spec fn effect_of<X, S>(m: CanvasModel<X, S>, e: Event<X, S>) -> StrokeEffect<S> {
    match e {
        Event::BeginBrushStroke => StrokeEffect::Begin(
            StrokeSettings { canvas_resolution: m.canvas_resolution },
        ),
        Event::UpdateBrushStroke(s) => if m.active_stroke is Some {
            StrokeEffect::Update(s)
        } else {
            StrokeEffect::Nothing
        },
        Event::EndBrushStroke => if m.active_stroke is Some {
            StrokeEffect::Commit
        } else {
            StrokeEffect::Nothing
        },
        _ => StrokeEffect::Nothing,
    }
}

/// The state after one command.
pub open spec fn apply_command<X, S>(m: CanvasModel<X, S>, c: Command<X, S>) -> CanvasModel<X, S> {
    match c {
        Command::Stop => m,
        Command::AttachViewport => CanvasModel { viewport_dirty: true, ..m },
        Command::AttachColorPicker => CanvasModel { color_picker_dirty: true, ..m },
        Command::HandleEvent(e) => apply_event(m, e),
    }
}

/// The stroke work that a command asks for in state `m`.
pub open spec fn command_effect<X, S>(m: CanvasModel<X, S>, c: Command<X, S>) -> StrokeEffect<S> {
    match c {
        Command::HandleEvent(e) => effect_of(m, e),
        _ => StrokeEffect::Nothing,
    }
}

/// The state after a list of commands, applied in order.
pub open spec fn apply_commands<X, S>(m: CanvasModel<X, S>, cs: Seq<Command<X, S>>) -> CanvasModel<
    X,
    S,
>
    decreases cs.len(),
{
    if cs.len() == 0 {
        m
    } else {
        apply_command(apply_commands(m, cs.drop_last()), cs.last())
    }
}

/// The layers of a viewport presentation: the composite first, then the
/// stroke in progress, if any, on top.
pub open spec fn viewport_layers<X, S>(m: CanvasModel<X, S>) -> Seq<Layer<LayerSource>> {
    if m.active_stroke is Some {
        seq![Layer::Texture(LayerSource::Composite), Layer::Texture(LayerSource::ActiveStroke)]
    } else {
        seq![Layer::Texture(LayerSource::Composite)]
    }
}

/// The viewport presentation of state `m`.
pub open spec fn viewport_action<X, S>(m: CanvasModel<X, S>) -> ActionModel<X> {
    ActionModel::Viewport {
        transform: m.viewport_transform,
        resolution: m.canvas_resolution,
        layers: viewport_layers(m),
    }
}

/// The actions that state `m` has pending: the viewport first, then the
/// color picker, each at most once.
pub open spec fn pending_actions<X, S>(m: CanvasModel<X, S>) -> Seq<ActionModel<X>> {
    let v: Seq<ActionModel<X>> = if m.viewport_dirty {
        seq![viewport_action(m)]
    } else {
        Seq::empty()
    };
    if m.color_picker_dirty {
        v.push(ActionModel::ColorPicker)
    } else {
        v
    }
}

/// State `m` with every pending action handed out.
pub open spec fn settled<X, S>(m: CanvasModel<X, S>) -> CanvasModel<X, S> {
    CanvasModel { viewport_dirty: false, color_picker_dirty: false, ..m }
}

/// How many viewport presentations a list of actions holds.
pub open spec fn viewport_count<X>(actions: Seq<ActionModel<X>>) -> nat
    decreases actions.len(),
{
    if actions.len() == 0 {
        0
    } else {
        viewport_count(actions.drop_last()) + if actions.last() is Viewport {
            1nat
        } else {
            0nat
        }
    }
}

/// One update command per sample, in sample order.
pub open spec fn update_commands<X, S>(samples: Seq<S>) -> Seq<Command<X, S>> {
    samples.map_values(|s: S| Command::HandleEvent(Event::UpdateBrushStroke(s)))
}

proof fn lemma_updates_keep_stroke<X, S>(m: CanvasModel<X, S>, samples: Seq<S>)
    requires
        m.active_stroke is Some,
    ensures
        apply_commands(m, update_commands::<X, S>(samples)).active_stroke is Some,
        samples.len() > 0 ==> apply_commands(m, update_commands::<X, S>(samples)).viewport_dirty,
    decreases samples.len(),
{
    if samples.len() > 0 {
        assert(update_commands::<X, S>(samples).drop_last() =~= update_commands::<X, S>(
            samples.drop_last(),
        ));
        lemma_updates_keep_stroke(m, samples.drop_last());
    }
}

/// Coalescing: any non-empty burst of stroke samples, drained in one cycle
/// while a stroke is in progress, yields exactly one viewport presentation.
pub proof fn lemma_updates_coalesce<X, S>(m: CanvasModel<X, S>, samples: Seq<S>)
    requires
        m.active_stroke is Some,
        samples.len() > 0,
    ensures
        viewport_count(pending_actions(apply_commands(m, update_commands::<X, S>(samples)))) == 1,
{
    lemma_updates_keep_stroke(m, samples);
    let after = apply_commands(m, update_commands::<X, S>(samples));
    reveal_with_fuel(viewport_count, 3);
    if after.color_picker_dirty {
        assert(pending_actions(after).drop_last() =~= seq![viewport_action(after)]);
        assert(seq![viewport_action(after)].drop_last() =~= Seq::<ActionModel<X>>::empty());
    } else {
        assert(pending_actions(after).drop_last() =~= Seq::<ActionModel<X>>::empty());
    }
}

/// Stroke ordering: beginning a stroke, feeding it two samples and ending it
/// adds exactly that stroke to the composite, and the next viewport
/// presentation shows the composite alone.
pub proof fn lemma_stroke_committed<X, S>(m: CanvasModel<X, S>, p1: S, p2: S)
    ensures
        ({
            let after = apply_commands(
                m,
                seq![
                    Command::HandleEvent(Event::BeginBrushStroke),
                    Command::HandleEvent(Event::UpdateBrushStroke(p1)),
                    Command::HandleEvent(Event::UpdateBrushStroke(p2)),
                    Command::HandleEvent(Event::EndBrushStroke),
                ],
            );
            &&& after.composited == m.composited.push(seq![p1, p2])
            &&& after.active_stroke is None
            &&& after.viewport_dirty
            &&& viewport_layers(after) == seq![Layer::Texture(LayerSource::Composite)]
        }),
{
    let c0 = Command::<X, S>::HandleEvent(Event::BeginBrushStroke);
    let c1 = Command::<X, S>::HandleEvent(Event::UpdateBrushStroke(p1));
    let c2 = Command::<X, S>::HandleEvent(Event::UpdateBrushStroke(p2));
    let c3 = Command::<X, S>::HandleEvent(Event::EndBrushStroke);
    let cs = seq![c0, c1, c2, c3];
    assert(cs.drop_last() =~= seq![c0, c1, c2]);
    assert(seq![c0, c1, c2].drop_last() =~= seq![c0, c1]);
    assert(seq![c0, c1].drop_last() =~= seq![c0]);
    assert(seq![c0].drop_last() =~= Seq::<Command<X, S>>::empty());
    reveal_with_fuel(apply_commands, 5);
    let m4 = apply_commands(m, cs);
    assert(Seq::<S>::empty().push(p1).push(p2) =~= seq![p1, p2]);
    assert(m4.composited == m.composited.push(seq![p1, p2]));
}

/// Idle cycles: once a cycle has handed out its actions, a cycle that receives
/// no commands hands out none and changes nothing.
pub proof fn lemma_idle_cycle_is_silent<X, S>(m: CanvasModel<X, S>, cs: Seq<Command<X, S>>)
    ensures
        ({
            let first = settled(apply_commands(m, cs));
            &&& pending_actions(apply_commands(first, Seq::empty())) == Seq::<ActionModel<X>>::empty()
            &&& settled(apply_commands(first, Seq::empty())) == first
        }),
{
    let first = settled(apply_commands(m, cs));
    assert(apply_commands(first, Seq::empty()) == first);
    assert(pending_actions(first) =~= Seq::<ActionModel<X>>::empty());
}

/// Malformed input: ending a stroke when none is in progress changes nothing,
/// asks for no stroke work and, after a settled cycle, yields no action.
pub proof fn lemma_end_without_stroke<X, S>(m: CanvasModel<X, S>)
    requires
        m.active_stroke is None,
    ensures
        apply_event(m, Event::EndBrushStroke) == m,
        effect_of(m, Event::EndBrushStroke) == StrokeEffect::<S>::Nothing,
        pending_actions(
            apply_commands(settled(m), seq![Command::HandleEvent(Event::EndBrushStroke)]),
        ) == Seq::<ActionModel<X>>::empty(),
{
    let cs = seq![Command::<X, S>::HandleEvent(Event::EndBrushStroke)];
    assert(cs.drop_last() =~= Seq::<Command<X, S>>::empty());
    assert(apply_commands(settled(m), cs.drop_last()) == settled(m));
    let after = apply_commands(settled(m), cs);
    assert(after == apply_event(settled(m), Event::EndBrushStroke));
    assert(pending_actions(after) =~= Seq::<ActionModel<X>>::empty());
}

/// The actor.
pub struct Behaviour<X, S> {
    canvas_resolution: Resolution,
    viewport_transform: X,
    active_stroke: Option<StrokeSettings>,
    viewport_dirty: bool,
    color_picker_dirty: bool,
    stroke_samples: Ghost<Seq<S>>,
    composited: Ghost<Seq<Seq<S>>>,
}

impl<X, S> View for Behaviour<X, S> {
    type V = CanvasModel<X, S>;

    closed spec fn view(&self) -> CanvasModel<X, S> {
        CanvasModel {
            canvas_resolution: self.canvas_resolution,
            viewport_transform: self.viewport_transform,
            active_stroke: match self.active_stroke {
                Some(settings) => Some(StrokeModel { settings, samples: self.stroke_samples@ }),
                None => None,
            },
            viewport_dirty: self.viewport_dirty,
            color_picker_dirty: self.color_picker_dirty,
            composited: self.composited@,
        }
    }
}

/// The work of one drain cycle: the stroke work of each command, in command
/// order, then the actions to present, and whether a stop was received.
pub struct Cycle<X, S> {
    pub effects: Vec<StrokeEffect<S>>,
    pub actions: Vec<Action<X>>,
    pub stop: bool,
}

impl<X: Copy, S: Copy> Behaviour<X, S> {
    /// A fresh actor: the default canvas resolution, the viewport at
    /// `transform`, no stroke and nothing to present.
    pub fn new(transform: X) -> (r: Behaviour<X, S>)
        ensures
            r@ == initial_model::<X, S>(transform),
    {
        Behaviour {
            canvas_resolution: Resolution::new(DEFAULT_CANVAS_WIDTH, DEFAULT_CANVAS_HEIGHT),
            viewport_transform: transform,
            active_stroke: None,
            viewport_dirty: false,
            color_picker_dirty: false,
            stroke_samples: Ghost(Seq::empty()),
            composited: Ghost(Seq::empty()),
        }
    }

    /// Applies one event and returns the stroke work it asks for.
    ///
    /// Updating or ending a stroke when none is in progress changes nothing.
    pub fn handle_event(&mut self, event: Event<X, S>) -> (r: StrokeEffect<S>)
        ensures
            final(self)@ == apply_event(old(self)@, event),
            r == effect_of(old(self)@, event),
    {
        match event {
            Event::SetCanvasResolution(resolution) => {
                self.canvas_resolution = resolution;
                self.viewport_dirty = true;
                StrokeEffect::Nothing
            },
            Event::SetViewportTransform(transform) => {
                self.viewport_transform = transform;
                self.viewport_dirty = true;
                StrokeEffect::Nothing
            },
            Event::BeginBrushStroke => {
                let settings = StrokeSettings { canvas_resolution: self.canvas_resolution };
                self.active_stroke = Some(settings);
                self.stroke_samples = Ghost(Seq::empty());
                StrokeEffect::Begin(settings)
            },
            Event::UpdateBrushStroke(sample) => {
                if self.active_stroke.is_some() {
                    self.stroke_samples = Ghost(self.stroke_samples@.push(sample));
                    self.viewport_dirty = true;
                    StrokeEffect::Update(sample)
                } else {
                    StrokeEffect::Nothing
                }
            },
            Event::EndBrushStroke => {
                if self.active_stroke.is_some() {
                    self.composited = Ghost(self.composited@.push(self.stroke_samples@));
                    self.active_stroke = None;
                    self.viewport_dirty = true;
                    StrokeEffect::Commit
                } else {
                    StrokeEffect::Nothing
                }
            },
            Event::InvalidateViewport => {
                self.viewport_dirty = true;
                StrokeEffect::Nothing
            },
            Event::InvalidateColorPicker => {
                self.color_picker_dirty = true;
                StrokeEffect::Nothing
            },
        }
    }

    /// Applies one mailbox command and returns the stroke work it asks for.
    ///
    /// Attaching a consumer marks its presentation dirty, so that it gets a
    /// first frame.
    pub fn handle_command(&mut self, command: Command<X, S>) -> (r: StrokeEffect<S>)
        ensures
            final(self)@ == apply_command(old(self)@, command),
            r == command_effect(old(self)@, command),
    {
        match command {
            Command::Stop => StrokeEffect::Nothing,
            Command::AttachViewport => {
                self.viewport_dirty = true;
                StrokeEffect::Nothing
            },
            Command::AttachColorPicker => {
                self.color_picker_dirty = true;
                StrokeEffect::Nothing
            },
            Command::HandleEvent(event) => self.handle_event(event),
        }
    }

    /// The viewport presentation of the current state.
    pub fn present(&self) -> (r: Viewport<X, LayerSource>)
        ensures
            Action::PresentViewport(r)@ == viewport_action(self@),
    {
        let mut layers: Vec<Layer<LayerSource>> = Vec::new();
        layers.push(Layer::Texture(LayerSource::Composite));
        if self.active_stroke.is_some() {
            layers.push(Layer::Texture(LayerSource::ActiveStroke));
        }
        proof {
            assert(layers@ =~= viewport_layers(self@));
        }
        Viewport {
            transform: self.viewport_transform,
            canvas: Canvas { resolution: self.canvas_resolution, layers },
        }
    }

    /// Hands out the next pending action, clearing its dirty flag: the
    /// viewport first, then the color picker; `None` once both are clean.
    pub fn perform_action(&mut self) -> (r: Option<Action<X>>)
        ensures
            old(self)@.viewport_dirty ==> {
                &&& r matches Some(a)
                &&& a@ == viewport_action(old(self)@)
                &&& final(self)@ == CanvasModel { viewport_dirty: false, ..old(self)@ }
            },
            !old(self)@.viewport_dirty && old(self)@.color_picker_dirty ==> {
                &&& r matches Some(a)
                &&& a@ == ActionModel::<X>::ColorPicker
                &&& final(self)@ == CanvasModel { color_picker_dirty: false, ..old(self)@ }
            },
            !old(self)@.viewport_dirty && !old(self)@.color_picker_dirty ==> {
                &&& r is None
                &&& final(self)@ == old(self)@
            },
    {
        if self.viewport_dirty {
            self.viewport_dirty = false;
            Some(Action::PresentViewport(self.present()))
        } else if self.color_picker_dirty {
            self.color_picker_dirty = false;
            Some(Action::PresentColorPicker(ColorPicker {}))
        } else {
            None
        }
    }

    /// One drain cycle: applies every command of the batch in arrival order,
    /// then hands out every pending action.
    pub fn drain_and_step(&mut self, commands: Vec<Command<X, S>>) -> (r: Cycle<X, S>)
        ensures
            r.effects@.len() == commands@.len(),
            forall|i: int|
                0 <= i < commands@.len() ==> #[trigger] r.effects@[i] == command_effect(
                    apply_commands(old(self)@, commands@.take(i)),
                    commands@[i],
                ),
            action_views(r.actions@) == pending_actions(apply_commands(old(self)@, commands@)),
            final(self)@ == settled(apply_commands(old(self)@, commands@)),
            r.stop == commands@.contains(Command::Stop),
    {
        let ghost m0 = self@;
        let mut effects: Vec<StrokeEffect<S>> = Vec::new();
        let mut stop = false;
        let mut i: usize = 0;
        while i < commands.len()
            invariant
                i <= commands@.len(),
                self@ == apply_commands(m0, commands@.take(i as int)),
                effects@.len() == i,
                forall|j: int|
                    0 <= j < i ==> #[trigger] effects@[j] == command_effect(
                        apply_commands(m0, commands@.take(j)),
                        commands@[j],
                    ),
                stop == commands@.take(i as int).contains(Command::Stop),
            decreases commands@.len() - i,
        {
            let command = commands[i];
            proof {
                assert(commands@.take(i + 1).drop_last() =~= commands@.take(i as int));
                assert(commands@.take(i + 1) =~= commands@.take(i as int).push(command));
            }
            if let Command::Stop = command {
                stop = true;
            }
            let effect = self.handle_command(command);
            effects.push(effect);
            i = i + 1;
        }
        proof {
            assert(commands@.take(i as int) =~= commands@);
        }
        let ghost m = self@;
        let mut actions: Vec<Action<X>> = Vec::new();
        if let Some(a) = self.perform_action() {
            actions.push(a);
        }
        if let Some(a) = self.perform_action() {
            actions.push(a);
        }
        proof {
            assert(action_views(actions@) =~= pending_actions(m));
        }
        Cycle { effects, actions, stop }
    }
}

} // verus!
