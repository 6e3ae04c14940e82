use paint::behaviour::{
    Action, Behaviour, Command, Event, LayerSource, StrokeEffect, StrokeSettings,
    DEFAULT_CANVAS_HEIGHT, DEFAULT_CANVAS_WIDTH,
};
use paint::presentation::{Layer, Resolution};

type Transform = (i32, i32);
type Sample = (u32, u32);

fn actor() -> Behaviour<Transform, Sample> {
    Behaviour::new((0, 0))
}

fn event(e: Event<Transform, Sample>) -> Command<Transform, Sample> {
    Command::HandleEvent(e)
}

fn layer_sources(action: &Action<Transform>) -> Vec<LayerSource> {
    match action {
        Action::PresentViewport(v) => v
            .canvas
            .layers
            .iter()
            .map(|l| match l {
                Layer::Texture(s) => *s,
            })
            .collect(),
        Action::PresentColorPicker(_) => panic!("expected a viewport presentation"),
    }
}

fn viewport_count(actions: &[Action<Transform>]) -> usize {
    actions
        .iter()
        .filter(|a| matches!(a, Action::PresentViewport(_)))
        .count()
}

#[test]
fn fresh_actor_has_nothing_to_present() {
    let mut b = actor();
    assert!(b.perform_action().is_none());
    let v = b.present();
    assert_eq!(
        v.canvas.resolution,
        Resolution::new(DEFAULT_CANVAS_WIDTH, DEFAULT_CANVAS_HEIGHT)
    );
    assert_eq!(v.canvas.resolution, Resolution::new(2304, 1440));
    assert_eq!(v.transform, (0, 0));
}

#[test]
fn burst_of_updates_yields_one_viewport_presentation() {
    let mut b = actor();
    b.drain_and_step(vec![event(Event::BeginBrushStroke)]);
    let updates: Vec<_> = (0..50u32)
        .map(|i| event(Event::UpdateBrushStroke((i, i + 1))))
        .collect();
    let cycle = b.drain_and_step(updates);
    assert_eq!(cycle.actions.len(), 1);
    assert_eq!(viewport_count(&cycle.actions), 1);
    assert_eq!(cycle.effects.len(), 50);
    for (i, effect) in cycle.effects.iter().enumerate() {
        match effect {
            StrokeEffect::Update(s) => assert_eq!(*s, (i as u32, i as u32 + 1)),
            _ => panic!("expected an update"),
        }
    }
}

#[test]
fn single_update_yields_one_viewport_presentation() {
    let mut b = actor();
    b.drain_and_step(vec![event(Event::BeginBrushStroke)]);
    let cycle = b.drain_and_step(vec![event(Event::UpdateBrushStroke((3, 4)))]);
    assert_eq!(viewport_count(&cycle.actions), 1);
    assert_eq!(
        layer_sources(&cycle.actions[0]),
        vec![LayerSource::Composite, LayerSource::ActiveStroke]
    );
}

#[test]
fn finished_stroke_leaves_only_the_composite() {
    let mut b = actor();
    let cycle = b.drain_and_step(vec![
        event(Event::BeginBrushStroke),
        event(Event::UpdateBrushStroke((1, 1))),
        event(Event::UpdateBrushStroke((2, 2))),
        event(Event::EndBrushStroke),
    ]);
    assert_eq!(cycle.effects.len(), 4);
    assert!(matches!(cycle.effects[0], StrokeEffect::Begin(_)));
    assert!(matches!(cycle.effects[1], StrokeEffect::Update((1, 1))));
    assert!(matches!(cycle.effects[2], StrokeEffect::Update((2, 2))));
    assert!(matches!(cycle.effects[3], StrokeEffect::Commit));
    assert_eq!(cycle.actions.len(), 1);
    assert_eq!(layer_sources(&cycle.actions[0]), vec![LayerSource::Composite]);

    let cycle = b.drain_and_step(vec![event(Event::InvalidateViewport)]);
    assert_eq!(layer_sources(&cycle.actions[0]), vec![LayerSource::Composite]);
}

#[test]
fn empty_cycle_after_a_cycle_is_silent() {
    let mut b = actor();
    let first = b.drain_and_step(vec![
        event(Event::SetCanvasResolution(Resolution::new(100, 200))),
        event(Event::InvalidateColorPicker),
    ]);
    assert_eq!(first.actions.len(), 2);
    let second = b.drain_and_step(Vec::new());
    assert!(second.actions.is_empty());
    assert!(second.effects.is_empty());
    assert!(!second.stop);
}

#[test]
fn end_without_stroke_does_nothing() {
    let mut b = actor();
    let cycle = b.drain_and_step(vec![event(Event::EndBrushStroke)]);
    assert!(cycle.actions.is_empty());
    assert!(matches!(cycle.effects[0], StrokeEffect::Nothing));
}

#[test]
fn update_without_stroke_does_nothing() {
    let mut b = actor();
    assert!(matches!(
        b.handle_event(Event::UpdateBrushStroke((5, 5))),
        StrokeEffect::Nothing
    ));
    assert!(b.perform_action().is_none());
}

#[test]
fn stroke_keeps_resolution_it_began_with() {
    let mut b = actor();
    b.handle_event(Event::SetCanvasResolution(Resolution::new(640, 480)));
    let effect = b.handle_event(Event::BeginBrushStroke);
    match effect {
        StrokeEffect::Begin(settings) => assert_eq!(
            settings,
            StrokeSettings {
                canvas_resolution: Resolution::new(640, 480)
            }
        ),
        _ => panic!("expected a begin"),
    }
    b.handle_event(Event::SetCanvasResolution(Resolution::new(10, 10)));
    assert_eq!(b.present().canvas.resolution, Resolution::new(10, 10));
}

#[test]
fn viewport_comes_before_color_picker() {
    let mut b = actor();
    b.handle_event(Event::InvalidateColorPicker);
    b.handle_event(Event::SetViewportTransform((7, -3)));
    match b.perform_action() {
        Some(Action::PresentViewport(v)) => assert_eq!(v.transform, (7, -3)),
        _ => panic!("expected a viewport presentation"),
    }
    assert!(matches!(
        b.perform_action(),
        Some(Action::PresentColorPicker(_))
    ));
    assert!(b.perform_action().is_none());
}

#[test]
fn attaching_asks_for_a_first_frame() {
    let mut b = actor();
    let cycle = b.drain_and_step(vec![Command::AttachViewport, Command::AttachColorPicker]);
    assert_eq!(cycle.actions.len(), 2);
    assert!(matches!(cycle.actions[0], Action::PresentViewport(_)));
    assert!(matches!(cycle.actions[1], Action::PresentColorPicker(_)));
}

#[test]
fn new_stroke_replaces_the_one_in_progress() {
    let mut b = actor();
    let cycle = b.drain_and_step(vec![
        event(Event::BeginBrushStroke),
        event(Event::UpdateBrushStroke((1, 2))),
        event(Event::BeginBrushStroke),
    ]);
    assert!(matches!(cycle.effects[2], StrokeEffect::Begin(_)));
    assert_eq!(
        layer_sources(&cycle.actions[0]),
        vec![LayerSource::Composite, LayerSource::ActiveStroke]
    );
}

#[test]
fn stop_is_reported() {
    let mut b = actor();
    let cycle = b.drain_and_step(vec![Command::Stop]);
    assert!(cycle.stop);
    assert!(cycle.actions.is_empty());
    let cycle = b.drain_and_step(vec![event(Event::InvalidateViewport)]);
    assert!(!cycle.stop);
}
