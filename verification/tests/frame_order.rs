use neolove::frame::{Phase, Step};
use neolove::scene::{Component, Runtime};

fn started() -> Runtime {
    let mut rt = Runtime::new();
    rt.start();
    rt
}

fn attach(rt: &mut Runtime, entity: usize, name: &str, rendering: bool, has_update: bool) -> usize {
    let template = Component { name: name.to_string(), entity: None, rendering, has_awake: true, has_update };
    let instance = rt.prepare_component(entity, &template).unwrap();
    rt.add_component(entity, instance).unwrap()
}

fn run(rt: &Runtime) -> Vec<Step> {
    let mut frame = rt.begin_frame();
    let mut steps = Vec::new();
    loop {
        let step = rt.update(&mut frame);
        if step == Step::Done {
            break;
        }
        steps.push(step);
    }
    steps
}

#[test]
fn an_empty_scene_has_nothing_to_run() {
    let rt = started();
    let mut frame = rt.begin_frame();
    assert_eq!(frame.phase(), Phase::Systems);
    assert_eq!(rt.update(&mut frame), Step::Done);
    assert_eq!(frame.phase(), Phase::Done);
    assert_eq!(rt.update(&mut frame), Step::Done);
}

#[test]
fn systems_run_first_in_the_order_of_registration() {
    let mut rt = started();
    rt.add_system();
    rt.add_system();
    rt.add_system();
    let e = rt.new_entity("e", Some(0), None, None).unwrap();
    attach(&mut rt, e, "Logic", false, true);
    assert_eq!(
        run(&rt),
        vec![Step::System(0), Step::System(1), Step::System(2), Step::Update { entity: e, component: 0 }]
    );
}

#[test]
fn rendering_components_wait_until_every_other_component_has_run() {
    let mut rt = started();
    let a = rt.new_entity("a", Some(0), None, None).unwrap();
    let b = rt.new_entity("b", Some(0), None, None).unwrap();
    attach(&mut rt, a, "SpriteA", true, true);
    attach(&mut rt, a, "LogicA", false, true);
    attach(&mut rt, b, "LogicB", false, true);
    attach(&mut rt, b, "SpriteB", true, true);
    attach(&mut rt, b, "LogicB2", false, true);
    assert_eq!(
        run(&rt),
        vec![
            Step::Update { entity: a, component: 1 },
            Step::Update { entity: b, component: 0 },
            Step::Update { entity: b, component: 2 },
            Step::Render { entity: a, component: 0 },
            Step::Render { entity: b, component: 1 },
        ]
    );
}

#[test]
fn entities_are_visited_by_increasing_depth() {
    let mut rt = started();
    let a = rt.new_entity("a", Some(0), None, None).unwrap();
    let b = rt.new_entity("b", Some(0), None, None).unwrap();
    let c = rt.new_entity("c", Some(0), None, None).unwrap();
    rt.set_depth(a, 10).unwrap();
    rt.set_depth(b, -3).unwrap();
    rt.set_depth(c, 10).unwrap();
    for e in [a, b, c] {
        attach(&mut rt, e, "Logic", false, true);
        attach(&mut rt, e, "Sprite", true, true);
    }
    assert_eq!(
        run(&rt),
        vec![
            Step::Update { entity: b, component: 0 },
            Step::Update { entity: a, component: 0 },
            Step::Update { entity: c, component: 0 },
            Step::Render { entity: b, component: 1 },
            Step::Render { entity: a, component: 1 },
            Step::Render { entity: c, component: 1 },
        ]
    );
}

#[test]
fn components_without_update_are_passed_over() {
    let mut rt = started();
    let a = rt.new_entity("a", Some(0), None, None).unwrap();
    attach(&mut rt, a, "Mute", false, false);
    attach(&mut rt, a, "MuteSprite", true, false);
    attach(&mut rt, a, "Logic", false, true);
    assert_eq!(run(&rt), vec![Step::Update { entity: a, component: 2 }]);
}

#[test]
fn an_entity_removed_during_the_frame_is_passed_over() {
    let mut rt = started();
    let a = rt.new_entity("a", Some(0), None, None).unwrap();
    let b = rt.new_entity("b", Some(0), None, None).unwrap();
    let c = rt.new_entity("c", Some(0), None, None).unwrap();
    for e in [a, b, c] {
        attach(&mut rt, e, "Logic", false, true);
    }
    let mut frame = rt.begin_frame();
    assert_eq!(rt.update(&mut frame), Step::Update { entity: a, component: 0 });
    rt.delete_entity(b);
    assert_eq!(rt.update(&mut frame), Step::Update { entity: c, component: 0 });
    assert_eq!(rt.update(&mut frame), Step::Done);
}

#[test]
fn an_entity_created_during_the_frame_waits_for_the_next_one() {
    let mut rt = started();
    let a = rt.new_entity("a", Some(0), None, None).unwrap();
    attach(&mut rt, a, "Spawner", false, true);
    let mut frame = rt.begin_frame();
    assert_eq!(rt.update(&mut frame), Step::Update { entity: a, component: 0 });
    let b = rt.new_entity("b", Some(0), None, None).unwrap();
    attach(&mut rt, b, "Logic", false, true);
    assert_eq!(rt.update(&mut frame), Step::Done);
    assert_eq!(
        run(&rt),
        vec![Step::Update { entity: a, component: 0 }, Step::Update { entity: b, component: 0 }]
    );
}

#[test]
fn the_depth_order_is_taken_after_the_systems_have_run() {
    let mut rt = started();
    rt.add_system();
    let a = rt.new_entity("a", Some(0), None, None).unwrap();
    attach(&mut rt, a, "Logic", false, true);
    let mut frame = rt.begin_frame();
    assert_eq!(rt.update(&mut frame), Step::System(0));
    let b = rt.new_entity("b", Some(0), None, None).unwrap();
    attach(&mut rt, b, "Logic", false, true);
    rt.set_depth(b, -1).unwrap();
    assert_eq!(rt.update(&mut frame), Step::Update { entity: b, component: 0 });
    assert_eq!(rt.update(&mut frame), Step::Update { entity: a, component: 0 });
    assert_eq!(rt.update(&mut frame), Step::Done);
}

#[test]
fn a_system_registered_during_the_frame_waits_for_the_next_one() {
    let mut rt = started();
    rt.add_system();
    let mut frame = rt.begin_frame();
    assert_eq!(rt.update(&mut frame), Step::System(0));
    rt.add_system();
    assert_eq!(rt.update(&mut frame), Step::Done);
    assert_eq!(run(&rt), vec![Step::System(0), Step::System(1)]);
}

#[test]
fn the_phase_follows_the_steps() {
    let mut rt = started();
    rt.add_system();
    let a = rt.new_entity("a", Some(0), None, None).unwrap();
    attach(&mut rt, a, "Logic", false, true);
    attach(&mut rt, a, "Sprite", true, true);
    let mut frame = rt.begin_frame();
    assert_eq!(rt.update(&mut frame), Step::System(0));
    assert_eq!(frame.phase(), Phase::Systems);
    assert_eq!(rt.update(&mut frame), Step::Update { entity: a, component: 0 });
    assert_eq!(frame.phase(), Phase::Entities);
    assert_eq!(rt.update(&mut frame), Step::Render { entity: a, component: 1 });
    assert_eq!(frame.phase(), Phase::Rendering);
    assert_eq!(rt.update(&mut frame), Step::Done);
    assert_eq!(frame.phase(), Phase::Done);
}
