use neolove::scene::{add_core_components, get_global_position, Component, Runtime, SceneError, DEFAULT_SIZE};

fn started() -> Runtime {
    let mut rt = Runtime::new();
    assert!(rt.start());
    rt
}

fn template(name: &str, rendering: bool) -> Component {
    Component { name: name.to_string(), entity: None, rendering, has_awake: true, has_update: true }
}

#[test]
fn a_scene_is_empty_until_it_is_started() {
    let mut rt = Runtime::new();
    assert!(!rt.is_live(0));
    assert!(rt.entity(0).is_none());
    assert_eq!(rt.entity_max(), 1);
    assert_eq!(rt.depth_order(), Vec::<usize>::new());
    assert_eq!(rt.new_entity("a", Some(0), None, None), Err(SceneError::NoSuchEntity));
    assert_eq!(rt.new_entity("a", None, None, None), Ok(2));
    assert!(rt.start());
    assert!(rt.is_live(0));
    assert!(rt.is_live(2));
}

#[test]
fn starting_twice_keeps_the_root() {
    let mut rt = started();
    let a = rt.new_entity("a", Some(0), None, None).unwrap();
    rt.set_position(0, 5, 5).unwrap();
    assert!(!rt.start());
    assert_eq!(rt.entity(0).unwrap().children, vec![a]);
    assert_eq!(rt.entity(0).unwrap().x, 5);
}

#[test]
fn a_root_that_was_deleted_can_be_started_again() {
    let mut rt = started();
    let a = rt.new_entity("a", Some(0), None, None).unwrap();
    rt.delete_entity(0);
    assert!(rt.start());
    assert!(rt.is_live(0));
    assert!(!rt.is_live(a));
    assert!(rt.entity(0).unwrap().children.is_empty());
    assert_eq!(rt.new_entity("b", Some(0), None, None), Ok(a + 1));
}

#[test]
fn the_built_in_components_draw() {
    let mut templates = vec![template("Mine", false)];
    add_core_components(&mut templates);
    assert_eq!(templates.len(), 4);
    assert_eq!(templates[0].name, "Mine");
    let names: Vec<&str> = templates[1..].iter().map(|t| t.name.as_str()).collect();
    assert_eq!(names, vec!["Rect2D", "RudimentaryTextLabel", "Image2D"]);
    for t in &templates[1..] {
        assert!(t.rendering && t.has_awake && t.has_update);
        assert_eq!(t.entity, None);
    }
    let one = Component::drawable("Sprite");
    assert_eq!(one.name, "Sprite");
    assert!(one.rendering && one.has_awake && one.has_update);
}

#[test]
fn entities_can_be_renamed() {
    let mut rt = started();
    let a = rt.new_entity("a", Some(0), None, None).unwrap();
    assert_eq!(rt.set_name(a, "b"), Ok(()));
    assert_eq!(rt.entity(a).unwrap().name, "b");
    assert_eq!(rt.find_first_child(0, "a"), None);
    assert_eq!(rt.find_first_child(0, "b"), Some(a));
    assert_eq!(rt.set_name(40, "b"), Err(SceneError::NoSuchEntity));
}

#[test]
fn a_new_scene_holds_the_root_alone() {
    let rt = started();
    assert!(rt.is_live(0));
    assert!(!rt.is_live(1));
    assert!(!rt.is_live(2));
    assert_eq!(rt.entity_max(), 1);
    let root = rt.entity(0).unwrap();
    assert_eq!(root.id, 0);
    assert_eq!(root.name, "root");
    assert_eq!(root.parent, None);
    assert!(root.children.is_empty());
    assert!(root.components.is_empty());
    assert_eq!((root.x, root.y, root.z), (0, 0, 0));
    assert_eq!((root.size_x, root.size_y), (32, 32));
}

#[test]
fn ids_grow_from_two_and_are_never_reused() {
    let mut rt = started();
    assert_eq!(rt.new_entity("a", Some(0), None, None), Ok(2));
    assert_eq!(rt.new_entity("b", Some(0), None, None), Ok(3));
    rt.delete_entity(3);
    assert_eq!(rt.new_entity("c", Some(0), None, None), Ok(4));
    assert_eq!(rt.entity_max(), 4);
}

#[test]
fn a_new_entity_has_the_default_placement_and_is_linked_under_its_parent() {
    let mut rt = started();
    let id = rt.new_entity("player", Some(0), Some(7), None).unwrap();
    let e = rt.entity(id).unwrap();
    assert_eq!(e.name, "player");
    assert_eq!(e.parent, Some(0));
    assert_eq!((e.x, e.y, e.z), (7, 0, 0));
    assert_eq!((e.size_x, e.size_y), (DEFAULT_SIZE, DEFAULT_SIZE));
    assert!(e.children.is_empty());
    assert!(e.components.is_empty());
    assert_eq!(rt.entity(0).unwrap().children, vec![id]);
}

#[test]
fn an_entity_without_parent_is_linked_nowhere() {
    let mut rt = started();
    let id = rt.new_entity("loose", None, Some(1), Some(2)).unwrap();
    assert_eq!(rt.entity(id).unwrap().parent, None);
    assert!(rt.entity(0).unwrap().children.is_empty());
}

#[test]
fn a_parent_that_is_gone_is_refused_and_no_id_is_spent() {
    let mut rt = started();
    assert_eq!(rt.new_entity("a", Some(9), None, None), Err(SceneError::NoSuchEntity));
    assert_eq!(rt.entity_max(), 1);
    assert_eq!(rt.new_entity("a", Some(0), None, None), Ok(2));
}

#[test]
fn world_position_sums_the_chain_of_local_offsets() {
    let mut rt = started();
    let a = rt.new_entity("a", Some(0), Some(0), Some(0)).unwrap();
    let b = rt.new_entity("b", Some(a), Some(10), Some(0)).unwrap();
    let c = rt.new_entity("c", Some(b), Some(0), Some(5)).unwrap();
    assert_eq!(get_global_position(&rt, c), Some((10, 5)));
    assert_eq!(get_global_position(&rt, b), Some((10, 0)));
    assert_eq!(get_global_position(&rt, a), Some((0, 0)));
}

#[test]
fn world_position_follows_the_current_offsets_of_the_ancestors() {
    let mut rt = started();
    let a = rt.new_entity("a", Some(0), Some(3), Some(4)).unwrap();
    let b = rt.new_entity("b", Some(a), Some(-1), Some(-1)).unwrap();
    assert_eq!(get_global_position(&rt, b), Some((2, 3)));
    rt.set_position(a, 100, -100).unwrap();
    assert_eq!(get_global_position(&rt, b), Some((99, -101)));
    rt.set_position(0, 1, 1).unwrap();
    assert_eq!(get_global_position(&rt, b), Some((100, -100)));
}

#[test]
fn world_position_does_not_overflow_at_the_ends_of_the_range() {
    let mut rt = started();
    rt.set_position(0, i32::MAX, i32::MIN).unwrap();
    let a = rt.new_entity("a", Some(0), Some(i32::MAX), Some(i32::MIN)).unwrap();
    let b = rt.new_entity("b", Some(a), Some(i32::MAX), Some(i32::MIN)).unwrap();
    assert_eq!(get_global_position(&rt, b), Some((3 * (i32::MAX as i128), 3 * (i32::MIN as i128))));
}

#[test]
fn world_position_of_a_removed_entity_is_none() {
    let mut rt = started();
    let a = rt.new_entity("a", Some(0), None, None).unwrap();
    rt.delete_entity(a);
    assert_eq!(get_global_position(&rt, a), None);
    assert_eq!(get_global_position(&rt, 77), None);
}

fn boxed(rt: &mut Runtime, x: i32, y: i32, w: i32, h: i32) -> usize {
    let id = rt.new_entity("box", Some(0), Some(x), Some(y)).unwrap();
    rt.set_size(id, w, h).unwrap();
    id
}

#[test]
fn overlapping_boxes_are_found() {
    let mut rt = started();
    let a = boxed(&mut rt, 0, 0, 10, 10);
    let b = boxed(&mut rt, 5, 5, 10, 10);
    assert_eq!(rt.do_they_overlap(&vec![a, b]), Ok(true));
    assert_eq!(rt.do_they_overlap(&vec![b, a]), Ok(true));
}

#[test]
fn distant_boxes_do_not_overlap() {
    let mut rt = started();
    let a = boxed(&mut rt, 0, 0, 10, 10);
    let b = boxed(&mut rt, 20, 20, 10, 10);
    assert_eq!(rt.do_they_overlap(&vec![a, b]), Ok(false));
}

#[test]
fn boxes_that_only_touch_do_not_overlap() {
    let mut rt = started();
    let a = boxed(&mut rt, 0, 0, 10, 10);
    let b = boxed(&mut rt, 10, 0, 10, 10);
    assert_eq!(rt.do_they_overlap(&vec![a, b]), Ok(false));
}

#[test]
fn an_entity_does_not_overlap_with_itself() {
    let mut rt = started();
    let a = boxed(&mut rt, 0, 0, 10, 10);
    assert_eq!(rt.do_they_overlap(&vec![a]), Ok(false));
    assert_eq!(rt.do_they_overlap(&vec![a, a]), Ok(false));
    assert_eq!(rt.do_they_overlap(&vec![]), Ok(false));
}

#[test]
fn overlap_uses_world_positions() {
    let mut rt = started();
    let far = rt.new_entity("far", Some(0), Some(1000), Some(1000)).unwrap();
    let a = rt.new_entity("a", Some(far), Some(0), Some(0)).unwrap();
    let b = boxed(&mut rt, 0, 0, 32, 32);
    assert_eq!(rt.do_they_overlap(&vec![a, b]), Ok(false));
    let c = boxed(&mut rt, 1010, 1010, 5, 5);
    assert_eq!(rt.do_they_overlap(&vec![b, a, c]), Ok(true));
}

#[test]
fn overlap_refuses_an_id_that_is_not_live() {
    let mut rt = started();
    let a = boxed(&mut rt, 0, 0, 10, 10);
    let b = boxed(&mut rt, 5, 5, 10, 10);
    assert_eq!(rt.do_they_overlap(&vec![a, b, 99]), Err(SceneError::NoSuchEntity));
}

#[test]
fn deleting_a_parent_removes_its_children_too() {
    let mut rt = started();
    let parent = rt.new_entity("parent", Some(0), None, None).unwrap();
    let one = rt.new_entity("one", Some(parent), None, None).unwrap();
    let two = rt.new_entity("two", Some(parent), None, None).unwrap();
    assert_eq!(rt.find_first_child(0, "parent"), Some(parent));
    let removed = rt.delete_entity(parent);
    assert_eq!(removed, vec![parent, one, two]);
    assert!(!rt.is_live(parent));
    assert!(!rt.is_live(one));
    assert!(!rt.is_live(two));
    assert!(rt.is_live(0));
    assert_eq!(rt.find_first_child(0, "parent"), None);
    assert!(rt.entity(0).unwrap().children.is_empty());
}

#[test]
fn deleting_a_subtree_leaves_the_rest_alone() {
    let mut rt = started();
    let a = rt.new_entity("a", Some(0), None, None).unwrap();
    let b = rt.new_entity("b", Some(0), Some(4), None).unwrap();
    let a1 = rt.new_entity("a1", Some(a), None, None).unwrap();
    let b1 = rt.new_entity("b1", Some(b), None, None).unwrap();
    let a2 = rt.new_entity("a2", Some(a1), None, None).unwrap();
    let loose = rt.new_entity("loose", None, None, None).unwrap();
    let removed = rt.delete_entity(a);
    assert_eq!(removed, vec![a, a1, a2]);
    assert!(rt.is_live(b) && rt.is_live(b1) && rt.is_live(loose) && rt.is_live(0));
    assert_eq!(rt.entity(0).unwrap().children, vec![b]);
    assert_eq!(rt.entity(b).unwrap().children, vec![b1]);
    assert_eq!(rt.entity(b).unwrap().x, 4);
    assert_eq!(get_global_position(&rt, b1), Some((4, 0)));
}

#[test]
fn deleting_a_middle_child_keeps_the_order_of_the_others() {
    let mut rt = started();
    let a = rt.new_entity("a", Some(0), None, None).unwrap();
    let b = rt.new_entity("b", Some(0), None, None).unwrap();
    let c = rt.new_entity("c", Some(0), None, None).unwrap();
    assert_eq!(rt.delete_entity(b), vec![b]);
    assert_eq!(rt.entity(0).unwrap().children, vec![a, c]);
}

#[test]
fn deleting_what_is_gone_changes_nothing() {
    let mut rt = started();
    let a = rt.new_entity("a", Some(0), None, None).unwrap();
    assert_eq!(rt.delete_entity(a), vec![a]);
    assert_eq!(rt.delete_entity(a), Vec::<usize>::new());
    assert_eq!(rt.delete_entity(1), Vec::<usize>::new());
    assert_eq!(rt.delete_entity(500), Vec::<usize>::new());
    assert!(rt.is_live(0));
}

#[test]
fn the_root_can_be_deleted_with_everything_under_it() {
    let mut rt = started();
    let a = rt.new_entity("a", Some(0), None, None).unwrap();
    let loose = rt.new_entity("loose", None, None, None).unwrap();
    assert_eq!(rt.delete_entity(0), vec![0, a]);
    assert!(!rt.is_live(0));
    assert!(rt.is_live(loose));
}

#[test]
fn find_first_child_takes_the_first_of_equal_names() {
    let mut rt = started();
    let a = rt.new_entity("twin", Some(0), None, None).unwrap();
    let _b = rt.new_entity("twin", Some(0), None, None).unwrap();
    let c = rt.new_entity("other", Some(0), None, None).unwrap();
    assert_eq!(rt.find_first_child(0, "twin"), Some(a));
    assert_eq!(rt.find_first_child(0, "other"), Some(c));
    assert_eq!(rt.find_first_child(0, "none"), None);
    assert_eq!(rt.find_first_child(99, "twin"), None);
}

#[test]
fn find_first_child_looks_at_immediate_children_only() {
    let mut rt = started();
    let a = rt.new_entity("a", Some(0), None, None).unwrap();
    let _deep = rt.new_entity("deep", Some(a), None, None).unwrap();
    assert_eq!(rt.find_first_child(0, "deep"), None);
    assert_eq!(rt.find_first_child(a, "deep"), Some(_deep));
}

#[test]
fn a_component_is_bound_before_it_is_attached() {
    let mut rt = started();
    let e = rt.new_entity("e", Some(0), None, None).unwrap();
    let instance = rt.prepare_component(e, &template("Mover", false)).unwrap();
    assert_eq!(instance.entity, Some(e));
    assert_eq!(instance.name, "Mover");
    assert!(rt.entity(e).unwrap().components.is_empty());
    assert_eq!(rt.add_component(e, instance), Ok(0));
    let second = rt.prepare_component(e, &template("Sprite", true)).unwrap();
    assert_eq!(rt.add_component(e, second), Ok(1));
    let list = &rt.entity(e).unwrap().components;
    assert_eq!(list.len(), 2);
    assert_eq!(list[0].name, "Mover");
    assert!(!list[0].rendering);
    assert_eq!(list[1].name, "Sprite");
    assert!(list[1].rendering);
    assert_eq!(list[1].entity, Some(e));
}

#[test]
fn a_component_without_awake_is_refused() {
    let mut rt = started();
    let e = rt.new_entity("e", Some(0), None, None).unwrap();
    let mut bad = template("Bad", false);
    bad.has_awake = false;
    assert_eq!(rt.prepare_component(e, &bad).err(), Some(SceneError::NoAwake));
    assert_eq!(rt.add_component(e, bad), Err(SceneError::NoAwake));
    assert!(rt.entity(e).unwrap().components.is_empty());
}

#[test]
fn a_component_for_a_missing_entity_is_refused() {
    let mut rt = started();
    assert_eq!(rt.prepare_component(5, &template("C", false)).err(), Some(SceneError::NoSuchEntity));
    assert_eq!(rt.add_component(5, template("C", false)), Err(SceneError::NoSuchEntity));
}

#[test]
fn a_template_is_not_touched_by_its_instances() {
    let mut rt = started();
    let e = rt.new_entity("e", Some(0), None, None).unwrap();
    let t = template("Shared", false);
    let i = rt.prepare_component(e, &t).unwrap();
    rt.add_component(e, i).unwrap();
    assert_eq!(t.entity, None);
}

#[test]
fn a_duplicate_is_a_childless_copy_under_the_new_parent() {
    let mut rt = started();
    let src = rt.new_entity("src", Some(0), Some(3), Some(4)).unwrap();
    rt.set_depth(src, 9).unwrap();
    rt.set_size(src, 5, 6).unwrap();
    let _kid = rt.new_entity("kid", Some(src), None, None).unwrap();
    let i = rt.prepare_component(src, &template("Sprite", true)).unwrap();
    rt.add_component(src, i).unwrap();
    let home = rt.new_entity("home", Some(0), Some(100), None).unwrap();

    let copy = rt.duplicate_entity(src, home).unwrap();
    assert_eq!(copy, home + 1);
    let e = rt.entity(copy).unwrap();
    assert_eq!(e.id, copy);
    assert_eq!(e.name, "src");
    assert_eq!(e.parent, Some(home));
    assert!(e.children.is_empty());
    assert_eq!((e.x, e.y, e.z, e.size_x, e.size_y), (3, 4, 9, 5, 6));
    assert_eq!(e.components.len(), 1);
    assert_eq!(e.components[0].name, "Sprite");
    assert_eq!(e.components[0].entity, Some(copy));
    assert!(e.components[0].rendering);
    assert_eq!(rt.entity(home).unwrap().children, vec![copy]);
    assert_eq!(rt.entity(src).unwrap().children.len(), 1);
    assert_eq!(rt.entity(src).unwrap().components[0].entity, Some(src));
    assert_eq!(get_global_position(&rt, copy), Some((103, 4)));
}

#[test]
fn a_duplicate_of_or_under_a_missing_entity_is_refused() {
    let mut rt = started();
    let a = rt.new_entity("a", Some(0), None, None).unwrap();
    assert_eq!(rt.duplicate_entity(a, 50), Err(SceneError::NoSuchEntity));
    assert_eq!(rt.duplicate_entity(50, a), Err(SceneError::NoSuchEntity));
    assert_eq!(rt.entity_max(), a);
}

#[test]
fn setters_refuse_what_is_gone() {
    let mut rt = started();
    assert_eq!(rt.set_position(9, 1, 1), Err(SceneError::NoSuchEntity));
    assert_eq!(rt.set_depth(9, 1), Err(SceneError::NoSuchEntity));
    assert_eq!(rt.set_size(9, 1, 1), Err(SceneError::NoSuchEntity));
}

#[test]
fn systems_are_numbered_in_the_order_of_registration() {
    let mut rt = started();
    assert_eq!(rt.systems(), 0);
    assert_eq!(rt.add_system(), 0);
    assert_eq!(rt.add_system(), 1);
    assert_eq!(rt.systems(), 2);
}

#[test]
fn depth_order_sorts_by_depth_and_then_by_age() {
    let mut rt = started();
    let a = rt.new_entity("a", Some(0), None, None).unwrap();
    let b = rt.new_entity("b", Some(0), None, None).unwrap();
    let c = rt.new_entity("c", Some(0), None, None).unwrap();
    rt.set_depth(a, 5).unwrap();
    rt.set_depth(b, -1).unwrap();
    rt.set_depth(c, 5).unwrap();
    assert_eq!(rt.depth_order(), vec![b, 0, a, c]);
    rt.delete_entity(a);
    assert_eq!(rt.depth_order(), vec![b, 0, c]);
}
