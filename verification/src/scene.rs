//! The entity hierarchy: an arena of entities indexed by id, with parent and
//! child links, local placement and attached components.

use vstd::prelude::*;

verus! {

/// Identifies an entity for as long as the scene exists. 0 is the root; the
/// other ids are handed out in increasing order and never reused.
pub type EntityId = usize;

/// A component: a named bundle of script callbacks, either a template or,
/// once bound to an entity, a live instance.
pub struct Component {
    /// The name by which scripts know the component.
    pub name: String,
    /// The entity this instance is bound to; `None` for a template.
    pub entity: Option<EntityId>,
    /// Marks a component that draws, and is therefore dispatched in the
    /// rendering pass of a frame.
    pub rendering: bool,
    /// Whether the initialization callback exists.
    pub has_awake: bool,
    /// Whether the per-frame callback exists.
    pub has_update: bool,
}

/// One node of the hierarchy.
pub struct Entity {
    pub id: EntityId,
    pub name: String,
    /// The entity this one hangs under, if any.
    pub parent: Option<EntityId>,
    /// The entities that hang under this one, in the order of their arrival.
    pub children: Vec<EntityId>,
    /// The position relative to the parent.
    pub x: i32,
    pub y: i32,
    /// The depth: a frame visits entities of smaller depth first. Only the
    /// order of depths matters, so any scale may be mapped onto them.
    pub z: i64,
    /// The extent along each axis.
    pub size_x: i32,
    pub size_y: i32,
    /// The attached components, in the order of their attachment.
    pub components: Vec<Component>,
}

/// Why a scene operation was refused.
#[derive(Clone, Copy, Debug, PartialEq, Eq, Structural)]
pub enum SceneError {
    /// An id that names no live entity.
    NoSuchEntity,
    /// A component without an initialization callback cannot be attached.
    NoAwake,
}

/// Extent of a freshly created entity along each axis.
pub const DEFAULT_SIZE: i32 = 32;

/// An arena slot holds an entity.
pub open spec fn live_in(slots: Seq<Option<Entity>>, id: int) -> bool {
    0 <= id < slots.len() && slots[id] is Some
}

/// The links and bindings of the entity in slot `id` agree with the rest of
/// the arena: it carries its own id, its parent is an older live entity that
/// lists it, its children are younger live entities that name it as parent,
/// and its components are bound to it.
pub open spec fn entity_wf(slots: Seq<Option<Entity>>, id: int) -> bool {
    let e = slots[id]->0;
    &&& e.id == id
    &&& (e.parent matches Some(p) ==> p < id && live_in(slots, p as int)
        && (slots[p as int]->0).children@.contains(id as usize))
    &&& e.children@.no_duplicates()
    &&& (forall|k: int| 0 <= k < e.children@.len() ==> child_wf(slots, id, #[trigger] e.children@[k]))
    &&& (forall|k: int| 0 <= k < e.components@.len() ==> (#[trigger] e.components@[k]).entity == Some(id as usize))
}

/// `child` is a younger live entity whose parent is `id`.
pub open spec fn child_wf(slots: Seq<Option<Entity>>, id: int, child: EntityId) -> bool {
    &&& id < child
    &&& live_in(slots, child as int)
    &&& (slots[child as int]->0).parent == Some(id as usize)
}

/// Every live entity of the arena is well linked.
pub open spec fn arena_wf(slots: Seq<Option<Entity>>) -> bool {
    forall|id: int| #[trigger] live_in(slots, id) ==> entity_wf(slots, id)
}

/// `id` is the live entity `top` or one of its live descendants.
pub open spec fn within(slots: Seq<Option<Entity>>, top: int, id: int) -> bool
    decreases id,
{
    if !live_in(slots, id) {
        false
    } else if id == top {
        true
    } else {
        match (slots[id]->0).parent {
            Some(p) => p < id && within(slots, top, p as int),
            None => false,
        }
    }
}

/// A subtree holds its top, which is live, and entities younger than it.
pub proof fn lemma_within_bounds(slots: Seq<Option<Entity>>, top: int, id: int)
    requires
        within(slots, top, id),
    ensures
        top <= id,
        live_in(slots, top),
        live_in(slots, id),
    decreases id,
{
    if id != top {
        let p = (slots[id]->0).parent->0 as int;
        lemma_within_bounds(slots, top, p);
    }
}

/// The entity `id` is live and named `name`.
pub open spec fn has_name(slots: Seq<Option<Entity>>, id: EntityId, name: Seq<char>) -> bool {
    live_in(slots, id as int) && (slots[id as int]->0).name@ == name
}

/// Position `i` of `kids` holds the first entity named `name`.
pub open spec fn first_named_at(slots: Seq<Option<Entity>>, kids: Seq<EntityId>, name: Seq<char>, i: int) -> bool {
    &&& 0 <= i < kids.len()
    &&& has_name(slots, kids[i], name)
    &&& forall|k: int| 0 <= k < i ==> !has_name(slots, #[trigger] kids[k], name)
}

/// The absolute horizontal position of an entity: its local `x` plus that
/// of every ancestor. No scale or rotation is applied.
pub open spec fn world_x(slots: Seq<Option<Entity>>, id: int) -> int
    decreases id,
{
    if !live_in(slots, id) {
        0
    } else {
        let e = slots[id]->0;
        match e.parent {
            Some(p) => if p < id { e.x + world_x(slots, p as int) } else { e.x as int },
            None => e.x as int,
        }
    }
}

/// The absolute vertical position of an entity: its local `y` plus that of
/// every ancestor.
pub open spec fn world_y(slots: Seq<Option<Entity>>, id: int) -> int
    decreases id,
{
    if !live_in(slots, id) {
        0
    } else {
        let e = slots[id]->0;
        match e.parent {
            Some(p) => if p < id { e.y + world_y(slots, p as int) } else { e.y as int },
            None => e.y as int,
        }
    }
}

/// The axis-aligned boxes `(x, y, w, h)` share interior points.
pub open spec fn boxes_overlap(a: (int, int, int, int), b: (int, int, int, int)) -> bool {
    a.0 < b.0 + b.2 && a.0 + a.2 > b.0 && a.1 < b.1 + b.3 && a.1 + a.3 > b.1
}

/// The box of a live entity: its world position and its extent.
pub open spec fn world_box(slots: Seq<Option<Entity>>, id: EntityId) -> (int, int, int, int) {
    let e = slots[id as int]->0;
    (world_x(slots, id as int), world_y(slots, id as int), e.size_x as int, e.size_y as int)
}

/// Some two different entities of `ids` have overlapping boxes.
pub open spec fn any_overlap(slots: Seq<Option<Entity>>, ids: Seq<EntityId>) -> bool {
    exists|i: int, j: int|
        0 <= i < ids.len() && 0 <= j < ids.len() && ids[i] != ids[j]
            && boxes_overlap(#[trigger] world_box(slots, ids[i]), #[trigger] world_box(slots, ids[j]))
}

/// Two components agree on everything but the entity they are bound to.
pub open spec fn same_component(a: Component, b: Component) -> bool {
    &&& a.name@ == b.name@
    &&& a.rendering == b.rendering
    &&& a.has_awake == b.has_awake
    &&& a.has_update == b.has_update
}

/// `copy` holds the components of `source`, in order, each bound to `id`.
pub open spec fn rebound(copy: Seq<Component>, source: Seq<Component>, id: EntityId) -> bool {
    &&& copy.len() == source.len()
    &&& forall|k: int| 0 <= k < copy.len() ==> same_component(#[trigger] copy[k], source[k]) && copy[k].entity == Some(id)
}

/// A copy of `c` bound to `entity`.
fn bind(c: &Component, entity: EntityId) -> (r: Component)
    ensures
        same_component(r, *c),
        r.entity == Some(entity),
{
    Component {
        name: c.name.clone(),
        entity: Some(entity),
        rendering: c.rendering,
        has_awake: c.has_awake,
        has_update: c.has_update,
    }
}

/// `b` is the box of the live entity `id`, held in machine integers.
pub open spec fn box_of(slots: Seq<Option<Entity>>, id: EntityId, b: (i128, i128, i32, i32)) -> bool {
    &&& world_box(slots, id) == (b.0 as int, b.1 as int, b.2 as int, b.3 as int)
    &&& -(id + 1) * 0x8000_0000 <= b.0 <= (id + 1) * 0x8000_0000
    &&& -(id + 1) * 0x8000_0000 <= b.1 <= (id + 1) * 0x8000_0000
}

/// Entity `a` comes before entity `b` in a frame: it lies at a smaller depth,
/// or at the same depth and is the older of the two.
pub open spec fn before_in_depth(slots: Seq<Option<Entity>>, a: EntityId, b: EntityId) -> bool {
    let za = (slots[a as int]->0).z;
    let zb = (slots[b as int]->0).z;
    za < zb || (za == zb && a < b)
}

/// `order` lists entities of the arena from the smallest depth to the
/// greatest, entities of one depth from the oldest to the youngest.
pub open spec fn depth_sorted(slots: Seq<Option<Entity>>, order: Seq<EntityId>) -> bool {
    &&& forall|i: int| 0 <= i < order.len() ==> live_in(slots, #[trigger] order[i] as int)
    &&& forall|i: int, j: int| 0 <= i < j < order.len() ==> before_in_depth(slots, #[trigger] order[i], #[trigger] order[j])
}

/// `order` is the frame order of the arena: all its live entities, sorted by
/// depth.
pub open spec fn is_depth_order(slots: Seq<Option<Entity>>, order: Seq<EntityId>) -> bool {
    &&& depth_sorted(slots, order)
    &&& forall|id: EntityId| live_in(slots, id as int) ==> #[trigger] order.contains(id)
}

/// The frame order of the arena.
pub open spec fn depth_order_of(slots: Seq<Option<Entity>>) -> Seq<EntityId> {
    choose|order: Seq<EntityId>| is_depth_order(slots, order)
}

/// Two depth-sorted lists that hold the same entities are the same list.
pub proof fn lemma_depth_sorted_unique(slots: Seq<Option<Entity>>, a: Seq<EntityId>, b: Seq<EntityId>)
    requires
        depth_sorted(slots, a),
        depth_sorted(slots, b),
        forall|id: EntityId| a.contains(id) <==> b.contains(id),
    ensures
        a == b,
    decreases a.len(),
{
    if a.len() == 0 {
        if b.len() > 0 {
            assert(b.contains(b[0]));
        }
        assert(a =~= b);
    } else {
        assert(a.contains(a.last()));
        assert(b.contains(a.last()));
        let la = a.len() - 1;
        let lb = b.len() - 1;
        let jb = choose|j: int| 0 <= j < b.len() && b[j] == a.last();
        assert(b.contains(b.last()));
        let ia = choose|i: int| 0 <= i < a.len() && a[i] == b.last();
        if jb < lb {
            assert(before_in_depth(slots, b[jb], b[lb]));
        }
        if ia < la {
            assert(before_in_depth(slots, a[ia], a[la]));
        }
        assert(a.last() == b.last());
        let a0 = a.drop_last();
        let b0 = b.drop_last();
        assert forall|id: EntityId| a0.contains(id) <==> b0.contains(id) by {
            if a0.contains(id) {
                let i = choose|i: int| 0 <= i < a0.len() && a0[i] == id;
                assert(a[i] == id);
                assert(before_in_depth(slots, a[i], a[la]));
                assert(a.contains(id));
                let j = choose|j: int| 0 <= j < b.len() && b[j] == id;
                assert(j != lb);
                assert(b0[j] == id);
            }
            if b0.contains(id) {
                let j = choose|j: int| 0 <= j < b0.len() && b0[j] == id;
                assert(b[j] == id);
                assert(before_in_depth(slots, b[j], b[lb]));
                assert(b.contains(id));
                let i = choose|i: int| 0 <= i < a.len() && a[i] == id;
                assert(i != la);
                assert(a0[i] == id);
            }
        }
        assert(depth_sorted(slots, a0)) by {
            assert forall|i: int| 0 <= i < a0.len() implies live_in(slots, #[trigger] a0[i] as int) by {
                assert(a0[i] == a[i]);
            }
            assert forall|i: int, j: int| 0 <= i < j < a0.len() implies before_in_depth(slots, #[trigger] a0[i], #[trigger] a0[j]) by {
                assert(a0[i] == a[i] && a0[j] == a[j]);
            }
        }
        assert(depth_sorted(slots, b0)) by {
            assert forall|i: int| 0 <= i < b0.len() implies live_in(slots, #[trigger] b0[i] as int) by {
                assert(b0[i] == b[i]);
            }
            assert forall|i: int, j: int| 0 <= i < j < b0.len() implies before_in_depth(slots, #[trigger] b0[i], #[trigger] b0[j]) by {
                assert(b0[i] == b[i] && b0[j] == b[j]);
            }
        }
        lemma_depth_sorted_unique(slots, a0, b0);
        assert(a =~= a0.push(a.last()));
        assert(b =~= b0.push(b.last()));
    }
}

/// An arena has exactly one frame order.
pub proof fn lemma_depth_order_unique(slots: Seq<Option<Entity>>, order: Seq<EntityId>)
    requires
        is_depth_order(slots, order),
    ensures
        order == depth_order_of(slots),
{
    let other = depth_order_of(slots);
    assert(is_depth_order(slots, other));
    assert forall|id: EntityId| order.contains(id) <==> other.contains(id) by {
        if order.contains(id) {
            let i = choose|i: int| 0 <= i < order.len() && order[i] == id;
            assert(live_in(slots, order[i] as int));
        }
        if other.contains(id) {
            let i = choose|i: int| 0 <= i < other.len() && other[i] == id;
            assert(live_in(slots, other[i] as int));
        }
    }
    lemma_depth_sorted_unique(slots, order, other);
}

/// A template with the given name and callbacks, bound to nothing.
pub open spec fn is_template(c: Component, name: Seq<char>, rendering: bool, has_awake: bool, has_update: bool) -> bool {
    &&& c.name@ == name
    &&& c.entity is None
    &&& c.rendering == rendering
    &&& c.has_awake == has_awake
    &&& c.has_update == has_update
}

impl Component {
    /// The template of a component that draws: it has both callbacks and is
    /// dispatched in the rendering pass.
    pub fn drawable(name: &str) -> (c: Component)
        ensures
            is_template(c, name@, true, true, true),
    {
        Component { name: String::from_str(name), entity: None, rendering: true, has_awake: true, has_update: true }
    }
}

/// Adds the templates of the built-in components to `templates`, in this
/// order: a filled rectangle, a text label and an image, by the names under
/// which scripts find them. All of them draw.
pub fn add_core_components(templates: &mut Vec<Component>)
    ensures
        final(templates)@.len() == old(templates)@.len() + 3,
        final(templates)@.take(old(templates)@.len() as int) == old(templates)@,
        is_template(final(templates)@[old(templates)@.len() as int], "Rect2D"@, true, true, true),
        is_template(final(templates)@[old(templates)@.len() as int + 1], "RudimentaryTextLabel"@, true, true, true),
        is_template(final(templates)@[old(templates)@.len() as int + 2], "Image2D"@, true, true, true),
{
    templates.push(Component::drawable("Rect2D"));
    templates.push(Component::drawable("RudimentaryTextLabel"));
    templates.push(Component::drawable("Image2D"));
    assert(templates@.take(old(templates)@.len() as int) =~= old(templates)@);
}

/// The scene: every entity ever created has a slot, emptied on removal.
pub struct Runtime {
    entities: Vec<Option<Entity>>,
    systems: usize,
    entity_max: usize,
}

impl Runtime {
    /// The arena, one slot per id.
    pub closed spec fn slots(&self) -> Seq<Option<Entity>> {
        self.entities@
    }

    /// The greatest id handed out so far.
    pub closed spec fn max_id(&self) -> nat {
        self.entity_max as nat
    }

    /// The number of registered systems.
    pub closed spec fn system_count(&self) -> nat {
        self.systems as nat
    }

    /// `id` names a live entity.
    pub open spec fn live(&self, id: EntityId) -> bool {
        live_in(self.slots(), id as int)
    }

    /// The live entity `id`.
    pub open spec fn at(&self, id: EntityId) -> Entity {
        self.slots()[id as int]->0
    }

    /// The scene's invariant.
    pub open spec fn wf(&self) -> bool {
        &&& self.slots().len() == self.max_id() + 1
        &&& arena_wf(self.slots())
    }

    /// A scene without entities. The root comes with [`Runtime::start`];
    /// the first entity created afterwards gets id 2.
    pub fn new() -> (r: Runtime)
        ensures
            r.wf(),
            r.max_id() == 1,
            r.system_count() == 0,
            !r.live(0),
            !r.live(1),
    {
        let mut entities: Vec<Option<Entity>> = Vec::new();
        entities.push(None);
        entities.push(None);
        Runtime { entities, systems: 0, entity_max: 1 }
    }

    /// Creates the root, entity 0: named `root`, at the origin, with depth
    /// 0 and the default extent, without parent, children or components.
    /// Returns whether it did; a scene that has its root is left as it is.
    pub fn start(&mut self) -> (created: bool)
        requires
            old(self).wf(),
        ensures
            final(self).wf(),
            created == !old(self).live(0),
            final(self).max_id() == old(self).max_id(),
            final(self).system_count() == old(self).system_count(),
            final(self).slots().len() == old(self).slots().len(),
            !created ==> *final(self) == *old(self),
            forall|k: EntityId| 0 < k < old(self).slots().len()
                ==> #[trigger] final(self).slots()[k as int] == old(self).slots()[k as int],
            final(self).live(0),
            created ==> {
                let root = final(self).at(0);
                &&& root.id == 0
                &&& root.name@ == "root"@
                &&& root.parent is None
                &&& root.children@.len() == 0
                &&& root.components@.len() == 0
                &&& (root.x, root.y, root.z) == (0i32, 0i32, 0i64)
                &&& (root.size_x, root.size_y) == (DEFAULT_SIZE, DEFAULT_SIZE)
            },
    {
        if self.is_live(0) {
            return false;
        }
        let root = Entity {
            id: 0,
            name: String::from_str("root"),
            parent: None,
            children: Vec::new(),
            x: 0,
            y: 0,
            z: 0,
            size_x: DEFAULT_SIZE,
            size_y: DEFAULT_SIZE,
            components: Vec::new(),
        };
        let ghost before = self.entities@;
        self.entities.set(0, Some(root));
        proof {
            let after = self.entities@;
            assert forall|j: int| #[trigger] live_in(after, j) implies entity_wf(after, j) by {
                if j != 0 {
                    assert(live_in(before, j));
                    assert(entity_wf(before, j));
                    let e = before[j]->0;
                    if e.parent is Some {
                        assert(live_in(before, e.parent->0 as int));
                    }
                    assert forall|k: int| 0 <= k < e.children@.len() implies child_wf(after, j, #[trigger] e.children@[k]) by {
                        assert(child_wf(before, j, e.children@[k]));
                    }
                }
            }
        }
        true
    }

    /// The greatest id handed out so far.
    pub fn entity_max(&self) -> (r: usize)
        ensures
            r == self.max_id(),
    {
        self.entity_max
    }

    /// Whether `id` names a live entity.
    pub fn is_live(&self, id: EntityId) -> (r: bool)
        ensures
            r == self.live(id),
    {
        id < self.entities.len() && self.entities[id].is_some()
    }

    /// The live entity `id`, if there is one.
    pub fn entity(&self, id: EntityId) -> (r: Option<&Entity>)
        ensures
            self.live(id) ==> r == Some(&self.at(id)),
            !self.live(id) ==> r is None,
    {
        if id < self.entities.len() {
            self.entities[id].as_ref()
        } else {
            None
        }
    }

    /// Creates an entity named `name` at the local position (`x`, `y`), each
    /// 0 when absent, with depth 0, the default extent, no components and no
    /// children, and appends it to the children of `parent` if one is given.
    /// A `parent` that is not live is refused, and nothing changes.
    pub fn new_entity(&mut self, name: &str, parent: Option<EntityId>, x: Option<i32>, y: Option<i32>) -> (r: Result<EntityId, SceneError>)
        requires
            old(self).wf(),
            old(self).max_id() + 2 <= usize::MAX,
        ensures
            final(self).wf(),
            final(self).system_count() == old(self).system_count(),
            (parent matches Some(p) && !old(self).live(p)) ==> r == Err::<EntityId, SceneError>(SceneError::NoSuchEntity)
                && *final(self) == *old(self),
            !(parent matches Some(p) && !old(self).live(p)) ==> {
                let id = (old(self).max_id() + 1) as usize;
                let e = final(self).at(id);
                &&& r == Ok::<EntityId, SceneError>(id)
                &&& final(self).max_id() == id
                &&& final(self).slots().len() == old(self).slots().len() + 1
                &&& final(self).live(id)
                &&& e.id == id
                &&& e.name@ == name@
                &&& e.parent == parent
                &&& e.children@.len() == 0
                &&& e.components@.len() == 0
                &&& e.x == (if x is Some { x->0 } else { 0i32 })
                &&& e.y == (if y is Some { y->0 } else { 0i32 })
                &&& e.z == 0
                &&& e.size_x == DEFAULT_SIZE
                &&& e.size_y == DEFAULT_SIZE
                &&& forall|k: EntityId| k < old(self).slots().len() && parent != Some(k)
                        ==> #[trigger] final(self).slots()[k as int] == old(self).slots()[k as int]
                &&& parent matches Some(p) ==> {
                    &&& final(self).live(p)
                    &&& final(self).at(p).children@ == old(self).at(p).children@.push(id)
                    &&& same_but_children(final(self).at(p), old(self).at(p))
                }
            },
    {
        match parent {
            Some(p) => {
                if !self.is_live(p) {
                    return Err(SceneError::NoSuchEntity);
                }
            },
            None => {},
        }
        let id = self.entity_max + 1;
        let entity = Entity {
            id,
            name: String::from_str(name),
            parent,
            children: Vec::new(),
            x: match x { Some(v) => v, None => 0 },
            y: match y { Some(v) => v, None => 0 },
            z: 0,
            size_x: DEFAULT_SIZE,
            size_y: DEFAULT_SIZE,
            components: Vec::new(),
        };
        let ghost before = self.entities@;
        self.entities.push(Some(entity));
        self.entity_max = id;
        match parent {
            Some(p) => {
                match &mut self.entities[p] {
                    Some(pe) => {
                        pe.children.push(id);
                    },
                    None => {},
                }
            },
            None => {},
        }
        proof {
            lemma_insert_keeps_wf(before, self.entities@, id);
        }
        Ok(id)
    }

    /// Removes the entity `id` together with all its descendants, and takes
    /// `id` out of its parent's children. The other entities are left as they
    /// were. Returns the removed ids in increasing order, which lists every
    /// entity before its descendants. An `id` that is not live removes nothing.
    pub fn delete_entity(&mut self, id: EntityId) -> (removed: Vec<EntityId>)
        requires
            old(self).wf(),
        ensures
            final(self).wf(),
            final(self).max_id() == old(self).max_id(),
            final(self).system_count() == old(self).system_count(),
            final(self).slots().len() == old(self).slots().len(),
            forall|k: EntityId| #[trigger] final(self).live(k) <==> old(self).live(k) && !within(old(self).slots(), id as int, k as int),
            forall|k: EntityId| #[trigger] final(self).live(k) && !(old(self).live(id) && old(self).at(id).parent == Some(k))
                ==> final(self).at(k) == old(self).at(k),
            old(self).live(id) ==> (old(self).at(id).parent matches Some(p) ==> {
                &&& final(self).live(p)
                &&& final(self).at(p).children@ == old(self).at(p).children@.remove(old(self).at(p).children@.index_of(id))
                &&& same_but_children(final(self).at(p), old(self).at(p))
            }),
            old(self).live(id) ==> is_removal(old(self).slots(), final(self).slots(), id),
            forall|a: int, b: int| 0 <= a < b < removed@.len() ==> removed@[a] < removed@[b],
            forall|k: EntityId| #[trigger] removed@.contains(k) <==> within(old(self).slots(), id as int, k as int),
    {
        let mut removed: Vec<EntityId> = Vec::new();
        let ghost start = self.entities@;
        if !self.is_live(id) {
            proof {
                assert forall|k: EntityId| !within(start, id as int, k as int) by {
                    if within(start, id as int, k as int) {
                        lemma_within_bounds(start, id as int, k as int);
                    }
                }
            }
            return removed;
        }
        let parent = match &self.entities[id] {
            Some(e) => e.parent,
            None => None,
        };
        let n = self.entities.len();
        let mut j: usize = id;
        proof {
            assert forall|k: int| 0 <= k < j implies !within(start, id as int, k) by {
                if within(start, id as int, k) {
                    lemma_within_bounds(start, id as int, k);
                }
            }
        }
        while j < n
            invariant
                arena_wf(start),
                live_in(start, id as int),
                n == start.len(),
                self.entities@.len() == n,
                self.entity_max == old(self).entity_max,
                self.systems == old(self).systems,
                id <= j <= n,
                forall|k: int| 0 <= k < j ==> #[trigger] self.entities@[k] == (if within(start, id as int, k) { None::<Entity> } else { start[k] }),
                forall|k: int| j <= k < n ==> #[trigger] self.entities@[k] == start[k],
                forall|a: int, b: int| 0 <= a < b < removed@.len() ==> removed@[a] < removed@[b],
                forall|a: int| 0 <= a < removed@.len() ==> #[trigger] removed@[a] < j,
                forall|k: EntityId| #[trigger] removed@.contains(k) <==> k < j && within(start, id as int, k as int),
            decreases n - j,
        {
            let doomed = if j == id {
                true
            } else {
                match &self.entities[j] {
                    Some(e) => match e.parent {
                        Some(p) => p < j && self.entities[p].is_none(),
                        None => false,
                    },
                    None => false,
                }
            };
            proof {
                if live_in(start, j as int) {
                    assert(entity_wf(start, j as int));
                    if j != id {
                        if (start[j as int]->0).parent is Some {
                            let p = (start[j as int]->0).parent->0 as int;
                            assert(live_in(start, p));
                            assert(self.entities@[p] == (if within(start, id as int, p) { None::<Entity> } else { start[p] }));
                        }
                    }
                }
                assert(doomed == within(start, id as int, j as int));
            }
            let ghost prev = removed@;
            if doomed {
                self.entities.set(j, None);
                removed.push(j);
            }
            proof {
                assert forall|k: EntityId| #[trigger] removed@.contains(k) <==> k < j + 1 && within(start, id as int, k as int) by {
                    if doomed {
                        if removed@.contains(k) {
                            let w = choose|w: int| 0 <= w < removed@.len() && removed@[w] == k;
                            if w < prev.len() {
                                assert(prev[w] == k);
                                assert(prev.contains(k));
                            }
                        }
                        if k < j + 1 && within(start, id as int, k as int) {
                            if k == j {
                                assert(removed@[prev.len() as int] == k);
                            } else {
                                assert(prev.contains(k));
                                let w = choose|w: int| 0 <= w < prev.len() && prev[w] == k;
                                assert(removed@[w] == k);
                            }
                        }
                    }
                }
            }
            j += 1;
        }
        let ghost swept = self.entities@;
        match parent {
            Some(p) => {
                proof {
                    assert(entity_wf(start, id as int));
                    assert(!within(start, id as int, p as int)) by {
                        if within(start, id as int, p as int) {
                            lemma_within_bounds(start, id as int, p as int);
                        }
                    }
                    assert(swept[p as int] == start[p as int]);
                }
                match &mut self.entities[p] {
                    Some(pe) => {
                        let m = pe.children.len();
                        let mut w: usize = 0;
                        while w < m && pe.children[w] != id
                            invariant
                                m == pe.children@.len(),
                                w <= m,
                                pe.children@.contains(id),
                                forall|k: int| 0 <= k < w ==> pe.children@[k] != id,
                            decreases m - w,
                        {
                            w += 1;
                        }
                        proof {
                            let kids = pe.children@;
                            let at = kids.index_of(id);
                            assert(0 <= at < kids.len() && kids[at] == id);
                            assert(w < m);
                            assert(at == w);
                        }
                        pe.children.remove(w);
                    },
                    None => {},
                }
            },
            None => {},
        }
        proof {
            let after = self.entities@;
            lemma_delete_keeps_wf(start, after, id);
        }
        removed
    }

    /// The first child of `parent`, in the order of its children, that is
    /// named `name`; `None` when `parent` is not live or has no such child.
    pub fn find_first_child(&self, parent: EntityId, name: &str) -> (r: Option<EntityId>)
        ensures
            match r {
                Some(c) => self.live(parent) && exists|i: int|
                    #[trigger] first_named_at(self.slots(), self.at(parent).children@, name@, i)
                        && self.at(parent).children@[i] == c,
                None => !self.live(parent) || forall|k: int|
                    0 <= k < self.at(parent).children@.len()
                        ==> !has_name(self.slots(), #[trigger] self.at(parent).children@[k], name@),
            },
    {
        if !self.is_live(parent) {
            return None;
        }
        let wanted = String::from_str(name);
        match &self.entities[parent] {
            Some(pe) => {
                let n = pe.children.len();
                let mut i: usize = 0;
                while i < n
                    invariant
                        n == pe.children@.len(),
                        i <= n,
                        wanted@ == name@,
                        self.live(parent),
                        self.at(parent) == *pe,
                        forall|k: int| 0 <= k < i ==> !has_name(self.entities@, #[trigger] pe.children@[k], name@),
                    decreases n - i,
                {
                    let c = pe.children[i];
                    if c < self.entities.len() {
                        match &self.entities[c] {
                            Some(ce) => {
                                if ce.name == wanted {
                                    assert(first_named_at(self.slots(), pe.children@, name@, i as int));
                                    return Some(c);
                                }
                            },
                            None => {},
                        }
                    }
                    i += 1;
                }
                None
            },
            None => None,
        }
    }

    /// The world position of a live entity, within the bounds that its depth
    /// in the hierarchy allows.
    pub(crate) fn world_of(&self, id: EntityId) -> (r: (i128, i128))
        requires
            self.live(id),
        ensures
            r.0 == world_x(self.slots(), id as int),
            r.1 == world_y(self.slots(), id as int),
            -(id + 1) * 0x8000_0000 <= r.0 <= (id + 1) * 0x8000_0000,
            -(id + 1) * 0x8000_0000 <= r.1 <= (id + 1) * 0x8000_0000,
    {
        let mut cur: usize = id;
        let mut tx: i128 = 0;
        let mut ty: i128 = 0;
        let mut done = false;
        while !done
            invariant
                cur <= id,
                self.live(cur),
                !done ==> tx + world_x(self.slots(), cur as int) == world_x(self.slots(), id as int),
                !done ==> ty + world_y(self.slots(), cur as int) == world_y(self.slots(), id as int),
                !done ==> -(id - cur) * 0x8000_0000 <= tx <= (id - cur) * 0x8000_0000,
                !done ==> -(id - cur) * 0x8000_0000 <= ty <= (id - cur) * 0x8000_0000,
                done ==> tx == world_x(self.slots(), id as int),
                done ==> ty == world_y(self.slots(), id as int),
                done ==> -(id + 1) * 0x8000_0000 <= tx <= (id + 1) * 0x8000_0000,
                done ==> -(id + 1) * 0x8000_0000 <= ty <= (id + 1) * 0x8000_0000,
            decreases (if done { 0int } else { cur + 1 }),
        {
            match &self.entities[cur] {
                Some(e) => {
                    tx = tx + e.x as i128;
                    ty = ty + e.y as i128;
                    match e.parent {
                        Some(p) => {
                            if p < cur && self.is_live(p) {
                                cur = p;
                            } else {
                                proof {
                                    if p < cur {
                                        assert(world_x(self.slots(), p as int) == 0);
                                        assert(world_y(self.slots(), p as int) == 0);
                                    }
                                }
                                done = true;
                            }
                        },
                        None => {
                            done = true;
                        },
                    }
                },
                None => {
                    done = true;
                },
            }
        }
        (tx, ty)
    }

    /// Whether some two different entities among `ids` overlap, each taken as
    /// the box at its world position with its extent. A listed id that is not
    /// live is refused.
    pub fn do_they_overlap(&self, ids: &Vec<EntityId>) -> (r: Result<bool, SceneError>)
        ensures
            (exists|i: int| 0 <= i < ids@.len() && !self.live(#[trigger] ids@[i]))
                ==> r == Err::<bool, SceneError>(SceneError::NoSuchEntity),
            (forall|i: int| 0 <= i < ids@.len() ==> self.live(#[trigger] ids@[i]))
                ==> r == Ok::<bool, SceneError>(any_overlap(self.slots(), ids@)),
    {
        let n = ids.len();
        let mut boxes: Vec<(i128, i128, i32, i32)> = Vec::new();
        let mut i: usize = 0;
        while i < n
            invariant
                n == ids@.len(),
                i <= n,
                boxes@.len() == i,
                forall|k: int| 0 <= k < i ==> self.live(#[trigger] ids@[k]),
                forall|k: int| 0 <= k < i ==> box_of(self.slots(), ids@[k], #[trigger] boxes@[k]),
            decreases n - i,
        {
            let id = ids[i];
            if !self.is_live(id) {
                return Err(SceneError::NoSuchEntity);
            }
            let (x, y) = self.world_of(id);
            match &self.entities[id] {
                Some(e) => {
                    boxes.push((x, y, e.size_x, e.size_y));
                },
                None => {},
            }
            i += 1;
        }
        let mut a: usize = 0;
        while a < n
            invariant
                n == ids@.len(),
                boxes@.len() == n,
                a <= n,
                forall|k: int| 0 <= k < n ==> self.live(#[trigger] ids@[k]),
                forall|k: int| 0 <= k < n ==> box_of(self.slots(), ids@[k], #[trigger] boxes@[k]),
                forall|u: int, v: int| 0 <= u < a && 0 <= v < n && ids@[u] != ids@[v]
                    ==> !boxes_overlap(#[trigger] world_box(self.slots(), ids@[u]), #[trigger] world_box(self.slots(), ids@[v])),
            decreases n - a,
        {
            let mut b: usize = 0;
            while b < n
                invariant
                    n == ids@.len(),
                    boxes@.len() == n,
                    a < n,
                    b <= n,
                    forall|k: int| 0 <= k < n ==> self.live(#[trigger] ids@[k]),
                    forall|k: int| 0 <= k < n ==> box_of(self.slots(), ids@[k], #[trigger] boxes@[k]),
                    forall|v: int| 0 <= v < b && ids@[a as int] != ids@[v]
                        ==> !boxes_overlap(world_box(self.slots(), ids@[a as int]), #[trigger] world_box(self.slots(), ids@[v])),
                decreases n - b,
            {
                if ids[a] != ids[b] {
                    let p = boxes[a];
                    let q = boxes[b];
                    assert(box_of(self.slots(), ids@[a as int], boxes@[a as int]));
                    assert(box_of(self.slots(), ids@[b as int], boxes@[b as int]));
                    if p.0 < q.0 + q.2 as i128 && p.0 + p.2 as i128 > q.0 && p.1 < q.1 + q.3 as i128 && p.1 + p.3 as i128 > q.1 {
                        assert(boxes_overlap(world_box(self.slots(), ids@[a as int]), world_box(self.slots(), ids@[b as int])));
                        return Ok(true);
                    }
                }
                b += 1;
            }
            a += 1;
        }
        Ok(false)
    }

    /// The depth of the live entity `id`.
    fn depth_of(&self, id: EntityId) -> (z: i64)
        requires
            self.live(id),
        ensures
            z == self.at(id).z,
    {
        match &self.entities[id] {
            Some(e) => e.z,
            None => 0,
        }
    }

    /// The live entities in the order in which a frame visits them: by
    /// increasing depth, and among entities of one depth by increasing id.
    pub fn depth_order(&self) -> (order: Vec<EntityId>)
        ensures
            is_depth_order(self.slots(), order@),
            order@ == depth_order_of(self.slots()),
    {
        let mut order: Vec<EntityId> = Vec::new();
        let n = self.entities.len();
        let mut j: usize = 0;
        while j < n
            invariant
                n == self.entities@.len(),
                j <= n,
                depth_sorted(self.slots(), order@),
                forall|i: int| 0 <= i < order@.len() ==> #[trigger] order@[i] < j,
                forall|id: EntityId| id < j && live_in(self.slots(), id as int) ==> #[trigger] order@.contains(id),
            decreases n - j,
        {
            if self.entities[j].is_some() {
                let z = self.depth_of(j);
                let mut pos: usize = order.len();
                while pos > 0 && self.depth_of(order[pos - 1]) > z
                    invariant
                        pos <= order@.len(),
                        self.live(j),
                        z == self.at(j).z,
                        depth_sorted(self.slots(), order@),
                        forall|i: int| pos <= i < order@.len() ==> self.at(#[trigger] order@[i]).z > z,
                    decreases pos,
                {
                    pos -= 1;
                }
                let ghost prev = order@;
                order.insert(pos, j);
                proof {
                    let next = order@;
                    assert(next.len() == prev.len() + 1);
                    assert forall|i: int| 0 <= i < next.len() implies live_in(self.slots(), #[trigger] next[i] as int) && next[i] < j + 1 by {
                        if i < pos {
                            assert(next[i] == prev[i]);
                        } else if i > pos {
                            assert(next[i] == prev[i - 1]);
                        }
                    }
                    assert forall|a: int, b: int| 0 <= a < b < next.len() implies before_in_depth(self.slots(), #[trigger] next[a], #[trigger] next[b]) by {
                        if b < pos {
                            assert(next[a] == prev[a] && next[b] == prev[b]);
                        } else if b == pos {
                            assert(next[a] == prev[a]);
                            assert(prev[a] < j);
                            if pos > 0 {
                                assert(self.at(prev[pos - 1]).z <= z);
                                if a < pos - 1 {
                                    assert(before_in_depth(self.slots(), prev[a], prev[pos - 1]));
                                }
                            }
                        } else if a < pos {
                            assert(next[a] == prev[a] && next[b] == prev[b - 1]);
                        } else if a == pos {
                            assert(next[b] == prev[b - 1]);
                        } else {
                            assert(next[a] == prev[a - 1] && next[b] == prev[b - 1]);
                        }
                    }
                    assert forall|id: EntityId| id < j + 1 && live_in(self.slots(), id as int) implies #[trigger] next.contains(id) by {
                        if id == j {
                            assert(next[pos as int] == id);
                        } else {
                            assert(prev.contains(id));
                            let i = choose|i: int| 0 <= i < prev.len() && prev[i] == id;
                            if i < pos {
                                assert(next[i] == id);
                            } else {
                                assert(next[i + 1] == id);
                            }
                        }
                    }
                }
            }
            j += 1;
        }
        proof {
            lemma_depth_order_unique(self.slots(), order@);
        }
        order
    }

    /// Creates a copy of the live entity `source` under `new_parent`: the copy
    /// has a fresh id, the name, placement and extent of `source`, a copy of
    /// each of its components, bound to the copy, and no children, whatever
    /// `source` has. The caller runs the initialization callback of each
    /// copied component that has one. Refused, with nothing changed, when
    /// `source` or `new_parent` is not live.
    pub fn duplicate_entity(&mut self, source: EntityId, new_parent: EntityId) -> (r: Result<EntityId, SceneError>)
        requires
            old(self).wf(),
            old(self).max_id() + 2 <= usize::MAX,
        ensures
            final(self).wf(),
            final(self).system_count() == old(self).system_count(),
            !(old(self).live(source) && old(self).live(new_parent)) ==> r == Err::<EntityId, SceneError>(SceneError::NoSuchEntity)
                && *final(self) == *old(self),
            old(self).live(source) && old(self).live(new_parent) ==> {
                let id = (old(self).max_id() + 1) as usize;
                let e = final(self).at(id);
                let src = old(self).at(source);
                &&& r == Ok::<EntityId, SceneError>(id)
                &&& final(self).max_id() == id
                &&& final(self).slots().len() == old(self).slots().len() + 1
                &&& final(self).live(id)
                &&& e.id == id
                &&& e.name@ == src.name@
                &&& e.parent == Some(new_parent)
                &&& e.children@.len() == 0
                &&& rebound(e.components@, src.components@, id)
                &&& (e.x, e.y, e.z) == (src.x, src.y, src.z)
                &&& (e.size_x, e.size_y) == (src.size_x, src.size_y)
                &&& forall|k: EntityId| k < old(self).slots().len() && k != new_parent
                        ==> #[trigger] final(self).slots()[k as int] == old(self).slots()[k as int]
                &&& final(self).live(new_parent)
                &&& final(self).at(new_parent).children@ == old(self).at(new_parent).children@.push(id)
                &&& same_but_children(final(self).at(new_parent), old(self).at(new_parent))
            },
    {
        if !self.is_live(source) || !self.is_live(new_parent) {
            return Err(SceneError::NoSuchEntity);
        }
        let id = self.entity_max + 1;
        let entity = match &self.entities[source] {
            Some(src) => {
                let mut components: Vec<Component> = Vec::new();
                let n = src.components.len();
                let mut i: usize = 0;
                while i < n
                    invariant
                        n == src.components@.len(),
                        i <= n,
                        rebound(components@, src.components@.take(i as int), id),
                    decreases n - i,
                {
                    components.push(bind(&src.components[i], id));
                    i += 1;
                }
                assert(src.components@.take(n as int) =~= src.components@);
                Entity {
                    id,
                    name: src.name.clone(),
                    parent: Some(new_parent),
                    children: Vec::new(),
                    x: src.x,
                    y: src.y,
                    z: src.z,
                    size_x: src.size_x,
                    size_y: src.size_y,
                    components,
                }
            },
            None => {
                return Err(SceneError::NoSuchEntity);
            },
        };
        let ghost before = self.entities@;
        self.entities.push(Some(entity));
        self.entity_max = id;
        match &mut self.entities[new_parent] {
            Some(pe) => {
                pe.children.push(id);
            },
            None => {},
        }
        proof {
            lemma_insert_keeps_wf(before, self.entities@, id);
        }
        Ok(id)
    }

    /// Makes the instance of `template` that is to be attached to `entity`: a
    /// copy bound to that entity. The caller runs its initialization callback
    /// and then hands it to [`Runtime::add_component`]. Refused when `entity`
    /// is not live, and when the template has no initialization callback.
    pub fn prepare_component(&self, entity: EntityId, template: &Component) -> (r: Result<Component, SceneError>)
        ensures
            !self.live(entity) ==> r is Err && r->Err_0 == SceneError::NoSuchEntity,
            self.live(entity) && !template.has_awake ==> r is Err && r->Err_0 == SceneError::NoAwake,
            self.live(entity) && template.has_awake ==> (r matches Ok(c) && same_component(c, *template)
                && c.entity == Some(entity)),
    {
        if !self.is_live(entity) {
            return Err(SceneError::NoSuchEntity);
        }
        if !template.has_awake {
            return Err(SceneError::NoAwake);
        }
        Ok(bind(template, entity))
    }

    /// Appends `instance`, bound to `entity`, to the components of `entity`
    /// and returns its position in that list. Refused, with nothing changed,
    /// when `entity` is not live, and when the instance has no initialization
    /// callback.
    pub fn add_component(&mut self, entity: EntityId, instance: Component) -> (r: Result<usize, SceneError>)
        requires
            old(self).wf(),
        ensures
            final(self).wf(),
            final(self).max_id() == old(self).max_id(),
            final(self).system_count() == old(self).system_count(),
            final(self).slots().len() == old(self).slots().len(),
            forall|k: EntityId| k < old(self).slots().len() && k != entity
                ==> #[trigger] final(self).slots()[k as int] == old(self).slots()[k as int],
            !old(self).live(entity) ==> r == Err::<usize, SceneError>(SceneError::NoSuchEntity) && *final(self) == *old(self),
            old(self).live(entity) && !instance.has_awake ==> r == Err::<usize, SceneError>(SceneError::NoAwake)
                && *final(self) == *old(self),
            old(self).live(entity) && instance.has_awake ==> {
                let e = final(self).at(entity);
                let b = old(self).at(entity);
                &&& r == Ok::<usize, SceneError>(b.components@.len() as usize)
                &&& final(self).live(entity)
                &&& e.components@.len() == b.components@.len() + 1
                &&& e.components@.take(b.components@.len() as int) == b.components@
                &&& same_component(e.components@.last(), instance)
                &&& e.components@.last().entity == Some(entity)
                &&& same_but_components(e, b)
            },
    {
        if !self.is_live(entity) {
            return Err(SceneError::NoSuchEntity);
        }
        if !instance.has_awake {
            return Err(SceneError::NoAwake);
        }
        let ghost before = self.entities@;
        let mut instance = instance;
        instance.entity = Some(entity);
        let mut at: usize = 0;
        match &mut self.entities[entity] {
            Some(e) => {
                at = e.components.len();
                e.components.push(instance);
            },
            None => {},
        }
        proof {
            let e = self.entities@[entity as int]->0;
            let b = before[entity as int]->0;
            assert(entity_wf(before, entity as int));
            assert(e.components@.take(b.components@.len() as int) =~= b.components@);
            assert forall|k: int| 0 <= k < e.components@.len() implies (#[trigger] e.components@[k]).entity == Some(entity) by {
                if k < b.components@.len() {
                    assert(e.components@[k] == b.components@[k]);
                }
            }
            lemma_update_keeps_wf(before, self.entities@, entity);
        }
        Ok(at)
    }

    /// Registers one more system and returns its position in the order of
    /// registration, which is the order in which a frame runs the systems.
    pub fn add_system(&mut self) -> (r: usize)
        requires
            old(self).system_count() < usize::MAX,
        ensures
            r == old(self).system_count(),
            final(self).system_count() == old(self).system_count() + 1,
            final(self).slots() == old(self).slots(),
            final(self).max_id() == old(self).max_id(),
    {
        let at = self.systems;
        self.systems = at + 1;
        at
    }

    /// The number of registered systems.
    pub fn systems(&self) -> (r: usize)
        ensures
            r == self.system_count(),
    {
        self.systems
    }

    /// Moves the live entity `id` to the local position (`x`, `y`).
    pub fn set_position(&mut self, id: EntityId, x: i32, y: i32) -> (r: Result<(), SceneError>)
        requires
            old(self).wf(),
        ensures
            final(self).wf(),
            final(self).max_id() == old(self).max_id(),
            final(self).system_count() == old(self).system_count(),
            final(self).slots().len() == old(self).slots().len(),
            forall|k: EntityId| k < old(self).slots().len() && k != id
                ==> #[trigger] final(self).slots()[k as int] == old(self).slots()[k as int],
            !old(self).live(id) ==> r == Err::<(), SceneError>(SceneError::NoSuchEntity) && *final(self) == *old(self),
            old(self).live(id) ==> r is Ok && final(self).live(id)
                && final(self).at(id) == (Entity { x, y, ..old(self).at(id) }),
    {
        if !self.is_live(id) {
            return Err(SceneError::NoSuchEntity);
        }
        let ghost before = self.entities@;
        match &mut self.entities[id] {
            Some(e) => {
                e.x = x;
                e.y = y;
            },
            None => {},
        }
        proof {
            assert(entity_wf(before, id as int));
            lemma_update_keeps_wf(before, self.entities@, id);
        }
        Ok(())
    }

    /// Gives the live entity `id` the name `name`.
    pub fn set_name(&mut self, id: EntityId, name: &str) -> (r: Result<(), SceneError>)
        requires
            old(self).wf(),
        ensures
            final(self).wf(),
            final(self).max_id() == old(self).max_id(),
            final(self).system_count() == old(self).system_count(),
            final(self).slots().len() == old(self).slots().len(),
            forall|k: EntityId| k < old(self).slots().len() && k != id
                ==> #[trigger] final(self).slots()[k as int] == old(self).slots()[k as int],
            !old(self).live(id) ==> r == Err::<(), SceneError>(SceneError::NoSuchEntity) && *final(self) == *old(self),
            old(self).live(id) ==> r is Ok && final(self).live(id) && final(self).at(id).name@ == name@
                && same_but_name(final(self).at(id), old(self).at(id)),
    {
        if !self.is_live(id) {
            return Err(SceneError::NoSuchEntity);
        }
        let ghost before = self.entities@;
        match &mut self.entities[id] {
            Some(e) => {
                e.name = String::from_str(name);
            },
            None => {},
        }
        proof {
            assert(entity_wf(before, id as int));
            lemma_update_keeps_wf(before, self.entities@, id);
        }
        Ok(())
    }

    /// Sets the depth of the live entity `id`; a frame visits entities in
    /// increasing depth.
    pub fn set_depth(&mut self, id: EntityId, z: i64) -> (r: Result<(), SceneError>)
        requires
            old(self).wf(),
        ensures
            final(self).wf(),
            final(self).max_id() == old(self).max_id(),
            final(self).system_count() == old(self).system_count(),
            final(self).slots().len() == old(self).slots().len(),
            forall|k: EntityId| k < old(self).slots().len() && k != id
                ==> #[trigger] final(self).slots()[k as int] == old(self).slots()[k as int],
            !old(self).live(id) ==> r == Err::<(), SceneError>(SceneError::NoSuchEntity) && *final(self) == *old(self),
            old(self).live(id) ==> r is Ok && final(self).live(id)
                && final(self).at(id) == (Entity { z, ..old(self).at(id) }),
    {
        if !self.is_live(id) {
            return Err(SceneError::NoSuchEntity);
        }
        let ghost before = self.entities@;
        match &mut self.entities[id] {
            Some(e) => {
                e.z = z;
            },
            None => {},
        }
        proof {
            assert(entity_wf(before, id as int));
            lemma_update_keeps_wf(before, self.entities@, id);
        }
        Ok(())
    }

    /// Sets the extent of the live entity `id`.
    pub fn set_size(&mut self, id: EntityId, size_x: i32, size_y: i32) -> (r: Result<(), SceneError>)
        requires
            old(self).wf(),
        ensures
            final(self).wf(),
            final(self).max_id() == old(self).max_id(),
            final(self).system_count() == old(self).system_count(),
            final(self).slots().len() == old(self).slots().len(),
            forall|k: EntityId| k < old(self).slots().len() && k != id
                ==> #[trigger] final(self).slots()[k as int] == old(self).slots()[k as int],
            !old(self).live(id) ==> r == Err::<(), SceneError>(SceneError::NoSuchEntity) && *final(self) == *old(self),
            old(self).live(id) ==> r is Ok && final(self).live(id)
                && final(self).at(id) == (Entity { size_x, size_y, ..old(self).at(id) }),
    {
        if !self.is_live(id) {
            return Err(SceneError::NoSuchEntity);
        }
        let ghost before = self.entities@;
        match &mut self.entities[id] {
            Some(e) => {
                e.size_x = size_x;
                e.size_y = size_y;
            },
            None => {},
        }
        proof {
            assert(entity_wf(before, id as int));
            lemma_update_keeps_wf(before, self.entities@, id);
        }
        Ok(())
    }
}

/// The absolute position of an entity: the sum of its local position and
/// those of all its ancestors, as they are now. `None` when `id` is not live.
pub fn get_global_position(scene: &Runtime, id: EntityId) -> (r: Option<(i128, i128)>)
    ensures
        scene.live(id) ==> (r matches Some(at) && at.0 == world_x(scene.slots(), id as int)
            && at.1 == world_y(scene.slots(), id as int)),
        !scene.live(id) ==> r is None,
{
    if scene.is_live(id) {
        Some(scene.world_of(id))
    } else {
        None
    }
}

/// Two entities agree on everything but their names.
pub open spec fn same_but_name(a: Entity, b: Entity) -> bool {
    &&& a.id == b.id
    &&& a.parent == b.parent
    &&& a.children == b.children
    &&& a.x == b.x
    &&& a.y == b.y
    &&& a.z == b.z
    &&& a.size_x == b.size_x
    &&& a.size_y == b.size_y
    &&& a.components == b.components
}

/// Two entities agree on everything but their lists of components.
pub open spec fn same_but_components(a: Entity, b: Entity) -> bool {
    &&& a.id == b.id
    &&& a.name == b.name
    &&& a.parent == b.parent
    &&& a.children == b.children
    &&& a.x == b.x
    &&& a.y == b.y
    &&& a.z == b.z
    &&& a.size_x == b.size_x
    &&& a.size_y == b.size_y
}

/// Two entities agree on everything but their lists of children.
pub open spec fn same_but_children(a: Entity, b: Entity) -> bool {
    &&& a.id == b.id
    &&& a.name == b.name
    &&& a.parent == b.parent
    &&& a.x == b.x
    &&& a.y == b.y
    &&& a.z == b.z
    &&& a.size_x == b.size_x
    &&& a.size_y == b.size_y
    &&& a.components == b.components
}

/// `parent` names slot `k`.
pub open spec fn names(parent: Option<EntityId>, k: int) -> bool {
    parent matches Some(p) && p as int == k
}

/// What creation leaves behind: `after` is `before` with one more slot, which
/// holds the childless entity `id`, appended to the children of its parent.
pub open spec fn is_insertion(before: Seq<Option<Entity>>, after: Seq<Option<Entity>>, id: EntityId) -> bool {
    let e = after[id as int]->0;
    &&& id as int == before.len()
    &&& after.len() == before.len() + 1
    &&& after[id as int] is Some
    &&& e.id == id
    &&& e.children@.len() == 0
    &&& (forall|k: int| 0 <= k < e.components@.len() ==> (#[trigger] e.components@[k]).entity == Some(id))
    &&& (forall|k: int| 0 <= k < before.len() && !names(e.parent, k) ==> #[trigger] after[k] == before[k])
    &&& (e.parent matches Some(p) ==> {
        &&& live_in(before, p as int)
        &&& after[p as int] is Some
        &&& (after[p as int]->0).children@ == (before[p as int]->0).children@.push(id)
        &&& same_but_children(after[p as int]->0, before[p as int]->0)
    })
}

/// Creation of an entity keeps the arena well linked.
pub proof fn lemma_insert_keeps_wf(before: Seq<Option<Entity>>, after: Seq<Option<Entity>>, id: EntityId)
    requires
        arena_wf(before),
        is_insertion(before, after, id),
    ensures
        arena_wf(after),
{
    let parent = (after[id as int]->0).parent;
    assert forall|j: int| #[trigger] live_in(after, j) implies entity_wf(after, j) by {
        let e = after[j]->0;
        if j < before.len() {
            if !names(parent, j) {
                assert(after[j] == before[j]);
            }
            assert(live_in(before, j));
            assert(entity_wf(before, j));
            let b = before[j]->0;
            assert(same_but_children(e, b));
            if e.parent is Some {
                let q = e.parent->0 as int;
                assert(live_in(before, q));
                let qk = (before[q]->0).children@;
                let w = choose|w: int| 0 <= w < qk.len() && qk[w] == j as usize;
                if names(parent, q) {
                    assert(qk.push(id)[w] == j as usize);
                } else {
                    assert(after[q] == before[q]);
                }
                assert((after[q]->0).children@[w] == j as usize);
            }
            assert forall|k: int| 0 <= k < b.children@.len() implies b.children@[k] != id && child_wf(after, j, #[trigger] b.children@[k]) by {
                assert(child_wf(before, j, b.children@[k]));
                let c = b.children@[k] as int;
                if names(parent, c) {
                    assert(same_but_children(after[c]->0, before[c]->0));
                } else {
                    assert(after[c] == before[c]);
                }
            }
            if names(parent, j) {
                let nk = b.children@.push(id);
                assert(e.children@ == nk);
                assert forall|k: int| 0 <= k < nk.len() implies child_wf(after, j, #[trigger] nk[k]) by {
                    if k < b.children@.len() {
                        assert(nk[k] == b.children@[k]);
                    }
                }
                assert(nk.no_duplicates()) by {
                    assert forall|x: int, y: int| 0 <= x < nk.len() && 0 <= y < nk.len() && x != y implies nk[x] != nk[y] by {
                        if x < b.children@.len() {
                            assert(nk[x] == b.children@[x]);
                        }
                        if y < b.children@.len() {
                            assert(nk[y] == b.children@[y]);
                        }
                    }
                }
            } else {
                assert(e == b);
            }
        } else {
            if parent is Some {
                let q = parent->0 as int;
                assert((after[q]->0).children@.last() == id);
            }
        }
    }
}

/// An entity was altered in place without touching its id or its links, and
/// with its components still bound to it; the arena stays well linked.
pub proof fn lemma_update_keeps_wf(before: Seq<Option<Entity>>, after: Seq<Option<Entity>>, id: EntityId)
    requires
        arena_wf(before),
        live_in(before, id as int),
        after.len() == before.len(),
        forall|k: int| 0 <= k < before.len() && k != id as int ==> #[trigger] after[k] == before[k],
        after[id as int] is Some,
        (after[id as int]->0).id == id,
        (after[id as int]->0).parent == (before[id as int]->0).parent,
        (after[id as int]->0).children == (before[id as int]->0).children,
        forall|k: int| 0 <= k < (after[id as int]->0).components@.len()
            ==> (#[trigger] (after[id as int]->0).components@[k]).entity == Some(id),
    ensures
        arena_wf(after),
{
    assert forall|j: int| #[trigger] live_in(after, j) implies entity_wf(after, j) by {
        assert(live_in(before, j));
        assert(entity_wf(before, j));
        let e = after[j]->0;
        let b = before[j]->0;
        if e.parent is Some {
            let q = e.parent->0 as int;
            assert(live_in(before, q));
            assert((after[q]->0).children == (before[q]->0).children);
        }
        assert forall|k: int| 0 <= k < e.children@.len() implies child_wf(after, j, #[trigger] e.children@[k]) by {
            assert(child_wf(before, j, b.children@[k]));
        }
    }
}

/// What removal leaves behind: `after` is `before` without the subtree of
/// `top`, and with `top` taken out of its parent's children.
pub open spec fn is_removal(before: Seq<Option<Entity>>, after: Seq<Option<Entity>>, top: EntityId) -> bool {
    let parent = (before[top as int]->0).parent;
    &&& live_in(before, top as int)
    &&& after.len() == before.len()
    &&& (forall|k: int| 0 <= k < before.len() && within(before, top as int, k) ==> #[trigger] after[k] is None)
    &&& (forall|k: int| 0 <= k < before.len() && !within(before, top as int, k) && !names(parent, k)
            ==> #[trigger] after[k] == before[k])
    &&& (parent matches Some(p) ==> {
        let kids = (before[p as int]->0).children@;
        &&& after[p as int] is Some
        &&& (after[p as int]->0).children@ == kids.remove(kids.index_of(top))
        &&& same_but_children(after[p as int]->0, before[p as int]->0)
    })
}

/// Removal of a subtree keeps the arena well linked.
pub proof fn lemma_delete_keeps_wf(before: Seq<Option<Entity>>, after: Seq<Option<Entity>>, top: EntityId)
    requires
        arena_wf(before),
        is_removal(before, after, top),
    ensures
        arena_wf(after),
{
    let parent = (before[top as int]->0).parent;
    assert(entity_wf(before, top as int));
    assert forall|j: int| #[trigger] live_in(after, j) implies entity_wf(after, j) by {
        if within(before, top as int, j) {
            assert(after[j] is None);
        }
        assert(!within(before, top as int, j));
        if names(parent, j) {
            assert(live_in(before, j));
        } else {
            assert(after[j] == before[j]);
        }
        assert(live_in(before, j));
        assert(entity_wf(before, j));
        let e = after[j]->0;
        let b = before[j]->0;
        assert(same_but_children(e, b));
        if e.parent is Some {
            let q = e.parent->0 as int;
            assert(live_in(before, q));
            assert(!within(before, top as int, q));
            let qk = (before[q]->0).children@;
            let w = choose|w: int| 0 <= w < qk.len() && qk[w] == j as usize;
            if names(parent, q) {
                let at = qk.index_of(top);
                assert(qk.contains(top));
                assert(0 <= at < qk.len() && qk[at] == top);
                assert(j != top as int);
                assert(w != at);
                let nk = qk.remove(at);
                if w < at {
                    assert(nk[w] == j as usize);
                } else {
                    assert(nk[w - 1] == j as usize);
                }
                assert(nk.contains(j as usize));
                assert(live_in(after, q));
            } else {
                assert(after[q] == before[q]);
                assert((after[q]->0).children@[w] == j as usize);
            }
        }
        if names(parent, j) {
            let kids = b.children@;
            let at = kids.index_of(top);
            assert(kids.contains(top));
            assert(0 <= at < kids.len() && kids[at] == top);
            let nk = kids.remove(at);
            assert(e.children@ == nk);
            assert forall|k: int| 0 <= k < nk.len() implies child_wf(after, j, #[trigger] nk[k]) by {
                let src = if k < at { k } else { k + 1 };
                assert(nk[k] == kids[src]);
                assert(child_wf(before, j, kids[src]));
                let c = kids[src] as int;
                assert(c != top as int);
                assert(!within(before, top as int, c));
                assert(!names(parent, c));
                assert(after[c] == before[c]);
            }
            assert(nk.no_duplicates()) by {
                assert forall|x: int, y: int| 0 <= x < nk.len() && 0 <= y < nk.len() && x != y implies nk[x] != nk[y] by {
                    let sx = if x < at { x } else { x + 1 };
                    let sy = if y < at { y } else { y + 1 };
                    assert(nk[x] == kids[sx]);
                    assert(nk[y] == kids[sy]);
                }
            }
        } else {
            assert(e == b);
            assert forall|k: int| 0 <= k < e.children@.len() implies child_wf(after, j, #[trigger] e.children@[k]) by {
                assert(child_wf(before, j, b.children@[k]));
                let c = b.children@[k] as int;
                assert(c != top as int);
                assert(!within(before, top as int, c));
                if names(parent, c) {
                    assert(same_but_children(after[c]->0, before[c]->0));
                } else {
                    assert(after[c] == before[c]);
                }
            }
        }
    }
}

/// After a removal no search among children finds a removed entity: whatever
/// is found by name under any entity is live, and so neither the removed
/// entity nor one of its descendants.
pub proof fn lemma_removed_is_not_found(
    before: Seq<Option<Entity>>,
    after: Seq<Option<Entity>>,
    top: EntityId,
    kids: Seq<EntityId>,
    name: Seq<char>,
    i: int,
)
    requires
        arena_wf(before),
        is_removal(before, after, top),
        first_named_at(after, kids, name, i),
    ensures
        live_in(after, kids[i] as int),
        kids[i] != top,
        !within(before, top as int, kids[i] as int),
{
    let found = kids[i] as int;
    assert(has_name(after, kids[i], name));
    if within(before, top as int, found) {
        lemma_within_bounds(before, top as int, found);
        assert(after[found] is None);
    }
}

} // verus!
