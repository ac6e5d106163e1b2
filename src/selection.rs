//! The selection state machine: a press anchors a session on the picked point, a
//! drag grows a marquee, and the release resolves either a single click or every
//! selectable object inside the marquee.
use vstd::prelude::*;
use crate::geometry::{contains, outline_of, marquee_outline, rectangle, span_of, strictly_inside, Rect2D, WorldPoint};
use crate::picking::{ObjectHandle, PickResult};

verus! {

/// Identifier of a visual (a marquee outline, a selection indicator) that the
/// rendering side spawned.
#[derive(Clone, Copy, Debug, PartialEq, Eq, Hash, Structural)]
pub struct VisualHandle {
    pub id: u64,
}

/// Where a selection session stands.
#[derive(Clone, Copy, Debug, PartialEq, Eq, Structural)]
pub enum Phase {
    /// No session is open.
    Idle,
    /// The pointer went down on a world point and has not moved off it; the flag
    /// says whether the session started on a selectable object.
    Anchored { has_object: bool },
    /// The pointer has moved off the anchor; a marquee is shown.
    Dragging,
    /// A release passes through this phase within the call that handles it; a
    /// session between ticks is never in it.
    Resolving,
}

/// The working state of the one selection session.
#[derive(Clone, Copy, Debug, PartialEq, Eq, Structural)]
pub struct Selecting {
    pub phase: Phase,
    pub anchor_object: Option<ObjectHandle>,
    pub anchor_point: WorldPoint,
    pub current_point: WorldPoint,
    pub marquee_visual: Option<VisualHandle>,
}

/// A selectable object of the world, with its current position.
#[derive(Clone, Copy, Debug, PartialEq, Eq, Structural)]
pub struct Selectable {
    pub handle: ObjectHandle,
    pub position: WorldPoint,
}

/// A selected object, with the indicator shown on it once one is attached.
#[derive(Clone, Copy, Debug, PartialEq, Eq, Structural)]
pub struct SelectedUnit {
    pub unit: ObjectHandle,
    pub indicator: Option<VisualHandle>,
}

/// The objects currently selected, in the order they were selected.
#[derive(Debug)]
pub struct SelectedSet {
    pub units: Vec<SelectedUnit>,
}

/// The state of the primary pointer button this tick.
#[derive(Clone, Copy, Debug, PartialEq, Eq, Structural)]
pub struct PointerButton {
    pub just_pressed: bool,
    pub pressed: bool,
    pub just_released: bool,
}

/// Everything the state machine learns in one tick: the button, the pick at the
/// pointer (absent when nothing was struck or no ray could be derived), whether the
/// preserve-selection modifier is held, and a visual the rendering side has set
/// aside in case a marquee must be spawned.
#[derive(Clone, Copy, Debug, PartialEq, Eq, Structural)]
pub struct SelectionInput {
    pub button: PointerButton,
    pub pick: Option<PickResult>,
    pub preserve: bool,
    pub spare_visual: VisualHandle,
}

/// What to do with the marquee visual this tick.
#[derive(Clone, Copy, Debug, PartialEq, Eq, Structural)]
pub enum MarqueeCommand {
    Keep,
    /// Spawn the marquee under the spare visual of the input.
    Spawn(VisualHandle),
    Despawn(VisualHandle),
}

/// What the rendering side has to do after a tick: the marquee command, the
/// entries that left the selection (their indicators are to be despawned), and the
/// objects that joined it (each wants an indicator).
#[derive(Debug)]
pub struct SelectionEffects {
    pub marquee: MarqueeCommand,
    pub deselected: Vec<SelectedUnit>,
    pub newly_selected: Vec<ObjectHandle>,
}

/// The marquee visual and the outline it is to show.
#[derive(Debug)]
pub struct MarqueeOutline {
    pub visual: VisualHandle,
    pub points: Vec<WorldPoint>,
}

pub open spec fn origin() -> WorldPoint {
    WorldPoint { x: 0, y: 0, z: 0 }
}

/// The session at rest, with empty fields.
pub open spec fn idle_session() -> Selecting {
    Selecting {
        phase: Phase::Idle,
        anchor_object: None,
        anchor_point: origin(),
        current_point: origin(),
        marquee_visual: None,
    }
}

impl Selecting {
    /// The session's fields agree with its phase.
    pub open spec fn wf(self) -> bool {
        match self.phase {
            Phase::Idle => self.anchor_object is None && self.marquee_visual is None,
            Phase::Anchored { has_object } => {
                &&& has_object == self.anchor_object is Some
                &&& self.marquee_visual is None
                &&& self.current_point == self.anchor_point
            },
            Phase::Dragging => self.marquee_visual is Some,
            Phase::Resolving => false,
        }
    }

    /// A session at rest.
    pub fn new() -> (r: Selecting)
        ensures
            r == idle_session(),
            r.wf(),
    {
        Selecting {
            phase: Phase::Idle,
            anchor_object: None,
            anchor_point: WorldPoint { x: 0, y: 0, z: 0 },
            current_point: WorldPoint { x: 0, y: 0, z: 0 },
            marquee_visual: None,
        }
    }
}

pub open spec fn has_unit(units: Seq<SelectedUnit>, h: ObjectHandle) -> bool {
    exists|i: int| 0 <= i < units.len() && (#[trigger] units[i]).unit == h
}

pub open spec fn distinct_units(units: Seq<SelectedUnit>) -> bool {
    forall|i: int, j: int|
        0 <= i < units.len() && 0 <= j < units.len() && i != j ==> (#[trigger] units[i]).unit
            != (#[trigger] units[j]).unit
}

impl SelectedSet {
    /// No object is selected twice.
    pub open spec fn wf(self) -> bool {
        distinct_units(self.units@)
    }

    /// The empty selection.
    pub fn new() -> (r: SelectedSet)
        ensures
            r.units@ == Seq::<SelectedUnit>::empty(),
            r.wf(),
    {
        SelectedSet { units: Vec::new() }
    }
}

pub open spec fn has_candidate(cands: Seq<Selectable>, h: ObjectHandle) -> bool {
    exists|i: int| 0 <= i < cands.len() && (#[trigger] cands[i]).handle == h
}

/// The object a session anchored on `object` records: the object itself when it
/// is selectable, else none.
pub open spec fn anchor_of(object: Option<ObjectHandle>, cands: Seq<Selectable>) -> Option<
    ObjectHandle,
> {
    match object {
        Some(h) => if has_candidate(cands, h) {
            Some(h)
        } else {
            None
        },
        None => None,
    }
}

/// The session that a press on `pick` opens.
pub open spec fn anchored_on(pick: PickResult, cands: Seq<Selectable>) -> Selecting {
    let object = anchor_of(pick.object, cands);
    Selecting {
        phase: Phase::Anchored { has_object: object is Some },
        anchor_object: object,
        anchor_point: pick.point,
        current_point: pick.point,
        marquee_visual: None,
    }
}

pub open spec fn in_session(s: Selecting) -> bool {
    s.phase is Anchored || s.phase is Dragging
}

/// This tick's input releases an open session.
pub open spec fn releases(s: Selecting, b: PointerButton) -> bool {
    !b.just_pressed && !b.pressed && b.just_released && in_session(s)
}

/// The release resolves as a single click: the release pick struck the very object
/// the session was anchored on.
pub open spec fn single_click(s: Selecting, pick: Option<PickResult>) -> bool {
    match (pick, s.anchor_object) {
        (Some(p), Some(a)) => p.object == Some(a),
        _ => false,
    }
}

/// The candidates strictly inside `rect`, in their order.
pub open spec fn boxed(cands: Seq<Selectable>, rect: Rect2D) -> Seq<ObjectHandle>
    decreases cands.len(),
{
    if cands.len() == 0 {
        Seq::empty()
    } else {
        let prev = boxed(cands.drop_last(), rect);
        if strictly_inside(rect, cands.last().position) {
            prev.push(cands.last().handle)
        } else {
            prev
        }
    }
}

/// The objects a release of session `s` resolves to: the anchor object on a single
/// click, else every candidate inside the marquee.
pub open spec fn resolved(s: Selecting, pick: Option<PickResult>, cands: Seq<Selectable>) -> Seq<
    ObjectHandle,
> {
    if single_click(s, pick) {
        seq![s.anchor_object->Some_0]
    } else {
        boxed(cands, span_of(s.anchor_point, s.current_point))
    }
}

pub open spec fn pending(h: ObjectHandle) -> SelectedUnit {
    SelectedUnit { unit: h, indicator: None }
}

/// `units` with each of `objs` appended, in order, unless already there.
pub open spec fn add_units(units: Seq<SelectedUnit>, objs: Seq<ObjectHandle>) -> Seq<SelectedUnit>
    decreases objs.len(),
{
    if objs.len() == 0 {
        units
    } else {
        let prev = add_units(units, objs.drop_last());
        if has_unit(prev, objs.last()) {
            prev
        } else {
            prev.push(pending(objs.last()))
        }
    }
}

/// The objects of `objs` that [`add_units`] appends to `units`, in order.
pub open spec fn added(units: Seq<SelectedUnit>, objs: Seq<ObjectHandle>) -> Seq<ObjectHandle>
    decreases objs.len(),
{
    if objs.len() == 0 {
        Seq::empty()
    } else {
        let prev = added(units, objs.drop_last());
        if has_unit(add_units(units, objs.drop_last()), objs.last()) {
            prev
        } else {
            prev.push(objs.last())
        }
    }
}

/// What a release keeps of the prior selection: all of it while the preserve
/// modifier is held, else nothing.
pub open spec fn kept(units: Seq<SelectedUnit>, preserve: bool) -> Seq<SelectedUnit> {
    if preserve {
        units
    } else {
        Seq::empty()
    }
}

/// The session after one tick.
pub open spec fn next_selecting(s: Selecting, input: SelectionInput, cands: Seq<Selectable>) -> Selecting {
    let b = input.button;
    if b.just_pressed {
        match input.pick {
            Some(p) => anchored_on(p, cands),
            None => s,
        }
    } else if b.pressed {
        match input.pick {
            Some(p) => if s.phase is Dragging {
                Selecting { current_point: p.point, ..s }
            } else if s.phase is Anchored && p.point != s.anchor_point {
                Selecting {
                    phase: Phase::Dragging,
                    current_point: p.point,
                    marquee_visual: Some(input.spare_visual),
                    ..s
                }
            } else {
                s
            },
            None => s,
        }
    } else if b.just_released && in_session(s) {
        idle_session()
    } else {
        s
    }
}

/// The marquee command of one tick.
pub open spec fn marquee_command(s: Selecting, input: SelectionInput) -> MarqueeCommand {
    let b = input.button;
    if b.just_pressed {
        match (input.pick, s.marquee_visual) {
            (Some(_), Some(v)) => MarqueeCommand::Despawn(v),
            _ => MarqueeCommand::Keep,
        }
    } else if b.pressed {
        match input.pick {
            Some(p) => if s.phase is Anchored && p.point != s.anchor_point {
                MarqueeCommand::Spawn(input.spare_visual)
            } else {
                MarqueeCommand::Keep
            },
            None => MarqueeCommand::Keep,
        }
    } else if b.just_released && in_session(s) {
        match s.marquee_visual {
            Some(v) => MarqueeCommand::Despawn(v),
            None => MarqueeCommand::Keep,
        }
    } else {
        MarqueeCommand::Keep
    }
}

/// The selection after one tick: unchanged but on a release, which keeps the prior
/// entries only under the preserve modifier and appends the resolved objects.
pub open spec fn next_units(
    s: Selecting,
    units: Seq<SelectedUnit>,
    input: SelectionInput,
    cands: Seq<Selectable>,
) -> Seq<SelectedUnit> {
    if releases(s, input.button) {
        add_units(kept(units, input.preserve), resolved(s, input.pick, cands))
    } else {
        units
    }
}

/// The entries a tick removes from the selection.
pub open spec fn deselected_by(s: Selecting, units: Seq<SelectedUnit>, input: SelectionInput) -> Seq<
    SelectedUnit,
> {
    if releases(s, input.button) && !input.preserve {
        units
    } else {
        Seq::empty()
    }
}

/// The objects a tick adds to the selection.
pub open spec fn selected_by(
    s: Selecting,
    units: Seq<SelectedUnit>,
    input: SelectionInput,
    cands: Seq<Selectable>,
) -> Seq<ObjectHandle> {
    if releases(s, input.button) {
        added(kept(units, input.preserve), resolved(s, input.pick, cands))
    } else {
        Seq::empty()
    }
}

fn is_selectable(cands: &Vec<Selectable>, h: ObjectHandle) -> (r: bool)
    ensures
        r == has_candidate(cands@, h),
{
    let mut i: usize = 0;
    while i < cands.len()
        invariant
            i <= cands@.len(),
            forall|k: int| 0 <= k < i ==> (#[trigger] cands@[k]).handle != h,
        decreases cands@.len() - i,
    {
        if cands[i].handle == h {
            return true;
        }
        i = i + 1;
    }
    false
}

fn holds_unit(units: &Vec<SelectedUnit>, h: ObjectHandle) -> (r: bool)
    ensures
        r == has_unit(units@, h),
{
    let mut i: usize = 0;
    while i < units.len()
        invariant
            i <= units@.len(),
            forall|k: int| 0 <= k < i ==> (#[trigger] units@[k]).unit != h,
        decreases units@.len() - i,
    {
        if units[i].unit == h {
            return true;
        }
        i = i + 1;
    }
    false
}

/// The handles of the candidates whose position lies strictly inside `rect`, in
/// the candidates' order.
pub fn select_in_rect(cands: &Vec<Selectable>, rect: Rect2D) -> (r: Vec<ObjectHandle>)
    ensures
        r@ == boxed(cands@, rect),
{
    let mut out: Vec<ObjectHandle> = Vec::new();
    let mut i: usize = 0;
    while i < cands.len()
        invariant
            i <= cands@.len(),
            out@ == boxed(cands@.take(i as int), rect),
        decreases cands@.len() - i,
    {
        let c = cands[i];
        assert(cands@.take(i + 1).drop_last() =~= cands@.take(i as int));
        assert(cands@.take(i + 1).last() == c);
        if contains(rect, c.position) {
            out.push(c.handle);
        }
        i = i + 1;
    }
    assert(cands@.take(cands@.len() as int) =~= cands@);
    out
}

/// Appends each of `objs` to `units`, in order, unless it is already there, and
/// returns the objects appended.
fn append_units(units: &mut Vec<SelectedUnit>, objs: &Vec<ObjectHandle>) -> (r: Vec<ObjectHandle>)
    requires
        distinct_units(old(units)@),
    ensures
        final(units)@ == add_units(old(units)@, objs@),
        r@ == added(old(units)@, objs@),
        distinct_units(final(units)@),
{
    let ghost base = units@;
    let mut fresh: Vec<ObjectHandle> = Vec::new();
    let mut i: usize = 0;
    while i < objs.len()
        invariant
            i <= objs@.len(),
            units@ == add_units(base, objs@.take(i as int)),
            fresh@ == added(base, objs@.take(i as int)),
            distinct_units(units@),
        decreases objs@.len() - i,
    {
        let o = objs[i];
        assert(objs@.take(i + 1).drop_last() =~= objs@.take(i as int));
        assert(objs@.take(i + 1).last() == o);
        if !holds_unit(units, o) {
            let ghost before = units@;
            units.push(SelectedUnit { unit: o, indicator: None });
            assert(distinct_units(units@)) by {
                assert forall|a: int, b: int|
                    0 <= a < units@.len() && 0 <= b < units@.len() && a != b implies (
                    #[trigger] units@[a]).unit != (#[trigger] units@[b]).unit by {
                    if a == before.len() as int {
                        assert(before[b] == units@[b]);
                    } else if b == before.len() as int {
                        assert(before[a] == units@[a]);
                    }
                }
            }
            fresh.push(o);
        }
        i = i + 1;
    }
    assert(objs@.take(objs@.len() as int) =~= objs@);
    fresh
}

fn no_effects(marquee: MarqueeCommand) -> (r: SelectionEffects)
    ensures
        r.marquee == marquee,
        r.deselected@ == Seq::<SelectedUnit>::empty(),
        r.newly_selected@ == Seq::<ObjectHandle>::empty(),
{
    SelectionEffects { marquee, deselected: Vec::new(), newly_selected: Vec::new() }
}

/// Advances the selection session by one tick of pointer input.
///
/// A press with a pick opens a new session anchored on the picked point (and on
/// the picked object, when it is selectable), dropping any stale marquee. While the
/// button is held, a pick off the anchor turns the session into a drag that spawns
/// the marquee under the input's spare visual; later picks move the marquee's far
/// corner. A release of an open session resolves it: unless the preserve modifier
/// is held, the prior selection is cleared; then a single click on the anchor object
/// selects that object, and anything else selects every candidate strictly inside
/// the marquee; the marquee is dropped and the session returns to rest. Ticks
/// without a pick leave the session as it is.
pub fn handle_mouse_input_selection(
    selecting: &mut Selecting,
    selected: &mut SelectedSet,
    input: &SelectionInput,
    selectable: &Vec<Selectable>,
) -> (r: SelectionEffects)
    requires
        old(selecting).wf(),
        old(selected).wf(),
    ensures
        *final(selecting) == next_selecting(*old(selecting), *input, selectable@),
        final(selected).units@ == next_units(
            *old(selecting),
            old(selected).units@,
            *input,
            selectable@,
        ),
        r.marquee == marquee_command(*old(selecting), *input),
        r.deselected@ == deselected_by(*old(selecting), old(selected).units@, *input),
        r.newly_selected@ == selected_by(
            *old(selecting),
            old(selected).units@,
            *input,
            selectable@,
        ),
        final(selecting).wf(),
        final(selected).wf(),
{
    let b = input.button;
    if b.just_pressed {
        match input.pick {
            Some(p) => {
                let marquee = match selecting.marquee_visual {
                    Some(v) => MarqueeCommand::Despawn(v),
                    None => MarqueeCommand::Keep,
                };
                let object = match p.object {
                    Some(h) => if is_selectable(selectable, h) {
                        Some(h)
                    } else {
                        None
                    },
                    None => None,
                };
                *selecting = Selecting {
                    phase: Phase::Anchored { has_object: object.is_some() },
                    anchor_object: object,
                    anchor_point: p.point,
                    current_point: p.point,
                    marquee_visual: None,
                };
                return no_effects(marquee);
            },
            None => {
                return no_effects(MarqueeCommand::Keep);
            },
        }
    }
    if b.pressed {
        let mut marquee = MarqueeCommand::Keep;
        if let Some(p) = input.pick {
            match selecting.phase {
                Phase::Dragging => {
                    selecting.current_point = p.point;
                },
                Phase::Anchored { .. } => {
                    if p.point != selecting.anchor_point {
                        selecting.phase = Phase::Dragging;
                        selecting.current_point = p.point;
                        selecting.marquee_visual = Some(input.spare_visual);
                        marquee = MarqueeCommand::Spawn(input.spare_visual);
                    }
                },
                _ => {},
            }
        }
        return no_effects(marquee);
    }
    let open = match selecting.phase {
        Phase::Anchored { .. } => true,
        Phase::Dragging => true,
        _ => false,
    };
    if !(b.just_released && open) {
        return no_effects(MarqueeCommand::Keep);
    }
    let session = *selecting;
    selecting.phase = Phase::Resolving;
    let mut deselected: Vec<SelectedUnit> = Vec::new();
    if !input.preserve {
        std::mem::swap(&mut deselected, &mut selected.units);
    }
    let single = match (input.pick, session.anchor_object) {
        (Some(p), Some(a)) => match p.object {
            Some(o) => o == a,
            None => false,
        },
        _ => false,
    };
    let objs: Vec<ObjectHandle> = if single {
        let a = session.anchor_object.unwrap();
        vec![a]
    } else {
        select_in_rect(selectable, rectangle(session.anchor_point, session.current_point))
    };
    proof {
        if single {
            assert(objs@ =~= seq![session.anchor_object->Some_0]);
        }
    }
    let newly_selected = append_units(&mut selected.units, &objs);
    let marquee = match session.marquee_visual {
        Some(v) => MarqueeCommand::Despawn(v),
        None => MarqueeCommand::Keep,
    };
    *selecting = Selecting::new();
    SelectionEffects { marquee, deselected, newly_selected }
}

/// The marquee to draw this tick: its visual and the outline between the anchor
/// and the current point, or `None` while no marquee is shown.
pub fn draw_selection_box(selecting: &Selecting) -> (r: Option<MarqueeOutline>)
    ensures
        match selecting.marquee_visual {
            None => r is None,
            Some(v) => r matches Some(m) && m.visual == v && m.points@ == outline_of(
                selecting.anchor_point,
                selecting.current_point,
            ),
        },
{
    match selecting.marquee_visual {
        None => None,
        Some(v) => Some(
            MarqueeOutline {
                visual: v,
                points: marquee_outline(selecting.anchor_point, selecting.current_point),
            },
        ),
    }
}

/// The entry of `unit` awaits an indicator.
pub open spec fn awaits_indicator(units: Seq<SelectedUnit>, unit: ObjectHandle) -> bool {
    exists|i: int|
        0 <= i < units.len() && (#[trigger] units[i]).unit == unit && units[i].indicator is None
}

/// `units` with `indicator` recorded on the entry of `unit`, if that entry has none.
pub open spec fn with_indicator(
    units: Seq<SelectedUnit>,
    unit: ObjectHandle,
    indicator: VisualHandle,
) -> Seq<SelectedUnit> {
    units.map_values(
        |e: SelectedUnit|
            if e.unit == unit && e.indicator is None {
                SelectedUnit { unit, indicator: Some(indicator) }
            } else {
                e
            },
    )
}

/// Records `indicator` as the visual shown on the newly selected `unit`. Returns
/// whether it was recorded: a unit no longer selected, or one that already has an
/// indicator, is left alone, and the caller drops the visual.
pub fn draw_selection_indicator(
    selected: &mut SelectedSet,
    unit: ObjectHandle,
    indicator: VisualHandle,
) -> (r: bool)
    requires
        old(selected).wf(),
    ensures
        final(selected).units@ == with_indicator(old(selected).units@, unit, indicator),
        r == awaits_indicator(old(selected).units@, unit),
        final(selected).wf(),
{
    let ghost before = selected.units@;
    let mut recorded = false;
    let mut i: usize = 0;
    while i < selected.units.len()
        invariant
            i <= selected.units@.len(),
            selected.units@.len() == before.len(),
            forall|k: int|
                0 <= k < i ==> #[trigger] selected.units@[k] == with_indicator(
                    before,
                    unit,
                    indicator,
                )[k],
            forall|k: int| i <= k < before.len() ==> #[trigger] selected.units@[k] == before[k],
            recorded == exists|k: int|
                0 <= k < i && (#[trigger] before[k]).unit == unit && before[k].indicator is None,
        decreases before.len() - i,
    {
        let e = selected.units[i];
        if e.unit == unit && e.indicator.is_none() {
            selected.units.set(i, SelectedUnit { unit, indicator: Some(indicator) });
            recorded = true;
        }
        i = i + 1;
    }
    assert(selected.units@ =~= with_indicator(before, unit, indicator));
    assert forall|a: int, b: int|
        0 <= a < selected.units@.len() && 0 <= b < selected.units@.len() && a != b implies (
        #[trigger] selected.units@[a]).unit != (#[trigger] selected.units@[b]).unit by {
        assert(selected.units@[a].unit == before[a].unit);
        assert(selected.units@[b].unit == before[b].unit);
    }
    recorded
}

/// Releasing on the very object the session was anchored on, before any drag,
/// selects exactly that object, with no marquee test: the outcome does not depend
/// on the candidates at all.
pub proof fn lemma_single_click_selects_anchor(
    s: Selecting,
    units: Seq<SelectedUnit>,
    input: SelectionInput,
    cands: Seq<Selectable>,
    other_cands: Seq<Selectable>,
    a: ObjectHandle,
)
    requires
        s.wf(),
        s.phase is Anchored,
        s.anchor_object == Some(a),
        releases(s, input.button),
        input.pick matches Some(p) && p.object == Some(a),
    ensures
        resolved(s, input.pick, cands) == seq![a],
        next_units(s, units, input, cands) == next_units(s, units, input, other_cands),
        selected_by(s, units, input, cands) == selected_by(s, units, input, other_cands),
        next_units(s, units, input, cands) == (if has_unit(kept(units, input.preserve), a) {
            kept(units, input.preserve)
        } else {
            kept(units, input.preserve).push(pending(a))
        }),
{
    assert(seq![a].drop_last() =~= Seq::<ObjectHandle>::empty());
}

/// Every state the machine reaches is well formed, so a dragging session always has
/// its marquee; and once dragging, the session stays dragging with the same marquee
/// on every tick until a release resolves it (or a new press restarts it).
pub proof fn lemma_drag_keeps_marquee(s: Selecting, input: SelectionInput, cands: Seq<Selectable>)
    requires
        s.wf(),
    ensures
        next_selecting(s, input, cands).wf(),
        next_selecting(s, input, cands).phase is Dragging ==> next_selecting(
            s,
            input,
            cands,
        ).marquee_visual is Some,
        s.phase is Dragging && !input.button.just_pressed && !releases(s, input.button) ==> {
            &&& next_selecting(s, input, cands).phase is Dragging
            &&& next_selecting(s, input, cands).marquee_visual == s.marquee_visual
        },
{
}

proof fn lemma_add_units_extends(units: Seq<SelectedUnit>, objs: Seq<ObjectHandle>)
    ensures
        add_units(units, objs).len() >= units.len(),
        add_units(units, objs).take(units.len() as int) == units,
    decreases objs.len(),
{
    if objs.len() > 0 {
        lemma_add_units_extends(units, objs.drop_last());
        let prev = add_units(units, objs.drop_last());
        if !has_unit(prev, objs.last()) {
            assert(prev.push(pending(objs.last())).take(units.len() as int) =~= prev.take(
                units.len() as int,
            ));
        }
    }
}

/// On a release, the prior selection stays in place, ahead of the newly resolved
/// objects, while the preserve modifier is held; without it every prior entry is
/// handed back for its visual to be despawned and the new selection holds the
/// resolved objects alone.
pub proof fn lemma_release_preserve(
    s: Selecting,
    units: Seq<SelectedUnit>,
    input: SelectionInput,
    cands: Seq<Selectable>,
)
    requires
        s.wf(),
        releases(s, input.button),
    ensures
        input.preserve ==> {
            &&& deselected_by(s, units, input) == Seq::<SelectedUnit>::empty()
            &&& next_units(s, units, input, cands).len() >= units.len()
            &&& next_units(s, units, input, cands).take(units.len() as int) == units
        },
        !input.preserve ==> {
            &&& deselected_by(s, units, input) == units
            &&& next_units(s, units, input, cands) == add_units(
                Seq::empty(),
                resolved(s, input.pick, cands),
            )
        },
{
    lemma_add_units_extends(kept(units, input.preserve), resolved(s, input.pick, cands));
}

pub open spec fn inside_candidate(cands: Seq<Selectable>, rect: Rect2D, h: ObjectHandle) -> bool {
    exists|i: int|
        0 <= i < cands.len() && (#[trigger] cands[i]).handle == h && strictly_inside(
            rect,
            cands[i].position,
        )
}

proof fn lemma_boxed_members(cands: Seq<Selectable>, rect: Rect2D, h: ObjectHandle)
    ensures
        boxed(cands, rect).contains(h) == inside_candidate(cands, rect, h),
    decreases cands.len(),
{
    if cands.len() > 0 {
        let init = cands.drop_last();
        lemma_boxed_members(init, rect, h);
        let prev = boxed(init, rect);
        let last = cands.last();
        if inside_candidate(init, rect, h) {
            let i = choose|i: int|
                0 <= i < init.len() && (#[trigger] init[i]).handle == h && strictly_inside(
                    rect,
                    init[i].position,
                );
            assert(cands[i] == init[i]);
        }
        if inside_candidate(cands, rect, h) && !inside_candidate(init, rect, h) {
            let i = choose|i: int|
                0 <= i < cands.len() && (#[trigger] cands[i]).handle == h && strictly_inside(
                    rect,
                    cands[i].position,
                );
            if i < init.len() {
                assert(init[i] == cands[i]);
            }
        }
        if strictly_inside(rect, last.position) {
            assert(prev.push(last.handle).contains(h) == (prev.contains(h) || last.handle == h))
                by {
                if last.handle == h {
                    assert(prev.push(last.handle)[prev.len() as int] == h);
                }
                if prev.contains(h) {
                    let j = choose|j: int| 0 <= j < prev.len() && prev[j] == h;
                    assert(prev.push(last.handle)[j] == h);
                }
            }
            if last.handle == h {
                assert(cands[cands.len() - 1] == last);
            }
        }
    }
}

proof fn lemma_add_units_members(units: Seq<SelectedUnit>, objs: Seq<ObjectHandle>, h: ObjectHandle)
    ensures
        has_unit(add_units(units, objs), h) == (has_unit(units, h) || objs.contains(h)),
    decreases objs.len(),
{
    if objs.len() > 0 {
        let init = objs.drop_last();
        lemma_add_units_members(units, init, h);
        let prev = add_units(units, init);
        let last = objs.last();
        assert(objs.contains(h) == (init.contains(h) || last == h)) by {
            if init.contains(h) {
                let j = choose|j: int| 0 <= j < init.len() && init[j] == h;
                assert(objs[j] == h);
            }
            if objs.contains(h) && last != h {
                let j = choose|j: int| 0 <= j < objs.len() && objs[j] == h;
                assert(init[j] == h);
            }
            if last == h {
                assert(objs[objs.len() - 1] == h);
            }
        }
        if !has_unit(prev, last) {
            let next = prev.push(pending(last));
            assert(has_unit(next, h) == (has_unit(prev, h) || last == h)) by {
                if last == h {
                    assert(next[prev.len() as int].unit == h);
                }
                if has_unit(prev, h) {
                    let j = choose|j: int| 0 <= j < prev.len() && (#[trigger] prev[j]).unit == h;
                    assert(next[j] == prev[j]);
                }
                if has_unit(next, h) && last != h {
                    let j = choose|j: int| 0 <= j < next.len() && (#[trigger] next[j]).unit == h;
                    assert(prev[j] == next[j]);
                }
            }
        }
    }
}

/// A release that is not a single click, without the preserve modifier, leaves
/// selected exactly the candidates whose ground position lies strictly inside the
/// rectangle between the anchor and the current point.
pub proof fn lemma_marquee_release_selects_inside(
    s: Selecting,
    units: Seq<SelectedUnit>,
    input: SelectionInput,
    cands: Seq<Selectable>,
    h: ObjectHandle,
)
    requires
        s.wf(),
        releases(s, input.button),
        !single_click(s, input.pick),
        !input.preserve,
    ensures
        has_unit(next_units(s, units, input, cands), h) == inside_candidate(
            cands,
            span_of(s.anchor_point, s.current_point),
            h,
        ),
{
    let rect = span_of(s.anchor_point, s.current_point);
    lemma_boxed_members(cands, rect, h);
    lemma_add_units_members(Seq::empty(), boxed(cands, rect), h);
}

} // verus!
