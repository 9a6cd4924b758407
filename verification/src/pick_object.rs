use vstd::prelude::*;

verus! {

/// The first entity of `chain` (an entity followed by its ancestors, nearest
/// first) that `pickable` flags.
pub open spec fn first_pickable(chain: Seq<u64>, pickable: Seq<bool>) -> Option<u64>
    decreases chain.len(),
{
    if chain.len() == 0 || pickable.len() == 0 {
        None
    } else if pickable[0] {
        Some(chain[0])
    } else {
        first_pickable(chain.drop_first(), pickable.drop_first())
    }
}

/// The nearest pickable entity among an entity and its ancestors:
/// `chain[0]` is the entity, `chain[k + 1]` the parent of `chain[k]`, and
/// `pickable[k]` says whether `chain[k]` can be picked up.
pub fn find_pickable_ancestor(chain: &Vec<u64>, pickable: &Vec<bool>) -> (found: Option<u64>)
    requires
        chain@.len() == pickable@.len(),
    ensures
        found == first_pickable(chain@, pickable@),
        match found {
            Some(e) => exists|k: int|
                0 <= k < chain@.len() && pickable@[k] && chain@[k] == e && forall|j: int|
                    0 <= j < k ==> !#[trigger] pickable@[j],
            None => forall|k: int| 0 <= k < pickable@.len() ==> !#[trigger] pickable@[k],
        },
{
    let n = chain.len();
    let mut i: usize = 0;
    proof {
        assert(chain@.skip(0) =~= chain@);
        assert(pickable@.skip(0) =~= pickable@);
    }
    while i < n
        invariant
            n == chain@.len(),
            n == pickable@.len(),
            0 <= i <= n,
            forall|j: int| 0 <= j < i ==> !#[trigger] pickable@[j],
            first_pickable(chain@, pickable@) == first_pickable(chain@.skip(i as int), pickable@.skip(
                i as int,
            )),
        decreases n - i,
    {
        proof {
            assert(chain@.skip(i as int).drop_first() =~= chain@.skip(i + 1));
            assert(pickable@.skip(i as int).drop_first() =~= pickable@.skip(i + 1));
        }
        if pickable[i] {
            return Some(chain[i]);
        }
        i = i + 1;
    }
    None
}

/// The object held by the player, if any.
pub struct ObjectPicked {
    pub entity: Option<u64>,
}

impl Default for ObjectPicked {
    fn default() -> (o: Self)
        ensures
            o.entity is None,
    {
        ObjectPicked { entity: None }
    }
}

/// How the hold distance of a held object moves this frame.
#[derive(Clone, Copy, Debug, PartialEq, Eq, Structural)]
pub enum DistanceAdjust {
    Closer,
    Farther,
    Keep,
}

/// First half of a pick-up frame: releasing the mouse drops the held
/// object. While an object is still held, N brings it closer and H pushes
/// it away (`Some`; the caller moves and clamps the distance and the frame
/// ends there); with nothing held the caller goes on to cast the pick ray
/// (`None`).
pub fn hold_step(picked: &mut ObjectPicked, left_just_released: bool, n_pressed: bool, h_pressed: bool) -> (adjust: Option<DistanceAdjust>)
    ensures
        final(picked).entity == (if left_just_released { None } else { old(picked).entity }),
        adjust is Some <==> final(picked).entity is Some,
        adjust is Some ==> adjust == Some(
            if n_pressed { DistanceAdjust::Closer } else if h_pressed { DistanceAdjust::Farther } else { DistanceAdjust::Keep },
        ),
{
    if left_just_released {
        picked.entity = None;
    }
    if picked.entity.is_some() {
        if n_pressed {
            return Some(DistanceAdjust::Closer);
        } else if h_pressed {
            return Some(DistanceAdjust::Farther);
        }
        return Some(DistanceAdjust::Keep);
    }
    None
}

/// Second half of a pick-up frame, after the pick ray was cast: the
/// crosshair shows whether the ray hit something pickable, and a fresh left
/// click picks up `hit_pickable`, the pickable ancestor of what was hit.
/// Returns whether the object was taken (the caller then sets the hold
/// distance from the hit).
pub fn pick_step(
    picked: &mut ObjectPicked,
    hit: bool,
    hit_pickable: Option<u64>,
    left_just_pressed: bool,
    can_pick: &mut bool,
) -> (taken: bool)
    ensures
        *final(can_pick) == hit,
        taken == (hit && left_just_pressed),
        final(picked).entity == (if taken { hit_pickable } else { old(picked).entity }),
{
    *can_pick = hit;
    if hit {
        if left_just_pressed {
            picked.entity = hit_pickable;
            return true;
        }
    }
    false
}

} // verus!
