//! Walls below a selected element and the door openings on each wall.
//!
//! The three reads (the walls, their names and the doors found on them) are
//! made by the caller; this module groups the answers by wall.

use vstd::prelude::*;
use std::collections::HashMap;
use crate::refno::RefU64;

verus! {

broadcast use vstd::std_specs::hash::group_hash_axioms;

/// A door opening found on a wall.
#[derive(Debug, Clone, Default)]
pub struct WallDoorResult {
    pub refno: RefU64,
    pub name: String,
    pub wall: RefU64,
}

/// A wall together with the door openings on it.
#[derive(Debug, Clone, Default)]
pub struct WallContainsDoor {
    pub refno: RefU64,
    pub wall_name: String,
    pub fitts: Vec<WallDoorResult>,
}

/// The doors of `wall`, in the order in which they were found.
pub open spec fn doors_of(doors: Seq<WallDoorResult>, wall: u64) -> Seq<WallDoorResult>
    decreases doors.len(),
{
    if doors.len() == 0 {
        doors
    } else {
        let rest = doors_of(doors.drop_last(), wall);
        if doors.last().wall.0 == wall {
            rest.push(doors.last())
        } else {
            rest
        }
    }
}

/// The name given to `wall`: the last one listed for it, if any.
pub open spec fn name_for(names: Seq<(RefU64, String)>, wall: u64) -> Option<String>
    decreases names.len(),
{
    if names.len() == 0 {
        None
    } else if names.last().0.0 == wall {
        Some(names.last().1)
    } else {
        name_for(names.drop_last(), wall)
    }
}

/// `entry` lists one wall record: the selected element, the wall's name and
/// the wall's doors.
pub open spec fn is_wall_entry(
    entry: Seq<WallContainsDoor>,
    refno: RefU64,
    name: String,
    doors: Seq<WallDoorResult>,
) -> bool {
    &&& entry.len() == 1
    &&& entry[0].refno == refno
    &&& entry[0].wall_name == name
    &&& entry[0].fitts@ == doors
}

proof fn lemma_push_contains(s: Seq<u64>, x: u64, w: u64)
    ensures
        s.push(x).contains(w) <==> (s.contains(w) || w == x),
{
    if w == x {
        assert(s.push(x)[s.len() as int] == w);
    }
    if s.contains(w) {
        let k = choose|k: int| 0 <= k < s.len() && s[k] == w;
        assert(s.push(x)[k] == w);
    }
    if s.push(x).contains(w) && w != x {
        let k = choose|k: int| 0 <= k < s.push(x).len() && s.push(x)[k] == w;
        assert(s[k] == w);
    }
}

proof fn lemma_doors_of_push(s: Seq<WallDoorResult>, e: WallDoorResult, w: u64)
    ensures
        doors_of(s.push(e), w) == if e.wall.0 == w {
            doors_of(s, w).push(e)
        } else {
            doors_of(s, w)
        },
{
    assert(s.push(e).drop_last() =~= s);
}

proof fn lemma_name_for_push(s: Seq<(RefU64, String)>, e: (RefU64, String), w: u64)
    ensures
        name_for(s.push(e), w) == if e.0.0 == w {
            Some(e.1)
        } else {
            name_for(s, w)
        },
{
    assert(s.push(e).drop_last() =~= s);
}

/// Groups door openings by wall: every named wall with at least one door
/// gets a single record holding `refno` (the selected element), the wall's
/// name (the last one given for it) and its doors in the order found. Walls
/// without doors, and doors on unnamed walls, are left out.
pub fn group_wall_doors(
    refno: RefU64,
    wall_names: Vec<(RefU64, String)>,
    fitts: Vec<WallDoorResult>,
) -> (r: HashMap<u64, Vec<WallContainsDoor>>)
    ensures
        forall|w: u64| #[trigger] r@.contains_key(w) <==> (name_for(wall_names@, w) is Some
            && doors_of(fitts@, w).len() > 0),
        forall|w: u64| #[trigger] r@.contains_key(w) ==> is_wall_entry(
            r@[w]@,
            refno,
            name_for(wall_names@, w).unwrap(),
            doors_of(fitts@, w),
        ),
{
    let ghost doors = fitts@;
    let ghost names = wall_names@;
    // The doors of each wall.
    let mut by_wall: HashMap<u64, Vec<WallDoorResult>> = HashMap::new();
    for f in it: fitts
        invariant
            it.seq() == doors,
            forall|w: u64| #[trigger] by_wall@.contains_key(w) <==> doors_of(doors.take(it.index() as int), w).len() > 0,
            forall|w: u64| #[trigger] by_wall@.contains_key(w) ==> by_wall@[w]@ == doors_of(doors.take(it.index() as int), w),
    {
        let ghost j = it.index() as int;
        let key: u64 = f.wall.0;
        proof {
            assert(doors.take(j + 1) =~= doors.take(j).push(f));
            assert forall|w: u64| #[trigger] doors_of(doors.take(j + 1), w) == if f.wall.0 == w {
                doors_of(doors.take(j), w).push(f)
            } else {
                doors_of(doors.take(j), w)
            } by {
                lemma_doors_of_push(doors.take(j), f, w);
            }
            assert(doors.take(doors.len() as int) =~= doors);
        }
        let mut list: Vec<WallDoorResult> = match by_wall.remove(&key) {
            Some(existing) => existing,
            None => Vec::new(),
        };
        proof {
            if list@.len() == 0 {
                assert(doors_of(doors.take(j), key) =~= Seq::<WallDoorResult>::empty());
            }
        }
        list.push(f);
        proof {
            assert(list@ =~= doors_of(doors.take(j + 1), key));
        }
        by_wall.insert(key, list);
    }
    proof {
        assert(doors.take(doors.len() as int) =~= doors);
    }
    // The last name of each wall, and the walls in the order they were named.
    let mut name_of: HashMap<u64, String> = HashMap::new();
    let mut order: Vec<u64> = Vec::new();
    for entry in it: wall_names
        invariant
            it.seq() == names,
            order@.len() == it.index(),
            forall|i: int| 0 <= i < order@.len() ==> #[trigger] order@[i] == names[i].0.0,
            forall|w: u64| #[trigger] name_of@.contains_key(w) <==> order@.contains(w),
            forall|w: u64| #[trigger] name_of@.contains_key(w) <==> name_for(names.take(it.index() as int), w) is Some,
            forall|w: u64| #[trigger] name_of@.contains_key(w) ==> Some(name_of@[w]) == name_for(names.take(it.index() as int), w),
    {
        let ghost j = it.index() as int;
        proof {
            assert(names.take(j + 1) =~= names.take(j).push(entry));
            assert forall|w: u64| #[trigger] name_for(names.take(j + 1), w) == if entry.0.0 == w {
                Some(entry.1)
            } else {
                name_for(names.take(j), w)
            } by {
                lemma_name_for_push(names.take(j), entry, w);
            }
            assert(names.take(names.len() as int) =~= names);
        }
        let (wall, name) = entry;
        let ghost old_order = order@;
        order.push(wall.0);
        name_of.insert(wall.0, name);
        proof {
            assert forall|w: u64| order@.contains(w) <==> (old_order.contains(w) || w == wall.0) by {
                if w == wall.0 {
                    assert(order@[old_order.len() as int] == w);
                }
                if old_order.contains(w) {
                    let k = choose|k: int| 0 <= k < old_order.len() && old_order[k] == w;
                    assert(order@[k] == w);
                }
                if order@.contains(w) && w != wall.0 {
                    let k = choose|k: int| 0 <= k < order@.len() && order@[k] == w;
                    assert(old_order[k] == w);
                }
            }
        }
    }
    proof {
        assert(names.take(names.len() as int) =~= names);
    }
    let ghost name_map = name_of@;
    let ghost door_map = by_wall@;
    let mut result: HashMap<u64, Vec<WallContainsDoor>> = HashMap::new();
    let count = order.len();
    let mut i: usize = 0;
    while i < count
        invariant
            count == order@.len(),
            i <= count,
            forall|w: u64| #[trigger] name_map.contains_key(w) <==> order@.contains(w),
            forall|w: u64| #[trigger] name_map.contains_key(w) <==> name_for(names, w) is Some,
            forall|w: u64| #[trigger] name_map.contains_key(w) ==> Some(name_map[w]) == name_for(names, w),
            forall|w: u64| #[trigger] door_map.contains_key(w) <==> doors_of(doors, w).len() > 0,
            forall|w: u64| #[trigger] door_map.contains_key(w) ==> door_map[w]@ == doors_of(doors, w),
            forall|w: u64| #[trigger] name_of@.contains_key(w) <==> (name_map.contains_key(w)
                && !order@.take(i as int).contains(w)),
            forall|w: u64| #[trigger] name_of@.contains_key(w) ==> name_of@[w] == name_map[w],
            forall|w: u64| #[trigger] by_wall@.contains_key(w) <==> (door_map.contains_key(w)
                && !order@.take(i as int).contains(w)),
            forall|w: u64| #[trigger] by_wall@.contains_key(w) ==> by_wall@[w] == door_map[w],
            forall|w: u64| #[trigger] result@.contains_key(w) <==> (door_map.contains_key(w)
                && order@.take(i as int).contains(w)),
            forall|w: u64| #[trigger] result@.contains_key(w) ==> is_wall_entry(
                result@[w]@,
                refno,
                name_map[w],
                door_map[w]@,
            ),
        decreases count - i,
    {
        let wall: u64 = order[i];
        proof {
            assert(order@.take(i + 1) =~= order@.take(i as int).push(wall));
            assert(order@.contains(wall)) by {
                assert(order@[i as int] == wall);
            }
            assert forall|w: u64| #[trigger] order@.take(i + 1).contains(w) <==> (order@.take(
                i as int,
            ).contains(w) || w == wall) by {
                lemma_push_contains(order@.take(i as int), wall, w);
            }
        }
        if let Some(name) = name_of.remove(&wall) {
            if let Some(doors_here) = by_wall.remove(&wall) {
                let record = WallContainsDoor { refno, wall_name: name, fitts: doors_here };
                result.insert(wall, vec![record]);
            }
        }
        i = i + 1;
    }
    proof {
        assert(order@.take(count as int) =~= order@);
        assert forall|w: u64| #[trigger] result@.contains_key(w) <==> (name_for(names, w) is Some
            && doors_of(doors, w).len() > 0) by {
            assert(name_map.contains_key(w) <==> order@.contains(w));
            assert(name_map.contains_key(w) <==> name_for(names, w) is Some);
            assert(door_map.contains_key(w) <==> doors_of(doors, w).len() > 0);
        }
        assert forall|w: u64| #[trigger] result@.contains_key(w) implies is_wall_entry(
            result@[w]@,
            refno,
            name_for(names, w).unwrap(),
            doors_of(doors, w),
        ) by {
            assert(name_map.contains_key(w));
            assert(Some(name_map[w]) == name_for(names, w));
            assert(door_map[w]@ == doors_of(doors, w));
        }
    }
    result
}

} // verus!
