//! The spatial team index: each team's units in battle-line order, rebuilt
//! every tick, and the scans that find enemies and team mates in it.

use vstd::prelude::*;
use crate::geometry::{dist_sq, Point};
use crate::resource::action::DistanceRange;
use crate::sorting::{
    goes_before, is_ordered, lemma_insert_stable_at, lemma_insert_stable_place,
    lemma_stable_sort_is_ordered_permutation, stable_sort,
};
use crate::unit::WhoAttackMe;

verus! {

/// How far each attacker of a unit shifts the unit's place in the battle line,
/// in thousandths of a world unit.
pub const ATTACKER_OFFSET: i64 = 105_500;

/// A unit with its position and the key it is ordered by.
pub type Keyed = (u64, Point, i64);

/// The place of a unit in its team's battle line: its `x`, shifted away from
/// the enemy by each unit that attacks it. The left team's units are shifted
/// to the left, the right team's to the right.
pub open spec fn sort_key(pos: Point, attackers: u32, left: bool) -> int {
    if left {
        pos.x - attackers * ATTACKER_OFFSET
    } else {
        pos.x + attackers * ATTACKER_OFFSET
    }
}

/// The key of an entry.
pub open spec fn key_of(e: Keyed) -> int {
    e.2 as int
}

fn key_goes_before(a: i64, b: i64, descending: bool) -> (r: bool)
    ensures
        r == goes_before(a as int, b as int, descending),
{
    if descending {
        a > b
    } else {
        a < b
    }
}

/// The entries of `items` in the order of their keys, entries of equal key in
/// the order they came in.
pub fn sort_by_key(items: &Vec<Keyed>, descending: bool) -> (out: Vec<Keyed>)
    ensures
        out@ == stable_sort(items@, |e: Keyed| key_of(e), descending),
{
    let mut out: Vec<Keyed> = Vec::new();
    let mut i: usize = 0;
    while i < items.len()
        invariant
            i <= items.len(),
            out@ == stable_sort(items@.take(i as int), |e: Keyed| key_of(e), descending),
            out.len() == i,
        decreases items.len() - i,
    {
        let e = items[i];
        let ghost sorted = out@;
        out.push(e);
        let mut j: usize = out.len() - 1;
        while j > 0 && key_goes_before(e.2, out[j - 1].2, descending)
            invariant
                j <= sorted.len(),
                out@ == sorted.take(j as int).push(e) + sorted.skip(j as int),
                forall|k: int|
                    j <= k < sorted.len() ==> goes_before(
                        e.2 as int,
                        (#[trigger] sorted[k]).2 as int,
                        descending,
                    ),
            decreases j,
        {
            let prev = out[j - 1];
            assert(prev == sorted[j - 1]);
            out.set(j, prev);
            out.set(j - 1, e);
            j -= 1;
            assert(out@ == sorted.take(j as int).push(e) + sorted.skip(j as int));
        }
        proof {
            if j > 0 {
                assert(out@[j - 1] == sorted[j - 1]);
            }
            lemma_insert_stable_at(sorted, e, |e: Keyed| key_of(e), descending, j as int);
            assert(items@.take(i + 1).drop_last() == items@.take(i as int));
            assert(items@.take(i + 1).last() == e);
        }
        i += 1;
    }
    assert(items@.take(items.len() as int) == items@);
    out
}

/// Each team's living units with their positions, in battle-line order: the
/// left team's from right to left, the right team's from left to right, so
/// that each list starts with the unit nearest the other team.
#[derive(Debug)]
pub struct UnitSearchMap {
    pub lefts: Vec<(u64, Point)>,
    pub rights: Vec<(u64, Point)>,
}

/// The units of a team, each with the key of its place in the battle line.
pub open spec fn keyed(units: Seq<(u64, Point, WhoAttackMe)>, left: bool) -> Seq<Keyed> {
    units.map_values(|u: (u64, Point, WhoAttackMe)| (u.0, u.1, sort_key(u.1, u.2.0, left) as i64))
}

/// The entries without their keys.
pub open spec fn without_keys(entries: Seq<Keyed>) -> Seq<(u64, Point)> {
    entries.map_values(|e: Keyed| (e.0, e.1))
}

/// The battle line of a team: its units in the order of their keys, the left
/// team's with the greatest key first, the right team's with the least.
pub open spec fn battle_line(units: Seq<(u64, Point, WhoAttackMe)>, left: bool) -> Seq<(u64, Point)> {
    without_keys(stable_sort(keyed(units, left), |e: Keyed| key_of(e), left))
}

/// A battle line holds each unit of its team once for each time the team
/// holds it, and runs along the keys: the left team's line from the greatest
/// key to the least, the right team's from the least to the greatest.
pub proof fn lemma_battle_line_is_ordered(units: Seq<(u64, Point, WhoAttackMe)>, left: bool)
    ensures
        battle_line(units, left).len() == units.len(),
        is_ordered(stable_sort(keyed(units, left), |e: Keyed| key_of(e), left), |e: Keyed| key_of(e), left),
        stable_sort(keyed(units, left), |e: Keyed| key_of(e), left).to_multiset() == keyed(
            units,
            left,
        ).to_multiset(),
{
    lemma_stable_sort_is_ordered_permutation(keyed(units, left), |e: Keyed| key_of(e), left);
}

/// No two entries of `line` have the same handle.
pub open spec fn line_handles_distinct(line: Seq<(u64, Point)>) -> bool {
    forall|i: int, j: int|
        0 <= i < j < line.len() ==> (#[trigger] line[i]).0 != (#[trigger] line[j]).0
}

/// No two of `units` have the same handle.
pub open spec fn roster_handles_distinct(units: Seq<(u64, Point, WhoAttackMe)>) -> bool {
    forall|i: int, j: int|
        0 <= i < j < units.len() ==> (#[trigger] units[i]).0 != (#[trigger] units[j]).0
}

/// No two of `entries` have the same handle.
pub open spec fn keyed_handles_distinct(entries: Seq<Keyed>) -> bool {
    forall|i: int, j: int|
        0 <= i < j < entries.len() ==> (#[trigger] entries[i]).0 != (#[trigger] entries[j]).0
}

/// Some entry of `entries` has the handle `handle`.
pub open spec fn has_handle(entries: Seq<Keyed>, handle: u64) -> bool {
    exists|i: int| 0 <= i < entries.len() && (#[trigger] entries[i]).0 == handle
}

/// Sorting neither repeats nor loses a handle.
pub proof fn lemma_sort_keeps_handles(input: Seq<Keyed>, descending: bool)
    requires
        keyed_handles_distinct(input),
    ensures
        keyed_handles_distinct(stable_sort(input, |e: Keyed| key_of(e), descending)),
        forall|handle: u64|
            has_handle(stable_sort(input, |e: Keyed| key_of(e), descending), handle) <==> has_handle(
                input,
                handle,
            ),
    decreases input.len(),
{
    let key = |e: Keyed| key_of(e);
    let out = stable_sort(input, key, descending);
    if input.len() == 0 {
        assert forall|handle: u64| has_handle(out, handle) <==> has_handle(input, handle) by {}
    } else {
        let front = input.drop_last();
        let e = input.last();
        assert(keyed_handles_distinct(front)) by {
            assert forall|i: int, j: int| 0 <= i < j < front.len() implies (#[trigger] front[i]).0 != (
            #[trigger] front[j]).0 by {
                assert(front[i] == input[i] && front[j] == input[j]);
            }
        }
        lemma_sort_keeps_handles(front, descending);
        let sorted = stable_sort(front, key, descending);
        assert(!has_handle(sorted, e.0)) by {
            if has_handle(front, e.0) {
                let i = choose|i: int| 0 <= i < front.len() && (#[trigger] front[i]).0 == e.0;
                assert(input[i].0 == input[input.len() - 1].0);
            }
        }
        let at = lemma_insert_stable_place(sorted, e, key, descending);
        assert(out == sorted.take(at).push(e) + sorted.skip(at));
        assert forall|i: int, j: int| 0 <= i < j < out.len() implies (#[trigger] out[i]).0 != (
        #[trigger] out[j]).0 by {
            let a = if i < at {
                i
            } else {
                i - 1
            };
            let b = if j < at {
                j
            } else {
                j - 1
            };
            if i == at {
                assert(out[i] == e);
                assert(out[j] == sorted[b]);
            } else if j == at {
                assert(out[j] == e);
                assert(out[i] == sorted[a]);
            } else {
                assert(out[i] == sorted[a]);
                assert(out[j] == sorted[b]);
            }
        }
        assert forall|handle: u64| has_handle(out, handle) <==> has_handle(input, handle) by {
            if has_handle(out, handle) {
                let k = choose|k: int| 0 <= k < out.len() && (#[trigger] out[k]).0 == handle;
                if k == at {
                    assert(input[input.len() - 1].0 == handle);
                } else {
                    let a = if k < at {
                        k
                    } else {
                        k - 1
                    };
                    assert(out[k] == sorted[a]);
                    assert(has_handle(sorted, handle));
                    assert(has_handle(front, handle));
                    let i = choose|i: int| 0 <= i < front.len() && (#[trigger] front[i]).0 == handle;
                    assert(input[i].0 == handle);
                }
            }
            if has_handle(input, handle) {
                let i = choose|i: int| 0 <= i < input.len() && (#[trigger] input[i]).0 == handle;
                if i == input.len() - 1 {
                    assert(out[at] == e);
                } else {
                    assert(front[i].0 == handle);
                    assert(has_handle(front, handle));
                    assert(has_handle(sorted, handle));
                    let a = choose|a: int| 0 <= a < sorted.len() && (#[trigger] sorted[a]).0 == handle;
                    let k = if a < at {
                        a
                    } else {
                        a + 1
                    };
                    assert(out[k] == sorted[a]);
                }
            }
        }
    }
}

/// A battle line holds no handle twice, where the team holds none twice, and
/// it holds just the team's handles.
pub proof fn lemma_battle_line_handles_distinct(units: Seq<(u64, Point, WhoAttackMe)>, left: bool)
    requires
        roster_handles_distinct(units),
    ensures
        line_handles_distinct(battle_line(units, left)),
        forall|k: int|
            0 <= k < battle_line(units, left).len() ==> exists|i: int|
                0 <= i < units.len() && (#[trigger] units[i]).0 == (#[trigger] battle_line(
                    units,
                    left,
                )[k]).0,
{
    let with_keys = keyed(units, left);
    assert(keyed_handles_distinct(with_keys)) by {
        assert forall|i: int, j: int| 0 <= i < j < with_keys.len() implies (
        #[trigger] with_keys[i]).0 != (#[trigger] with_keys[j]).0 by {
            assert(with_keys[i].0 == units[i].0 && with_keys[j].0 == units[j].0);
        }
    }
    lemma_sort_keeps_handles(with_keys, left);
    let sorted = stable_sort(with_keys, |e: Keyed| key_of(e), left);
    let line = battle_line(units, left);
    assert forall|i: int, j: int| 0 <= i < j < line.len() implies (#[trigger] line[i]).0 != (
    #[trigger] line[j]).0 by {
        assert(line[i].0 == sorted[i].0 && line[j].0 == sorted[j].0);
    }
    assert forall|k: int| 0 <= k < line.len() implies exists|i: int|
        0 <= i < units.len() && (#[trigger] units[i]).0 == (#[trigger] line[k]).0 by {
        assert(line[k].0 == sorted[k].0);
        assert(has_handle(sorted, sorted[k].0));
        assert(has_handle(with_keys, sorted[k].0));
        let i = choose|i: int| 0 <= i < with_keys.len() && (#[trigger] with_keys[i]).0 == sorted[k].0;
        assert(units[i].0 == line[k].0);
    }
}

/// The line of a team none of whose units is attacked runs along `x`: the
/// left team's toward lesser `x`, the right team's toward greater `x`. On
/// such a line a scan that gives up early loses nothing.
pub proof fn lemma_uncontested_line_runs_along_x(units: Seq<(u64, Point, WhoAttackMe)>, left: bool)
    requires
        forall|i: int| 0 <= i < units.len() ==> (#[trigger] units[i]).2 == WhoAttackMe(0),
    ensures
        runs_along_x(battle_line(units, left), !left),
{
    broadcast use vstd::seq_lib::group_to_multiset_ensures;

    let key = |e: Keyed| key_of(e);
    let with_keys = keyed(units, left);
    let sorted = stable_sort(with_keys, key, left);
    let line = battle_line(units, left);
    lemma_stable_sort_is_ordered_permutation(with_keys, key, left);
    assert forall|i: int| 0 <= i < sorted.len() implies (#[trigger] sorted[i]).2 == sorted[i].1.x by {
        assert(sorted.to_multiset().count(sorted[i]) > 0);
        assert(with_keys.to_multiset().count(sorted[i]) > 0);
        let k = choose|k: int| 0 <= k < with_keys.len() && with_keys[k] == sorted[i];
        assert(units[k].2 == WhoAttackMe(0));
    }
    assert forall|i: int, j: int| 0 <= i < j < line.len() implies if !left {
        (#[trigger] line[i]).1.x <= (#[trigger] line[j]).1.x
    } else {
        line[i].1.x >= line[j].1.x
    } by {
        assert(line[i].1.x == sorted[i].2 && line[j].1.x == sorted[j].2);
        assert(!goes_before(key(sorted[j]), key(sorted[i]), left));
    }
}

fn line_up(units: &Vec<(u64, Point, WhoAttackMe)>, left: bool) -> (line: Vec<(u64, Point)>)
    ensures
        line@ == battle_line(units@, left),
{
    let mut with_keys: Vec<Keyed> = Vec::new();
    let mut i: usize = 0;
    while i < units.len()
        invariant
            i <= units.len(),
            with_keys@ == keyed(units@, left).take(i as int),
        decreases units.len() - i,
    {
        let (entity, pos, attackers) = units[i];
        let shift: i64 = attackers.0 as i64 * ATTACKER_OFFSET;
        let key: i64 = if left {
            pos.x as i64 - shift
        } else {
            pos.x as i64 + shift
        };
        with_keys.push((entity, pos, key));
        assert(with_keys@ == keyed(units@, left).take(i + 1));
        i += 1;
    }
    assert(keyed(units@, left).take(units.len() as int) == keyed(units@, left));
    let sorted = sort_by_key(&with_keys, left);
    let mut line: Vec<(u64, Point)> = Vec::new();
    let mut k: usize = 0;
    while k < sorted.len()
        invariant
            k <= sorted.len(),
            line@ == without_keys(sorted@).take(k as int),
        decreases sorted.len() - k,
    {
        let e = sorted[k];
        line.push((e.0, e.1));
        assert(line@ == without_keys(sorted@).take(k + 1));
        k += 1;
    }
    assert(without_keys(sorted@).take(sorted.len() as int) == without_keys(sorted@));
    line
}

impl UnitSearchMap {
    /// An index of no units.
    pub fn new() -> (map: UnitSearchMap)
        ensures
            map.lefts@.len() == 0,
            map.rights@.len() == 0,
    {
        UnitSearchMap { lefts: Vec::new(), rights: Vec::new() }
    }
}

/// Rebuilds the index from the living units of the two teams, each with its
/// position and the number of units that attack it.
pub fn unit_search_prepare_sys(
    search_map: &mut UnitSearchMap,
    left_units: &Vec<(u64, Point, WhoAttackMe)>,
    right_units: &Vec<(u64, Point, WhoAttackMe)>,
)
    ensures
        final(search_map).lefts@ == battle_line(left_units@, true),
        final(search_map).rights@ == battle_line(right_units@, false),
{
    search_map.lefts = line_up(left_units, true);
    search_map.rights = line_up(right_units, false);
}

/// A scan along a list that runs toward greater `x` (`ascending`) or toward
/// lesser `x` has passed the reach `reach` around `pos_x` at `x`: nothing
/// further along an ordered list can be within reach.
pub open spec fn passed(ascending: bool, pos_x: int, reach: int, x: int) -> bool {
    if ascending {
        pos_x + reach < x
    } else {
        pos_x - reach > x
    }
}

/// The scan has not come within reach yet at `x`.
pub open spec fn not_reached(ascending: bool, pos_x: int, reach: int, x: int) -> bool {
    if ascending {
        pos_x - reach > x
    } else {
        pos_x + reach < x
    }
}

/// `x` is within `reach` of `pos_x`.
pub open spec fn within_reach(pos_x: int, reach: int, x: int) -> bool {
    pos_x - reach <= x <= pos_x + reach
}

/// The unit that a scan of `list` from the entry `from` on finds in view: the
/// first entry within the view range, unless the scan passes the range first.
pub open spec fn first_in_view(
    list: Seq<(u64, Point)>,
    from: int,
    ascending: bool,
    pos_x: int,
    view_range: int,
) -> Option<u64>
    decreases list.len() - from,
{
    if from < 0 || from >= list.len() {
        None
    } else if passed(ascending, pos_x, view_range, list[from].1.x as int) {
        None
    } else if not_reached(ascending, pos_x, view_range, list[from].1.x as int) {
        first_in_view(list, from + 1, ascending, pos_x, view_range)
    } else {
        Some(list[from].0)
    }
}

/// The units that a scan of `list` from the entry `from` on collects: those
/// whose distance from `pos` lies in `range`, in list order, at most `room` of
/// them, up to where the scan passes the far end of the range.
pub open spec fn collect_in_range(
    list: Seq<(u64, Point)>,
    from: int,
    ascending: bool,
    pos: Point,
    range: DistanceRange,
    room: int,
) -> Seq<u64>
    decreases list.len() - from,
{
    if from < 0 || from >= list.len() || room <= 0 {
        Seq::empty()
    } else if passed(ascending, pos.x as int, range.end as int, list[from].1.x as int) {
        Seq::empty()
    } else if not_reached(ascending, pos.x as int, range.end as int, list[from].1.x as int)
        || !range.contains_sq(dist_sq(pos, list[from].1)) {
        collect_in_range(list, from + 1, ascending, pos, range, room)
    } else {
        seq![list[from].0] + collect_in_range(list, from + 1, ascending, pos, range, room - 1)
    }
}

/// The list runs along `x` in the direction of the scan.
pub open spec fn runs_along_x(list: Seq<(u64, Point)>, ascending: bool) -> bool {
    forall|i: int, j: int|
        0 <= i < j < list.len() ==> if ascending {
            (#[trigger] list[i]).1.x <= (#[trigger] list[j]).1.x
        } else {
            list[i].1.x >= list[j].1.x
        }
}

fn has_passed(ascending: bool, pos_x: i32, reach: i32, x: i32) -> (r: bool)
    ensures
        r == passed(ascending, pos_x as int, reach as int, x as int),
{
    if ascending {
        pos_x as i64 + (reach as i64) < x as i64
    } else {
        pos_x as i64 - reach as i64 > x as i64
    }
}

fn has_not_reached(ascending: bool, pos_x: i32, reach: i32, x: i32) -> (r: bool)
    ensures
        r == not_reached(ascending, pos_x as int, reach as int, x as int),
{
    if ascending {
        pos_x as i64 - reach as i64 > x as i64
    } else {
        pos_x as i64 + (reach as i64) < x as i64
    }
}

/// Scans `list`, which runs toward greater `x` if `ascending` and toward
/// lesser `x` otherwise, for the first unit whose `x` is within `view_range`
/// of `pos`, and gives up where the list passes that range.
pub fn scan_in_view(
    list: &Vec<(u64, Point)>,
    ascending: bool,
    pos: &Point,
    view_range: i32,
) -> (found: Option<u64>)
    ensures
        found == first_in_view(list@, 0, ascending, pos.x as int, view_range as int),
{
    let mut i: usize = 0;
    while i < list.len()
        invariant
            i <= list.len(),
            first_in_view(list@, 0, ascending, pos.x as int, view_range as int) == first_in_view(
                list@,
                i as int,
                ascending,
                pos.x as int,
                view_range as int,
            ),
        decreases list.len() - i,
    {
        let x = list[i].1.x;
        if has_passed(ascending, pos.x, view_range, x) {
            return None;
        }
        if !has_not_reached(ascending, pos.x, view_range, x) {
            return Some(list[i].0);
        }
        i += 1;
    }
    None
}

/// Scans `list`, which runs toward greater `x` if `ascending` and toward
/// lesser `x` otherwise, for the units whose distance from `pos` lies in
/// `range`; collects at most `max_units` of them and gives up where the list
/// passes the far end of the range.
pub fn scan_in_range(
    list: &Vec<(u64, Point)>,
    ascending: bool,
    range: &DistanceRange,
    pos: &Point,
    max_units: usize,
) -> (found: Vec<u64>)
    ensures
        found@ == collect_in_range(list@, 0, ascending, *pos, *range, max_units as int),
{
    let mut found: Vec<u64> = Vec::new();
    let mut i: usize = 0;
    while i < list.len() && found.len() < max_units
        invariant
            i <= list.len(),
            found.len() <= max_units,
            collect_in_range(list@, 0, ascending, *pos, *range, max_units as int) == found@
                + collect_in_range(list@, i as int, ascending, *pos, *range, max_units - found.len()),
        decreases list.len() - i,
    {
        let (entity, place) = list[i];
        if has_passed(ascending, pos.x, range.end, place.x) {
            assert(found@ + Seq::<u64>::empty() == found@);
            return found;
        }
        if !has_not_reached(ascending, pos.x, range.end, place.x)
            && range.contains_distance_squared(pos.distance_squared(&place)) {
            let ghost before = found@;
            let ghost rest = collect_in_range(
                list@,
                i + 1,
                ascending,
                *pos,
                *range,
                max_units - found.len() - 1,
            );
            found.push(entity);
            assert(before + (seq![entity] + rest) == found@ + rest);
        }
        i += 1;
    }
    assert(found@ + Seq::<u64>::empty() == found@);
    found
}

/// The view scan is a function of the list, the place and the range: asked
/// again of the same index, it answers the same.
pub proof fn lemma_view_scan_repeats(
    list: Seq<(u64, Point)>,
    ascending: bool,
    pos_x: int,
    view_range: int,
    first: Option<u64>,
    second: Option<u64>,
)
    requires
        first == first_in_view(list, 0, ascending, pos_x, view_range),
        second == first_in_view(list, 0, ascending, pos_x, view_range),
    ensures
        first == second,
{
}

/// On a list that runs along `x` in the direction of the scan, giving up early
/// loses nothing: the scan from `from` on finds the first unit within the view
/// range, and finds none only where none is.
pub proof fn lemma_view_scan_finds_first(
    list: Seq<(u64, Point)>,
    from: int,
    ascending: bool,
    pos_x: int,
    view_range: int,
)
    requires
        runs_along_x(list, ascending),
        0 <= from <= list.len(),
        view_range >= 0,
    ensures
        match first_in_view(list, from, ascending, pos_x, view_range) {
            Some(entity) => exists|i: int|
                {
                    &&& from <= i < list.len()
                    &&& (#[trigger] list[i]).0 == entity
                    &&& within_reach(pos_x, view_range, list[i].1.x as int)
                    &&& forall|j: int|
                        from <= j < i ==> !within_reach(
                            pos_x,
                            view_range,
                            (#[trigger] list[j]).1.x as int,
                        )
                },
            None => forall|i: int|
                from <= i < list.len() ==> !within_reach(
                    pos_x,
                    view_range,
                    (#[trigger] list[i]).1.x as int,
                ),
        },
    decreases list.len() - from,
{
    if from < list.len() {
        let x = list[from].1.x as int;
        if passed(ascending, pos_x, view_range, x) {
            assert forall|i: int| from <= i < list.len() implies !within_reach(
                pos_x,
                view_range,
                (#[trigger] list[i]).1.x as int,
            ) by {
                if from < i {
                    assert(if ascending {
                        list[from].1.x <= list[i].1.x
                    } else {
                        list[from].1.x >= list[i].1.x
                    });
                }
            }
        } else if not_reached(ascending, pos_x, view_range, x) {
            lemma_view_scan_finds_first(list, from + 1, ascending, pos_x, view_range);
            match first_in_view(list, from + 1, ascending, pos_x, view_range) {
                Some(entity) => {
                    let i = choose|i: int|
                        {
                            &&& from + 1 <= i < list.len()
                            &&& (#[trigger] list[i]).0 == entity
                            &&& within_reach(pos_x, view_range, list[i].1.x as int)
                            &&& forall|j: int|
                                from + 1 <= j < i ==> !within_reach(
                                    pos_x,
                                    view_range,
                                    (#[trigger] list[j]).1.x as int,
                                )
                        };
                    assert(from <= i < list.len() && list[i].0 == entity && within_reach(
                        pos_x,
                        view_range,
                        list[i].1.x as int,
                    ) && forall|j: int|
                        from <= j < i ==> !within_reach(
                            pos_x,
                            view_range,
                            (#[trigger] list[j]).1.x as int,
                        ));
                },
                None => {},
            }
        } else {
            assert(list[from].0 == list[from].0 && within_reach(pos_x, view_range, x));
        }
    }
}

/// The units of `list`, from the place `from` on, whose distance from `pos`
/// lies in `range`, in list order.
pub open spec fn entries_in_range(
    list: Seq<(u64, Point)>,
    from: int,
    pos: Point,
    range: DistanceRange,
) -> Seq<u64>
    decreases list.len() - from,
{
    if from < 0 || from >= list.len() {
        Seq::empty()
    } else if range.contains_sq(dist_sq(pos, list[from].1)) {
        seq![list[from].0] + entries_in_range(list, from + 1, pos, range)
    } else {
        entries_in_range(list, from + 1, pos, range)
    }
}

/// An entry that the scan has passed, or has not reached, lies outside the range.
pub proof fn lemma_outside_reach_is_outside_range(
    ascending: bool,
    pos: Point,
    range: DistanceRange,
    place: Point,
)
    requires
        passed(ascending, pos.x as int, range.end as int, place.x as int) || not_reached(
            ascending,
            pos.x as int,
            range.end as int,
            place.x as int,
        ),
    ensures
        !range.contains_sq(dist_sq(pos, place)),
{
    let dx = place.x - pos.x;
    let dy = place.y - pos.y;
    let end = range.end as int;
    if end > 0 {
        assert(dx > end || -dx > end);
        assert(dx * dx > end * end) by (nonlinear_arith)
            requires
                dx > end || -dx > end,
                end > 0,
        ;
        assert(dy * dy >= 0) by (nonlinear_arith);
    }
}

/// On a list that runs along `x` in the direction of the scan, nothing from
/// where the scan has passed the range on lies in the range.
pub proof fn lemma_nothing_in_range_once_passed(
    list: Seq<(u64, Point)>,
    from: int,
    at: int,
    ascending: bool,
    pos: Point,
    range: DistanceRange,
)
    requires
        runs_along_x(list, ascending),
        0 <= from <= at <= list.len(),
        from < list.len(),
        passed(ascending, pos.x as int, range.end as int, list[from].1.x as int),
    ensures
        entries_in_range(list, at, pos, range) == Seq::<u64>::empty(),
    decreases list.len() - at,
{
    if at < list.len() {
        if from < at {
            assert(if ascending {
                list[from].1.x <= list[at].1.x
            } else {
                list[from].1.x >= list[at].1.x
            });
        }
        lemma_outside_reach_is_outside_range(ascending, pos, range, list[at].1);
        lemma_nothing_in_range_once_passed(list, from, at + 1, ascending, pos, range);
    }
}

/// On a list that runs along `x` in the direction of the scan, giving up
/// early loses nothing: the range scan collects the first `room` of the units
/// whose distance from `pos` lies in `range`, or all of them where they are
/// fewer.
pub proof fn lemma_range_scan_takes_the_first(
    list: Seq<(u64, Point)>,
    from: int,
    ascending: bool,
    pos: Point,
    range: DistanceRange,
    room: int,
)
    requires
        runs_along_x(list, ascending),
        0 <= from <= list.len(),
        room >= 0,
    ensures
        ({
            let all = entries_in_range(list, from, pos, range);
            collect_in_range(list, from, ascending, pos, range, room) == all.take(
                if room < all.len() {
                    room
                } else {
                    all.len() as int
                },
            )
        }),
    decreases list.len() - from,
{
    let all = entries_in_range(list, from, pos, range);
    let got = collect_in_range(list, from, ascending, pos, range, room);
    if from >= list.len() || room == 0 {
        assert(got == all.take(0));
    } else if passed(ascending, pos.x as int, range.end as int, list[from].1.x as int) {
        lemma_nothing_in_range_once_passed(list, from, from, ascending, pos, range);
        assert(got == all.take(0));
    } else if not_reached(ascending, pos.x as int, range.end as int, list[from].1.x as int)
        || !range.contains_sq(dist_sq(pos, list[from].1)) {
        if not_reached(ascending, pos.x as int, range.end as int, list[from].1.x as int) {
            lemma_outside_reach_is_outside_range(ascending, pos, range, list[from].1);
        }
        lemma_range_scan_takes_the_first(list, from + 1, ascending, pos, range, room);
    } else {
        lemma_range_scan_takes_the_first(list, from + 1, ascending, pos, range, room - 1);
        let rest = entries_in_range(list, from + 1, pos, range);
        let n = if room - 1 < rest.len() {
            room - 1
        } else {
            rest.len() as int
        };
        assert(all == seq![list[from].0] + rest);
        assert((seq![list[from].0] + rest).take(n + 1) == seq![list[from].0] + rest.take(n));
    }
}

/// On a list that holds no handle twice, the range scan collects no handle
/// twice, and only handles of the list.
pub proof fn lemma_range_scan_collects_each_once(
    list: Seq<(u64, Point)>,
    from: int,
    ascending: bool,
    pos: Point,
    range: DistanceRange,
    room: int,
)
    requires
        line_handles_distinct(list),
        0 <= from <= list.len(),
    ensures
        collect_in_range(list, from, ascending, pos, range, room).no_duplicates(),
        forall|k: int|
            0 <= k < collect_in_range(list, from, ascending, pos, range, room).len()
                ==> is_listed_from(
                list,
                from,
                #[trigger] collect_in_range(list, from, ascending, pos, range, room)[k],
            ),
    decreases list.len() - from,
{
    let got = collect_in_range(list, from, ascending, pos, range, room);
    if from >= list.len() || room <= 0 {
    } else if passed(ascending, pos.x as int, range.end as int, list[from].1.x as int) {
    } else if not_reached(ascending, pos.x as int, range.end as int, list[from].1.x as int)
        || !range.contains_sq(dist_sq(pos, list[from].1)) {
        lemma_range_scan_collects_each_once(list, from + 1, ascending, pos, range, room);
        let rest = collect_in_range(list, from + 1, ascending, pos, range, room);
        assert forall|k: int| 0 <= k < got.len() implies is_listed_from(list, from, #[trigger] got[k]) by {
            assert(is_listed_from(list, from + 1, rest[k]));
            let i = choose|i: int| from + 1 <= i < list.len() && (#[trigger] list[i]).0 == rest[k];
            assert(from <= i < list.len() && list[i].0 == got[k]);
        }
    } else {
        lemma_range_scan_collects_each_once(list, from + 1, ascending, pos, range, room - 1);
        let rest = collect_in_range(list, from + 1, ascending, pos, range, room - 1);
        assert(got == seq![list[from].0] + rest);
        assert forall|k: int| 0 <= k < got.len() implies is_listed_from(list, from, #[trigger] got[k]) by {
            if k == 0 {
                assert(list[from].0 == got[k]);
            } else {
                assert(got[k] == rest[k - 1]);
                assert(is_listed_from(list, from + 1, rest[k - 1]));
                let i = choose|i: int|
                    from + 1 <= i < list.len() && (#[trigger] list[i]).0 == rest[k - 1];
                assert(from <= i < list.len() && list[i].0 == got[k]);
            }
        }
        assert forall|a: int, b: int| 0 <= a < got.len() && 0 <= b < got.len() && a != b implies got[a]
            != got[b] by {
            if a == 0 || b == 0 {
                let k = if a == 0 {
                    b
                } else {
                    a
                };
                assert(got[k] == rest[k - 1]);
                assert(is_listed_from(list, from + 1, rest[k - 1]));
                let i = choose|i: int|
                    from + 1 <= i < list.len() && (#[trigger] list[i]).0 == rest[k - 1];
                assert(list[from].0 != list[i].0);
            } else {
                assert(got[a] == rest[a - 1] && got[b] == rest[b - 1]);
            }
        }
    }
}

/// Some entry of `list` from the place `from` on has the handle `handle`.
pub open spec fn is_listed_from(list: Seq<(u64, Point)>, from: int, handle: u64) -> bool {
    exists|i: int| from <= i < list.len() && (#[trigger] list[i]).0 == handle
}

/// One of the two teams.
#[derive(Clone, Copy, Debug, PartialEq, Eq, Structural)]
pub enum Team {
    Left,
    Right,
}

/// What a team sees of the index: its own line, the enemy's line, and the
/// scans of both. The enemy's line runs toward greater `x` for the left team
/// and toward lesser `x` for the right team; a team's own line runs the other
/// way.
pub trait UnitTeam {
    /// Which team this is.
    spec fn side() -> Team;

    fn team_units(search_map: &UnitSearchMap) -> (units: &Vec<(u64, Point)>)
        ensures
            *units == (if Self::side() == Team::Left {
                search_map.lefts
            } else {
                search_map.rights
            }),
    ;

    fn enemy_units(search_map: &UnitSearchMap) -> (units: &Vec<(u64, Point)>)
        ensures
            *units == (if Self::side() == Team::Left {
                search_map.rights
            } else {
                search_map.lefts
            }),
    ;

    /// The first enemy in `enemy_units` whose `x` is within `view_range` of `pos`.
    fn enemy_in_view_range(view_range: i32, pos: &Point, enemy_units: &Vec<(u64, Point)>) -> (found:
        Option<u64>)
        ensures
            found == first_in_view(
                enemy_units@,
                0,
                Self::side() == Team::Left,
                pos.x as int,
                view_range as int,
            ),
    ;

    /// At most `max_units` enemies of `enemy_units` whose distance from `pos`
    /// lies in `range`.
    fn enemies_in_range(
        range: &DistanceRange,
        pos: &Point,
        enemy_units: &Vec<(u64, Point)>,
        max_units: usize,
    ) -> (found: Vec<u64>)
        ensures
            found@ == collect_in_range(
                enemy_units@,
                0,
                Self::side() == Team::Left,
                *pos,
                *range,
                max_units as int,
            ),
    ;

    /// At most `max_units` units of `team_units` whose distance from `pos`
    /// lies in `range`.
    fn teammates_in_range(
        range: &DistanceRange,
        pos: &Point,
        team_units: &Vec<(u64, Point)>,
        max_units: usize,
    ) -> (found: Vec<u64>)
        ensures
            found@ == collect_in_range(
                team_units@,
                0,
                Self::side() == Team::Right,
                *pos,
                *range,
                max_units as int,
            ),
    ;
}

/// The team that starts on the left and attacks toward greater `x`.
#[derive(Clone, Copy, Debug, PartialEq, Eq, Structural)]
pub struct UnitTeamLeft;

/// The team that starts on the right and attacks toward lesser `x`.
#[derive(Clone, Copy, Debug, PartialEq, Eq, Structural)]
pub struct UnitTeamRight;

impl UnitTeam for UnitTeamLeft {
    open spec fn side() -> Team {
        Team::Left
    }

    fn team_units(search_map: &UnitSearchMap) -> (units: &Vec<(u64, Point)>) {
        &search_map.lefts
    }

    fn enemy_units(search_map: &UnitSearchMap) -> (units: &Vec<(u64, Point)>) {
        &search_map.rights
    }

    fn enemy_in_view_range(view_range: i32, pos: &Point, enemy_units: &Vec<(u64, Point)>) -> (found:
        Option<u64>) {
        scan_in_view(enemy_units, true, pos, view_range)
    }

    fn enemies_in_range(
        range: &DistanceRange,
        pos: &Point,
        enemy_units: &Vec<(u64, Point)>,
        max_units: usize,
    ) -> (found: Vec<u64>) {
        scan_in_range(enemy_units, true, range, pos, max_units)
    }

    fn teammates_in_range(
        range: &DistanceRange,
        pos: &Point,
        team_units: &Vec<(u64, Point)>,
        max_units: usize,
    ) -> (found: Vec<u64>) {
        scan_in_range(team_units, false, range, pos, max_units)
    }
}

impl UnitTeam for UnitTeamRight {
    open spec fn side() -> Team {
        Team::Right
    }

    fn team_units(search_map: &UnitSearchMap) -> (units: &Vec<(u64, Point)>) {
        &search_map.rights
    }

    fn enemy_units(search_map: &UnitSearchMap) -> (units: &Vec<(u64, Point)>) {
        &search_map.lefts
    }

    fn enemy_in_view_range(view_range: i32, pos: &Point, enemy_units: &Vec<(u64, Point)>) -> (found:
        Option<u64>) {
        scan_in_view(enemy_units, false, pos, view_range)
    }

    fn enemies_in_range(
        range: &DistanceRange,
        pos: &Point,
        enemy_units: &Vec<(u64, Point)>,
        max_units: usize,
    ) -> (found: Vec<u64>) {
        scan_in_range(enemy_units, false, range, pos, max_units)
    }

    fn teammates_in_range(
        range: &DistanceRange,
        pos: &Point,
        team_units: &Vec<(u64, Point)>,
        max_units: usize,
    ) -> (found: Vec<u64>) {
        scan_in_range(team_units, true, range, pos, max_units)
    }
}

} // verus!
