use vstd::prelude::*;

verus! {

/// A talent that can be ranked up (Mass Effect 1).
#[derive(Clone, Copy, Debug, PartialEq, Eq, Structural)]
pub struct ComplexTalent {
    pub talent_id: i32,
    pub current_rank: i32,
    pub max_rank: i32,
    pub level_offset: i32,
    pub levels_per_rank: i32,
    pub visual_order: i32,
}

/// A talent that is simply held, with a rank (Mass Effect 1).
#[derive(Clone, Copy, Debug, PartialEq, Eq, Structural)]
pub struct SimpleTalent {
    pub talent_id: i32,
    pub current_rank: i32,
}

/// The points spent in `talents`.
pub open spec fn sum_ranks(talents: Seq<ComplexTalent>) -> int
    decreases talents.len(),
{
    if talents.len() == 0 {
        0
    } else {
        sum_ranks(talents.drop_last()) + talents.last().current_rank
    }
}

/// Whether every running total of `points` plus the ranks of `talents`,
/// taken in order, fits in an `i32`.
pub open spec fn ranks_fit(points: int, talents: Seq<ComplexTalent>) -> bool {
    forall|k: int|
        0 <= k <= talents.len() ==> i32::MIN <= points + #[trigger] sum_ranks(talents.take(k))
            <= i32::MAX
}

/// `talent` with no points spent in it.
pub open spec fn unranked(talent: ComplexTalent) -> ComplexTalent {
    ComplexTalent { current_rank: 0, ..talent }
}

/// Takes back the points spent in `talents`: each rank goes back to zero and
/// its points are added to `talent_points`.
pub fn reset_talents(talent_points: &mut i32, talents: &mut Vec<ComplexTalent>)
    requires
        ranks_fit(*old(talent_points) as int, old(talents)@),
    ensures
        *final(talent_points) == *old(talent_points) + sum_ranks(old(talents)@),
        final(talents)@ == old(talents)@.map_values(|t: ComplexTalent| unranked(t)),
        *final(talent_points) + sum_ranks(final(talents)@) == *old(talent_points) + sum_ranks(
            old(talents)@,
        ),
{
    let ghost start_points = *talent_points;
    let ghost start = talents@;
    let mut i: usize = 0;
    while i < talents.len()
        invariant
            i <= talents.len(),
            talents@.len() == start.len(),
            ranks_fit(start_points as int, start),
            *talent_points == start_points + sum_ranks(start.take(i as int)),
            forall|j: int| 0 <= j < i ==> #[trigger] talents@[j] == unranked(start[j]),
            forall|j: int| i <= j < talents@.len() ==> #[trigger] talents@[j] == start[j],
        decreases talents.len() - i,
    {
        let talent = talents[i];
        proof {
            assert(start.take(i + 1).drop_last() =~= start.take(i as int));
            assert(sum_ranks(start.take(i + 1)) == sum_ranks(start.take(i as int))
                + talent.current_rank);
        }
        *talent_points = *talent_points + talent.current_rank;
        talents.set(i, ComplexTalent { current_rank: 0, ..talent });
        i = i + 1;
    }
    proof {
        assert(start.take(start.len() as int) =~= start);
        assert(talents@ =~= start.map_values(|t: ComplexTalent| unranked(t)));
        lemma_sum_unranked(start);
    }
}

/// Talents with no points spent add up to nothing.
pub proof fn lemma_sum_unranked(talents: Seq<ComplexTalent>)
    ensures
        sum_ranks(talents.map_values(|t: ComplexTalent| unranked(t))) == 0,
    decreases talents.len(),
{
    if talents.len() > 0 {
        lemma_sum_unranked(talents.drop_last());
        assert(talents.map_values(|t: ComplexTalent| unranked(t)).drop_last() =~= talents.drop_last().map_values(
            |t: ComplexTalent| unranked(t),
        ));
    }
}


/// The position of the first talent of `talents` whose id is among `ids`, if any.
#[verifier::opaque]
pub open spec fn first_talent_in(talents: Seq<ComplexTalent>, ids: Seq<i32>) -> Option<int> {
    if exists|i: int| 0 <= i < talents.len() && ids.contains(#[trigger] talents[i].talent_id) {
        Some(
            choose|i: int|
                0 <= i < talents.len() && ids.contains(#[trigger] talents[i].talent_id) && forall|
                    j: int,
                | 0 <= j < i ==> !ids.contains(#[trigger] talents[j].talent_id),
        )
    } else {
        None
    }
}

/// The first matching talent is the one a front-to-back search stops at.
pub proof fn lemma_first_talent_in(talents: Seq<ComplexTalent>, ids: Seq<i32>, i: int)
    requires
        0 <= i < talents.len(),
        ids.contains(talents[i].talent_id),
        forall|j: int| 0 <= j < i ==> !ids.contains(#[trigger] talents[j].talent_id),
    ensures
        first_talent_in(talents, ids) == Some(i),
{
    reveal(first_talent_in);
    let k = choose|k: int|
        0 <= k < talents.len() && ids.contains(#[trigger] talents[k].talent_id) && forall|j: int|
            0 <= j < k ==> !ids.contains(#[trigger] talents[j].talent_id);
    assert(0 <= k < talents.len() && ids.contains(talents[k].talent_id) && forall|j: int|
        0 <= j < k ==> !ids.contains(#[trigger] talents[j].talent_id));
    if k < i {
        assert(!ids.contains(talents[k].talent_id));
    }
    if i < k {
        assert(!ids.contains(talents[i].talent_id));
    }
}

/// Searches `talents` front to back for a talent whose id is among `ids`.
pub fn find_talent_in(talents: &Vec<ComplexTalent>, ids: &[i32]) -> (res: Option<usize>)
    ensures
        first_talent_in(talents@, ids@) is None <==> res is None,
        res matches Some(i) ==> {
            &&& first_talent_in(talents@, ids@) == Some(i as int)
            &&& i < talents@.len()
            &&& ids@.contains(talents@[i as int].talent_id)
        },
{
    let mut i: usize = 0;
    while i < talents.len()
        invariant
            i <= talents.len(),
            forall|j: int| 0 <= j < i ==> !ids@.contains(#[trigger] talents@[j].talent_id),
        decreases talents.len() - i,
    {
        let found = contains_id(ids, talents[i].talent_id);
        if found {
            proof {
                lemma_first_talent_in(talents@, ids@, i as int);
            }
            return Some(i);
        }
        i = i + 1;
    }
    proof {
        reveal(first_talent_in);
    }
    None
}

/// Whether `id` is among `ids`.
pub fn contains_id(ids: &[i32], id: i32) -> (res: bool)
    ensures
        res == ids@.contains(id),
{
    let mut k: usize = 0;
    while k < ids.len()
        invariant
            k <= ids.len(),
            forall|m: int| 0 <= m < k ==> ids@[m] != id,
        decreases ids.len() - k,
    {
        if ids[k] == id {
            return true;
        }
        k = k + 1;
    }
    false
}

/// The simple talents of `talents` whose ids are not among `ids`, in order.
pub fn without_ids(talents: &Vec<SimpleTalent>, ids: &[i32]) -> (res: Vec<SimpleTalent>)
    ensures
        res@ == talents@.filter(|t: SimpleTalent| !ids@.contains(t.talent_id)),
{
    let ghost keep = |t: SimpleTalent| !ids@.contains(t.talent_id);
    let mut kept: Vec<SimpleTalent> = Vec::new();
    let mut i: usize = 0;
    while i < talents.len()
        invariant
            i <= talents.len(),
            keep == (|t: SimpleTalent| !ids@.contains(t.talent_id)),
            kept@ == talents@.take(i as int).filter(keep),
        decreases talents.len() - i,
    {
        let talent = talents[i];
        let listed = contains_id(ids, talent.talent_id);
        proof {
            assert(talents@.take(i + 1) =~= talents@.take(i as int).push(talent));
            talents@.take(i as int).lemma_filter_push(talent, keep);
        }
        if !listed {
            kept.push(talent);
        }
        i = i + 1;
    }
    proof {
        assert(talents@.take(talents@.len() as int) =~= talents@);
    }
    kept
}

/// `talent` turned into the specialization `new_id`, unranked, capped at
/// `max_rank`.
pub open spec fn respecialized(talent: ComplexTalent, new_id: i32, max_rank: i32) -> ComplexTalent {
    ComplexTalent { talent_id: new_id, current_rank: 0, max_rank, ..talent }
}

/// The specialization bonus id that choosing option `spec_idx` among
/// `spec_ids` records: none (`-1`) for the first option.
pub open spec fn specialization_bonus(spec_ids: Seq<i32>, spec_idx: int) -> i32 {
    if spec_idx == 0 {
        -1i32
    } else {
        spec_ids[spec_idx]
    }
}

/// Switches the player's specialization talent (the first talent whose id
/// is one of the class's `spec_ids`) to option `spec_idx`: the points spent
/// in it come back, the talent becomes the chosen one, unranked, with a cap
/// of 6 ranks for no specialization and 12 for a real one. Without such a
/// talent nothing changes.
pub fn set_specialization(
    talent_points: &mut i32,
    specialization_bonus_id: &mut i32,
    talents: &mut Vec<ComplexTalent>,
    spec_ids: &[i32],
    spec_idx: usize,
)
    requires
        first_talent_in(old(talents)@, spec_ids@) matches Some(i) ==> {
            &&& spec_idx < spec_ids@.len()
            &&& i32::MIN <= *old(talent_points) + old(talents)@[i].current_rank <= i32::MAX
        },
    ensures
        match first_talent_in(old(talents)@, spec_ids@) {
            Some(i) => {
                &&& *final(talent_points) == *old(talent_points) + old(talents)@[i].current_rank
                &&& *final(specialization_bonus_id) == specialization_bonus(spec_ids@, spec_idx as int)
                &&& final(talents)@ == old(talents)@.update(
                    i,
                    respecialized(
                        old(talents)@[i],
                        spec_ids@[spec_idx as int],
                        if spec_idx == 0 { 6i32 } else { 12i32 },
                    ),
                )
            },
            None => {
                &&& *final(talent_points) == *old(talent_points)
                &&& *final(specialization_bonus_id) == *old(specialization_bonus_id)
                &&& final(talents)@ == old(talents)@
            },
        },
{
    match find_talent_in(talents, spec_ids) {
        Some(i) => {
            let current = talents[i];
            *talent_points = *talent_points + current.current_rank;
            let new_spec = spec_ids[spec_idx];
            let max_rank: i32 = if spec_idx == 0 { 6 } else { 12 };
            *specialization_bonus_id = if spec_idx == 0 { -1 } else { new_spec };
            talents.set(i, ComplexTalent { talent_id: new_spec, current_rank: 0, max_rank, ..current });
        },
        None => {},
    }
}

/// The bonus talent that is added for the complex talent `complex_id`.
pub open spec fn new_bonus_talent(complex_id: i32) -> ComplexTalent {
    ComplexTalent {
        talent_id: complex_id,
        current_rank: 0,
        max_rank: 12,
        level_offset: -1i32,
        levels_per_rank: 1,
        visual_order: 85,
    }
}

/// The simple talents, of rank 1, that come with a bonus talent.
pub open spec fn granted_simple_talents(simple_ids: Seq<i32>) -> Seq<SimpleTalent> {
    simple_ids.map_values(|id: i32| SimpleTalent { talent_id: id, current_rank: 1 })
}

/// Toggles a bonus talent: when a complex talent `complex_id` is there, it is
/// removed with the simple talents `simple_ids` and the points spent in it
/// are returned; else it is added, unranked, with the simple talents at rank 1.
pub fn toggle_bonus_talent(
    simple_talents: &mut Vec<SimpleTalent>,
    complex_talents: &mut Vec<ComplexTalent>,
    complex_id: i32,
    simple_ids: &[i32],
) -> (spent: Option<i32>)
    ensures
        match first_talent_in(old(complex_talents)@, seq![complex_id]) {
            Some(i) => {
                &&& spent == Some(old(complex_talents)@[i].current_rank)
                &&& final(complex_talents)@ == old(complex_talents)@.remove(i)
                &&& final(simple_talents)@ == old(simple_talents)@.filter(
                    |t: SimpleTalent| !simple_ids@.contains(t.talent_id),
                )
            },
            None => {
                &&& spent is None
                &&& final(complex_talents)@ == old(complex_talents)@.push(new_bonus_talent(complex_id))
                &&& final(simple_talents)@ == old(simple_talents)@ + granted_simple_talents(
                    simple_ids@,
                )
            },
        },
{
    let ids = [complex_id];
    proof {
        assert(ids@ =~= seq![complex_id]);
    }
    match find_talent_in(complex_talents, &ids) {
        Some(idx) => {
            let spent_points = complex_talents[idx].current_rank;
            complex_talents.remove(idx);
            let kept = without_ids(simple_talents, simple_ids);
            *simple_talents = kept;
            Some(spent_points)
        },
        None => {
            complex_talents.push(
                ComplexTalent {
                    talent_id: complex_id,
                    current_rank: 0,
                    max_rank: 12,
                    level_offset: -1,
                    levels_per_rank: 1,
                    visual_order: 85,
                },
            );
            let ghost old_simple = simple_talents@;
            let mut k: usize = 0;
            while k < simple_ids.len()
                invariant
                    k <= simple_ids.len(),
                    simple_talents@ == old_simple + granted_simple_talents(
                        simple_ids@.take(k as int),
                    ),
                decreases simple_ids.len() - k,
            {
                simple_talents.push(SimpleTalent { talent_id: simple_ids[k], current_rank: 1 });
                proof {
                    assert(granted_simple_talents(simple_ids@.take(k + 1)) =~= granted_simple_talents(
                        simple_ids@.take(k as int),
                    ).push(SimpleTalent { talent_id: simple_ids@[k as int], current_rank: 1 }));
                    assert(simple_talents@ =~= old_simple + granted_simple_talents(
                        simple_ids@.take(k + 1),
                    ));
                }
                k = k + 1;
            }
            proof {
                assert(simple_ids@.take(simple_ids@.len() as int) =~= simple_ids@);
            }
            None
        },
    }
}

/// Filtering keeps a sequence whose elements all pass.
pub proof fn lemma_filter_all_pass<A>(s: Seq<A>, pred: spec_fn(A) -> bool)
    requires
        forall|i: int| 0 <= i < s.len() ==> pred(#[trigger] s[i]),
    ensures
        s.filter(pred) == s,
    decreases s.len(),
{
    if s.len() > 0 {
        lemma_filter_all_pass(s.drop_last(), pred);
        assert(s.drop_last().push(s.last()) =~= s);
        s.drop_last().lemma_filter_push(s.last(), pred);
    } else {
        assert(s.filter(pred) =~= s);
    }
}

/// Filtering empties a sequence whose elements all fail.
pub proof fn lemma_filter_none_pass<A>(s: Seq<A>, pred: spec_fn(A) -> bool)
    requires
        forall|i: int| 0 <= i < s.len() ==> !pred(#[trigger] s[i]),
    ensures
        s.filter(pred) == Seq::<A>::empty(),
    decreases s.len(),
{
    if s.len() > 0 {
        lemma_filter_none_pass(s.drop_last(), pred);
        assert(s.drop_last().push(s.last()) =~= s);
        s.drop_last().lemma_filter_push(s.last(), pred);
    } else {
        assert(s.filter(pred) =~= Seq::<A>::empty());
    }
}

/// Law: a bonus talent toggled on and then off again leaves both talent
/// lists as they were, when the player had neither the talent nor any of
/// its simple talents.
pub proof fn law_bonus_talent_toggle_undone(
    simple: Seq<SimpleTalent>,
    complex: Seq<ComplexTalent>,
    complex_id: i32,
    simple_ids: Seq<i32>,
)
    requires
        first_talent_in(complex, seq![complex_id]) is None,
        forall|i: int| 0 <= i < simple.len() ==> !simple_ids.contains(#[trigger] simple[i].talent_id),
    ensures
        first_talent_in(complex.push(new_bonus_talent(complex_id)), seq![complex_id]) == Some(complex.len() as int),
        complex.push(new_bonus_talent(complex_id)).remove(complex.len() as int) == complex,
        (simple + granted_simple_talents(simple_ids)).filter(|t: SimpleTalent| !simple_ids.contains(t.talent_id))
            == simple,
{
    let ids = seq![complex_id];
    let added = complex.push(new_bonus_talent(complex_id));
    reveal(first_talent_in);
    assert forall|j: int| 0 <= j < complex.len() implies !ids.contains(#[trigger] added[j].talent_id) by {
        assert(added[j] == complex[j]);
        if ids.contains(complex[j].talent_id) {
            assert(0 <= j < complex.len() && ids.contains(complex[j].talent_id));
        }
    }
    assert(ids.contains(added[complex.len() as int].talent_id)) by {
        assert(ids[0] == complex_id);
    }
    lemma_first_talent_in(added, ids, complex.len() as int);
    assert(added.remove(complex.len() as int) =~= complex);
    let keep = |t: SimpleTalent| !simple_ids.contains(t.talent_id);
    let granted = granted_simple_talents(simple_ids);
    Seq::filter_distributes_over_add(simple, granted, keep);
    lemma_filter_all_pass(simple, keep);
    assert forall|i: int| 0 <= i < granted.len() implies !keep(#[trigger] granted[i]) by {
        assert(granted[i].talent_id == simple_ids[i]);
    }
    lemma_filter_none_pass(granted, keep);
    assert(simple + Seq::<SimpleTalent>::empty() =~= simple);
}

/// Law: after the points of some talents are taken back, taking them back
/// again changes nothing and returns no point.
pub proof fn law_reset_talents_idempotent(talents: Seq<ComplexTalent>)
    ensures
        talents.map_values(|t: ComplexTalent| unranked(t)).map_values(|t: ComplexTalent| unranked(t))
            == talents.map_values(|t: ComplexTalent| unranked(t)),
        sum_ranks(talents.map_values(|t: ComplexTalent| unranked(t))) == 0,
{
    lemma_sum_unranked(talents);
    assert(talents.map_values(|t: ComplexTalent| unranked(t)).map_values(|t: ComplexTalent| unranked(t))
        =~= talents.map_values(|t: ComplexTalent| unranked(t)));
}


/// The number of bonus talents.
pub const BONUS_TALENT_COUNT: usize = 15;

/// Bonus talent `idx`: its complex talent id and the ids of the simple
/// talents that come with it (Lift, Throw, Warp, Singularity, Barrier,
/// Stasis, Damping, Hacking, Electronics, Decryption, First Aid, Medicine,
/// Shotguns, Assault Rifles, Sniper Rifles).
pub open spec fn bonus_talent(idx: int) -> (i32, Seq<i32>) {
    if idx == 0 {
        (50i32, seq![248i32])
    } else if idx == 1 {
        (49i32, seq![247i32])
    } else if idx == 2 {
        (56i32, seq![249i32])
    } else if idx == 3 {
        (57i32, seq![250i32])
    } else if idx == 4 {
        (63i32, seq![251i32])
    } else if idx == 5 {
        (64i32, seq![252i32])
    } else if idx == 6 {
        (86i32, seq![254i32])
    } else if idx == 7 {
        (91i32, seq![256i32])
    } else if idx == 8 {
        (84i32, seq![253i32])
    } else if idx == 9 {
        (93i32, seq![255i32])
    } else if idx == 10 {
        (98i32, seq![257i32])
    } else if idx == 11 {
        (99i32, seq![257i32, 258i32])
    } else if idx == 12 {
        (15i32, seq![244i32])
    } else if idx == 13 {
        (7i32, seq![245i32])
    } else {
        (21i32, seq![246i32])
    }
}

/// The name of bonus talent `idx`.
pub open spec fn bonus_talent_name(idx: int) -> Seq<char> {
    if idx == 0 {
        "Lift"@
    } else if idx == 1 {
        "Throw"@
    } else if idx == 2 {
        "Warp"@
    } else if idx == 3 {
        "Singularity"@
    } else if idx == 4 {
        "Barrier"@
    } else if idx == 5 {
        "Stasis"@
    } else if idx == 6 {
        "Damping"@
    } else if idx == 7 {
        "Hacking"@
    } else if idx == 8 {
        "Electronics"@
    } else if idx == 9 {
        "Decryption"@
    } else if idx == 10 {
        "First Aid"@
    } else if idx == 11 {
        "Medicine"@
    } else if idx == 12 {
        "Shotguns"@
    } else if idx == 13 {
        "Assault Rifles"@
    } else {
        "Sniper Rifles"@
    }
}

/// Law: the bonus talents, in the panel's order (Lift, Throw, Warp,
/// Singularity, Barrier, Stasis, Damping, Hacking, Electronics, Decryption,
/// First Aid, Medicine, Shotguns, Assault Rifles, Sniper Rifles), are these
/// complex talents, each granting these simple talents.
pub proof fn law_bonus_talent_table(idx: int)
    requires
        0 <= idx < 15,
    ensures
        bonus_talent(idx).0 == seq![50i32, 49, 56, 57, 63, 64, 86, 91, 84, 93, 98, 99, 15, 7, 21][idx],
        bonus_talent(idx).1 == seq![
            seq![248i32],
            seq![247i32],
            seq![249i32],
            seq![250i32],
            seq![251i32],
            seq![252i32],
            seq![254i32],
            seq![256i32],
            seq![253i32],
            seq![255i32],
            seq![257i32],
            seq![257i32, 258],
            seq![244i32],
            seq![245i32],
            seq![246i32],
        ][idx],
        bonus_talent_name(idx) == seq![
            "Lift"@,
            "Throw"@,
            "Warp"@,
            "Singularity"@,
            "Barrier"@,
            "Stasis"@,
            "Damping"@,
            "Hacking"@,
            "Electronics"@,
            "Decryption"@,
            "First Aid"@,
            "Medicine"@,
            "Shotguns"@,
            "Assault Rifles"@,
            "Sniper Rifles"@,
        ][idx],
{
}

/// Law: no two bonus talents are the same complex talent, and no two share
/// a simple talent, but for First Aid and Medicine, which both grant 257.
pub proof fn law_bonus_talents_distinct(i: int, j: int, a: int, b: int)
    requires
        0 <= i < 15,
        0 <= j < 15,
        i != j,
        0 <= a < bonus_talent(i).1.len(),
        0 <= b < bonus_talent(j).1.len(),
    ensures
        bonus_talent(i).0 != bonus_talent(j).0,
        bonus_talent(i).1[a] == bonus_talent(j).1[b] ==> (
            bonus_talent(i).1[a] == 257 && (i == 10 || i == 11) && (j == 10 || j == 11)),
{
}

/// Bonus talent `idx` (see `bonus_talent`).
pub fn bonus_talent_entry(idx: usize) -> (entry: (i32, Vec<i32>))
    requires
        idx < BONUS_TALENT_COUNT,
    ensures
        entry.0 == bonus_talent(idx as int).0,
        entry.1@ == bonus_talent(idx as int).1,
{
    let entry: (i32, Vec<i32>) = {
    if idx == 0 {
        (50, vec![248])
    } else if idx == 1 {
        (49, vec![247])
    } else if idx == 2 {
        (56, vec![249])
    } else if idx == 3 {
        (57, vec![250])
    } else if idx == 4 {
        (63, vec![251])
    } else if idx == 5 {
        (64, vec![252])
    } else if idx == 6 {
        (86, vec![254])
    } else if idx == 7 {
        (91, vec![256])
    } else if idx == 8 {
        (84, vec![253])
    } else if idx == 9 {
        (93, vec![255])
    } else if idx == 10 {
        (98, vec![257])
    } else if idx == 11 {
        (99, vec![257, 258])
    } else if idx == 12 {
        (15, vec![244])
    } else if idx == 13 {
        (7, vec![245])
    } else {
        (21, vec![246])
    }
    };
    proof {
        assert(entry.1@ =~= bonus_talent(idx as int).1);
    }
    entry
}

/// The name of bonus talent `idx`.
pub fn bonus_talent_label(idx: usize) -> (name: &'static str)
    requires
        idx < BONUS_TALENT_COUNT,
    ensures
        name@ == bonus_talent_name(idx as int),
{
    if idx == 0 {
        "Lift"
    } else if idx == 1 {
        "Throw"
    } else if idx == 2 {
        "Warp"
    } else if idx == 3 {
        "Singularity"
    } else if idx == 4 {
        "Barrier"
    } else if idx == 5 {
        "Stasis"
    } else if idx == 6 {
        "Damping"
    } else if idx == 7 {
        "Hacking"
    } else if idx == 8 {
        "Electronics"
    } else if idx == 9 {
        "Decryption"
    } else if idx == 10 {
        "First Aid"
    } else if idx == 11 {
        "Medicine"
    } else if idx == 12 {
        "Shotguns"
    } else if idx == 13 {
        "Assault Rifles"
    } else {
        "Sniper Rifles"
    }
}

/// The bonus talents panel (Mass Effect 1 Legendary Edition).
pub struct BonusTalents;

impl BonusTalents {
    /// Toggles bonus talent `talent_idx` (see `toggle_bonus_talent`) and
    /// gives what the panel reports to its owner: the points that were
    /// spent in a removed talent.
    pub fn update(
        &mut self,
        simple_talents: &mut Vec<SimpleTalent>,
        complex_talents: &mut Vec<ComplexTalent>,
        talent_idx: usize,
    ) -> (res: (bool, Option<i32>))
        requires
            talent_idx < BONUS_TALENT_COUNT,
        ensures
            !res.0,
            match first_talent_in(old(complex_talents)@, seq![bonus_talent(talent_idx as int).0]) {
                Some(i) => {
                    &&& res.1 == Some(old(complex_talents)@[i].current_rank)
                    &&& final(complex_talents)@ == old(complex_talents)@.remove(i)
                    &&& final(simple_talents)@ == old(simple_talents)@.filter(
                        |t: SimpleTalent| !bonus_talent(talent_idx as int).1.contains(t.talent_id),
                    )
                },
                None => {
                    &&& res.1 is None
                    &&& final(complex_talents)@ == old(complex_talents)@.push(new_bonus_talent(bonus_talent(talent_idx as int).0))
                    &&& final(simple_talents)@ == old(simple_talents)@ + granted_simple_talents(
                        bonus_talent(talent_idx as int).1,
                    )
                },
            },
    {
        let (complex_id, simple_ids) = bonus_talent_entry(talent_idx);
        let spent = toggle_bonus_talent(simple_talents, complex_talents, complex_id, simple_ids.as_slice());
        (false, spent)
    }
}
/// When some talent of `talents` has an id among `ids`, the first such
/// talent is found: its position is in range, it has a listed id, and no
/// talent before it has one; when none has, nothing is found.
pub proof fn lemma_first_talent_in_found(talents: Seq<ComplexTalent>, ids: Seq<i32>)
    ensures
        (exists|j: int| 0 <= j < talents.len() && ids.contains(#[trigger] talents[j].talent_id)) ==> {
            &&& first_talent_in(talents, ids) is Some
            &&& 0 <= first_talent_in(talents, ids)->0 < talents.len()
            &&& ids.contains(talents[first_talent_in(talents, ids)->0].talent_id)
            &&& forall|k: int| 0 <= k < first_talent_in(talents, ids)->0 ==> !ids.contains(#[trigger] talents[k].talent_id)
        },
        (forall|j: int| 0 <= j < talents.len() ==> !ids.contains(#[trigger] talents[j].talent_id)) ==> first_talent_in(
            talents,
            ids,
        ) is None,
{
    if exists|j: int| 0 <= j < talents.len() && ids.contains(#[trigger] talents[j].talent_id) {
        let j = choose|j: int| 0 <= j < talents.len() && ids.contains(#[trigger] talents[j].talent_id);
        lemma_least_match(talents, ids, j);
    } else {
        reveal(first_talent_in);
    }
}

/// Below any match there is a least one, which `first_talent_in` gives.
proof fn lemma_least_match(talents: Seq<ComplexTalent>, ids: Seq<i32>, j: int)
    requires
        0 <= j < talents.len(),
        ids.contains(talents[j].talent_id),
    ensures
        first_talent_in(talents, ids) is Some,
        0 <= first_talent_in(talents, ids)->0 <= j,
        ids.contains(talents[first_talent_in(talents, ids)->0].talent_id),
        forall|k: int| 0 <= k < first_talent_in(talents, ids)->0 ==> !ids.contains(#[trigger] talents[k].talent_id),
    decreases j,
{
    if exists|k: int| 0 <= k < j && ids.contains(#[trigger] talents[k].talent_id) {
        let k = choose|k: int| 0 <= k < j && ids.contains(#[trigger] talents[k].talent_id);
        lemma_least_match(talents, ids, k);
    } else {
        lemma_first_talent_in(talents, ids, j);
    }
}

} // verus!
