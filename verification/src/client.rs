use vstd::prelude::*;

use crate::game::Entity;
use crate::game::EntityV;
use crate::game::GameState;
use crate::game::GameStateV;
use crate::game::lemma_char_idx;
use crate::game::lemma_id_idx;
use crate::game::spec_add_clamped;
use crate::game::spec_add_or_replace_char;
use crate::game::spec_add_or_replace_id;
use crate::game::spec_char_idx;
use crate::game::spec_entity_lerp;
use crate::game::spec_id_idx;
use crate::math::Complex;
use crate::math::Point;
use crate::math::Vector;
use crate::math::point_in_range;
use crate::server::spec_bound_correct;

verus! {

/// The three world snapshots a client keeps: what it renders (continuously
/// mutated by local prediction) and the last two authoritative broadcasts,
/// for interpolation.
pub struct GameStateQueue {
    pub prediction: GameState,
    pub last_received: GameState,
    pub penultimate_received: GameState,
}

impl GameStateQueue {
    pub fn new() -> (r: Self)
        ensures
            r.prediction.wf(),
            r.last_received.wf(),
            r.penultimate_received.wf(),
            r.prediction.deep_view().entities.len() == 0,
            r.last_received.deep_view().entities.len() == 0,
            r.penultimate_received.deep_view().entities.len() == 0,
    {
        Self {
            prediction: GameState::new(),
            last_received: GameState::new(),
            penultimate_received: GameState::new(),
        }
    }
}

/// Install a freshly received broadcast: the previous broadcast becomes the
/// penultimate one, the new state becomes both the latest broadcast and the
/// working prediction. When the broadcast echoes a sequence number older than
/// the inputs already applied locally, and the player has not been killed,
/// the player's own predicted character is spliced back in, so the local
/// avatar does not snap backward while the server catches up.
pub fn apply_broadcast(
    queue: &mut GameStateQueue,
    killed: bool,
    sequence_number: u32,
    game_state: GameState,
    last_sequence_number: u32,
    player_id: Option<u64>,
)
    ensures
        final(queue).penultimate_received.deep_view() == old(queue).last_received.deep_view(),
        final(queue).last_received.deep_view() == game_state.deep_view(),
        ({
            let pred0 = old(queue).prediction.deep_view().entities;
            let splice = sequence_number < last_sequence_number && !killed && player_id is Some
                && spec_char_idx(pred0, player_id.unwrap()) >= 0;
            if splice {
                let saved = pred0[spec_char_idx(pred0, player_id.unwrap())];
                &&& final(queue).prediction.deep_view().entities == spec_add_or_replace_char(
                    game_state.deep_view().entities,
                    player_id.unwrap(),
                    saved,
                )
                &&& final(queue).prediction.world_bounds == game_state.world_bounds
                &&& final(queue).prediction.next_entity_id == game_state.next_entity_id
                &&& final(queue).prediction.kills@ == game_state.kills@
            } else {
                final(queue).prediction.deep_view() == game_state.deep_view()
            }
        }),
{
    let ghost pred0 = queue.prediction.deep_view().entities;
    let mut saved: Option<Entity> = None;
    match player_id {
        Some(pid) => {
            proof {
                lemma_char_idx(pred0, pid);
            }
            match queue.prediction.find_character_by_player_id(pid) {
                Some(i) => {
                    proof {
                        assert(spec_char_idx(pred0, pid) == i as int);
                    }
                    saved = Some(queue.prediction.entities[i].clone_entity());
                },
                None => {
                    proof {
                        assert(spec_char_idx(pred0, pid) < 0);
                    }
                },
            }
        },
        None => {},
    }
    let mut tmp = game_state;
    let ghost bc = tmp.deep_view();
    queue.penultimate_received = queue.last_received.clone_state();
    queue.last_received = tmp.clone_state();
    queue.prediction = tmp;
    if sequence_number < last_sequence_number && !killed {
        match (player_id, saved) {
            (Some(pid), Some(e)) => {
                proof {
                    lemma_char_idx(bc.entities, pid);
                }
                let ghost ev = e.deep_view();
                queue.prediction.add_or_replace_character_by_player_id(pid, e);
                proof {
                    let k = spec_char_idx(bc.entities, pid);
                    if k >= 0 {
                        assert(queue.prediction.deep_view().entities =~= bc.entities.update(
                            k,
                            ev,
                        ));
                    } else {
                        assert(queue.prediction.deep_view().entities =~= bc.entities.push(ev));
                    }
                }
            },
            _ => {},
        }
    }
}

/// The entity installed for one remote entity of the latest broadcast: when
/// the penultimate broadcast knows the same id, position and rotation blend
/// at `num / den`; otherwise the latest state is taken as is.
pub open spec fn spec_merge_entity(a_ents: Seq<EntityV>, bev: EntityV, num: int, den: int) -> EntityV {
    let i = spec_id_idx(a_ents, bev.id);
    if i >= 0 {
        spec_entity_lerp(a_ents[i], bev, num, den)
    } else {
        bev
    }
}

/// The interpolation merge of two broadcasts into the render state: every
/// entity of the latest broadcast, except those of the local player, is
/// installed into the result, blended with the penultimate broadcast where
/// possible.
pub open spec fn spec_lerp_merge(
    result: Seq<EntityV>,
    a_ents: Seq<EntityV>,
    b_ents: Seq<EntityV>,
    num: int,
    den: int,
    ignore_with_player_id: u64,
) -> Seq<EntityV>
    decreases b_ents.len(),
{
    if b_ents.len() == 0 {
        result
    } else {
        let r2 = if b_ents[0].player_id == ignore_with_player_id {
            result
        } else {
            spec_add_or_replace_id(
                result,
                b_ents[0].id,
                spec_merge_entity(a_ents, b_ents[0], num, den),
            )
        };
        spec_lerp_merge(r2, a_ents, b_ents.drop_first(), num, den, ignore_with_player_id)
    }
}

impl GameState {
    /// Blend two historical broadcasts into the render state, leaving the
    /// local player's own entities to full prediction fidelity.
    pub fn lerp_merge(
        result: &mut GameState,
        a: &GameState,
        b: &GameState,
        t_num: i64,
        t_den: i64,
        ignore_with_player_id: u64,
    )
        requires
            0 < t_den <= 0x4000000000000,
            0 <= t_num <= t_den,
            a.wf(),
            b.wf(),
        ensures
            final(result).deep_view().entities == spec_lerp_merge(
                old(result).deep_view().entities,
                a.deep_view().entities,
                b.deep_view().entities,
                t_num as int,
                t_den as int,
                ignore_with_player_id,
            ),
            final(result).world_bounds == old(result).world_bounds,
            final(result).next_entity_id == old(result).next_entity_id,
            final(result).kills@ == old(result).kills@,
    {
        let ghost res0 = result.deep_view().entities;
        let ghost av = a.deep_view().entities;
        let ghost bv = b.deep_view().entities;
        let n: usize = b.entities.len();
        let mut i: usize = 0;
        proof {
            assert(bv.skip(0) =~= bv);
        }
        while i < n
            invariant
                0 <= i <= n,
                n == b.entities@.len(),
                a.wf(),
                b.wf(),
                av == a.deep_view().entities,
                bv == b.deep_view().entities,
                0 < t_den <= 0x4000000000000,
                0 <= t_num <= t_den,
                result.world_bounds == old(result).world_bounds,
                result.next_entity_id == old(result).next_entity_id,
                result.kills@ == old(result).kills@,
                spec_lerp_merge(res0, av, bv, t_num as int, t_den as int, ignore_with_player_id)
                    == spec_lerp_merge(
                    result.deep_view().entities,
                    av,
                    bv.skip(i as int),
                    t_num as int,
                    t_den as int,
                    ignore_with_player_id,
                ),
            decreases n - i,
        {
            proof {
                assert(bv.skip(i as int).drop_first() =~= bv.skip(i + 1));
                assert(bv.skip(i as int)[0] == bv[i as int]);
                assert(crate::game::entity_wf(bv[i as int]));
            }
            let be = &b.entities[i];
            if be.player_id != ignore_with_player_id {
                let bid: u32 = be.id;
                proof {
                    lemma_id_idx(av, bid);
                }
                let merged: Entity = match a.find_by_id(bid) {
                    Some(j) => {
                        proof {
                            assert(spec_id_idx(av, bid) == j as int);
                            assert(crate::game::entity_wf(av[j as int]));
                        }
                        Entity::lerp(a.entities[j].clone_entity(), be.clone_entity(), t_num, t_den)
                    },
                    None => {
                        proof {
                            assert(spec_id_idx(av, bid) < 0);
                        }
                        be.clone_entity()
                    },
                };
                proof {
                    assert(merged.deep_view() == spec_merge_entity(
                        av,
                        bv[i as int],
                        t_num as int,
                        t_den as int,
                    ));
                    lemma_id_idx(result.deep_view().entities, bid);
                }
                let ghost respre = result.deep_view().entities;
                result.add_or_replace_by_id(bid, merged);
                proof {
                    let k = spec_id_idx(respre, bid);
                    if k >= 0 {
                        assert(result.deep_view().entities =~= spec_add_or_replace_id(
                            respre,
                            bid,
                            spec_merge_entity(av, bv[i as int], t_num as int, t_den as int),
                        ));
                    } else {
                        assert(result.deep_view().entities =~= spec_add_or_replace_id(
                            respre,
                            bid,
                            spec_merge_entity(av, bv[i as int], t_num as int, t_den as int),
                        ));
                    }
                }
            }
            i = i + 1;
        }
        proof {
            assert(bv.skip(n as int) =~= Seq::<EntityV>::empty());
        }
    }
}

/// What one frame of local input does to the predicted world: the player's
/// character moves by the movement vector, faces the mouse, and is pushed
/// back off any world-bound edge. The flag says whether anything changed, so
/// the caller knows to bump the input sequence number and send a package.
pub open spec fn spec_apply_local_input(
    g: GameStateV,
    player_id: u64,
    movement: Vector,
    mouse_pos: Point,
) -> (GameStateV, bool) {
    let ci = spec_char_idx(g.entities, player_id);
    if ci < 0 {
        (g, false)
    } else {
        let c = g.entities[ci];
        let p1 = spec_add_clamped(c.pos, movement);
        let rot = Complex::spec_normalized(
            Vector { x: (mouse_pos.x - p1.x) as i64, y: (mouse_pos.y - p1.y) as i64 },
        );
        let p2 = spec_bound_correct(p1, rot, g.world_bounds, 0, false);
        let changed = movement.x != 0 || movement.y != 0 || rot != c.rot;
        (
            GameStateV {
                entities: g.entities.update(ci, crate::tick::spec_with_motion(c, p2, rot)),
                world_bounds: g.world_bounds,
                next_entity_id: g.next_entity_id,
                kills: g.kills,
            },
            changed,
        )
    }
}

/// Apply one frame of local input to the predicted world.
pub fn apply_local_input(
    gs: &mut GameState,
    player_id: u64,
    movement: Vector,
    mouse_pos: Point,
) -> (changed: bool)
    requires
        old(gs).wf(),
        point_in_range(mouse_pos),
        -0x7fffffffffffff <= movement.x <= 0x7fffffffffffff,
        -0x7fffffffffffff <= movement.y <= 0x7fffffffffffff,
    ensures
        ({
            let r = spec_apply_local_input(old(gs).deep_view(), player_id, movement, mouse_pos);
            &&& final(gs).deep_view() == r.0
            &&& changed == r.1
        }),
        final(gs).wf(),
{
    let ghost g0 = gs.deep_view();
    let found = gs.find_character_by_player_id(player_id);
    proof {
        lemma_char_idx(g0.entities, player_id);
    }
    match found {
        None => {
            proof {
                assert(spec_char_idx(g0.entities, player_id) < 0);
            }
            false
        },
        Some(i) => {
            proof {
                assert(spec_char_idx(g0.entities, player_id) == i as int);
            }
            let old_rot: Complex = gs.entities[i].rot;
            let p1 = gs.entities[i].pos.add_clamped(movement);
            let aim = Vector { x: mouse_pos.x - p1.x, y: mouse_pos.y - p1.y };
            let rot = aim.normalize_into_complex();
            let p2 = crate::server::correct_against_bounds(p1, rot, &gs.world_bounds, false);
            let mut e = gs.entities[i].clone_entity();
            e.pos = p2;
            e.rot = rot;
            crate::util::vec_set(&mut gs.entities, i, e);
            let changed: bool = movement.x != 0 || movement.y != 0 || rot != old_rot;
            proof {
                let r = spec_apply_local_input(g0, player_id, movement, mouse_pos);
                assert(gs.deep_view().entities =~~= r.0.entities);
                assert(gs.deep_view() =~~= r.0);
            }
            changed
        },
    }
}

/// The interpolation fraction between two broadcasts: elapsed time over the
/// previous inter-broadcast interval, capped at one so interpolation never
/// extrapolates past the latest snapshot, and taken as one when no interval
/// is known yet.
pub fn interpolation_fraction(now_ms: u64, last_broadcast_ms: u64, interval_ms: u64) -> (r: (
    i64,
    i64,
))
    ensures
        0 < r.1 <= 0x4000000000000,
        0 <= r.0 <= r.1,
        interval_ms == 0 ==> r.0 == r.1,
        0 < interval_ms <= 0x4000000000000 && crate::tick::spec_age_ms(now_ms, last_broadcast_ms)
            < interval_ms ==> r.0 == crate::tick::spec_age_ms(now_ms, last_broadcast_ms) && r.1
            == interval_ms,
{
    let elapsed: u64 = crate::tick::age_ms(now_ms, last_broadcast_ms);
    if interval_ms == 0 || interval_ms > 0x4000000000000 {
        (1, 1)
    } else if elapsed >= interval_ms {
        (interval_ms as i64, interval_ms as i64)
    } else {
        (elapsed as i64, interval_ms as i64)
    }
}


/// Interpolation at the right endpoint is exact: blending at a fraction of
/// one reproduces the latest state entirely.
pub proof fn lemma_merge_entity_endpoints(a_ents: Seq<EntityV>, bev: EntityV, td: int)
    requires
        td > 0,
    ensures
        spec_merge_entity(a_ents, bev, td, td) == bev,
        spec_id_idx(a_ents, bev.id) >= 0 ==> {
            let ae = a_ents[spec_id_idx(a_ents, bev.id)];
            let m = spec_merge_entity(a_ents, bev, 0, td);
            &&& m.pos == ae.pos
            &&& m.rot == ae.rot
            &&& m.id == bev.id
            &&& m.health == bev.health
            &&& m.role == bev.role
        },
{
    let i = spec_id_idx(a_ents, bev.id);
    if i >= 0 {
        let ae = a_ents[i];
        lemma_lerp_scalar_endpoints(ae.pos.x as int, bev.pos.x as int, td);
        lemma_lerp_scalar_endpoints(ae.pos.y as int, bev.pos.y as int, td);
        lemma_lerp_scalar_endpoints(ae.rot.r as int, bev.rot.r as int, td);
        lemma_lerp_scalar_endpoints(ae.rot.i as int, bev.rot.i as int, td);
        assert(spec_entity_lerp(ae, bev, td, td) == bev);
        assert(spec_entity_lerp(ae, bev, 0, td).pos == ae.pos);
        assert(spec_entity_lerp(ae, bev, 0, td).rot == ae.rot);
    }
}

/// The scalar interpolation is exact at both endpoints.
proof fn lemma_lerp_scalar_endpoints(a: int, b: int, td: int)
    requires
        td > 0,
    ensures
        crate::math::spec_lerp(a, b, 0, td) == a,
        crate::math::spec_lerp(a, b, td, td) == b,
{
    assert((b - a) * 0 == 0) by (nonlinear_arith);
    assert(crate::math::div_trunc(0, td) == 0) by (nonlinear_arith)
        requires
            td > 0,
    ;
    let d = b - a;
    if d >= 0 {
        assert((d * td) / td == d) by (nonlinear_arith)
            requires
                td > 0,
        ;
        assert(d * td >= 0) by (nonlinear_arith)
            requires
                d >= 0,
                td > 0,
        ;
    } else {
        assert(-(d * td) == (-d) * td) by (nonlinear_arith);
        assert(((-d) * td) / td == -d) by (nonlinear_arith)
            requires
                td > 0,
        ;
        assert(d * td < 0) by (nonlinear_arith)
            requires
                d < 0,
                td > 0,
        ;
    }
}

/// The non-interpolating merge: every non-local entity of the latest
/// broadcast installed verbatim.
pub open spec fn spec_install_all(
    result: Seq<EntityV>,
    b_ents: Seq<EntityV>,
    ignore_with_player_id: u64,
) -> Seq<EntityV>
    decreases b_ents.len(),
{
    if b_ents.len() == 0 {
        result
    } else {
        let r2 = if b_ents[0].player_id == ignore_with_player_id {
            result
        } else {
            spec_add_or_replace_id(result, b_ents[0].id, b_ents[0])
        };
        spec_install_all(r2, b_ents.drop_first(), ignore_with_player_id)
    }
}

/// Interpolation determinism at the right endpoint: the merge at a fraction
/// of one reproduces the latest broadcast exactly for every non-local entity.
pub proof fn lemma_lerp_merge_at_one(
    result: Seq<EntityV>,
    a_ents: Seq<EntityV>,
    b_ents: Seq<EntityV>,
    td: int,
    ignore_with_player_id: u64,
)
    requires
        td > 0,
    ensures
        spec_lerp_merge(result, a_ents, b_ents, td, td, ignore_with_player_id)
            == spec_install_all(result, b_ents, ignore_with_player_id),
    decreases b_ents.len(),
{
    if b_ents.len() > 0 {
        lemma_merge_entity_endpoints(a_ents, b_ents[0], td);
        let r2 = if b_ents[0].player_id == ignore_with_player_id {
            result
        } else {
            spec_add_or_replace_id(
                result,
                b_ents[0].id,
                spec_merge_entity(a_ents, b_ents[0], td, td),
            )
        };
        lemma_lerp_merge_at_one(r2, a_ents, b_ents.drop_first(), td, ignore_with_player_id);
    }
}

} // verus!
