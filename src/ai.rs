use vstd::prelude::*;

use crate::entity::Unit;
use crate::game_state::Order;
use crate::game_view::{GameView, Navigator};

verus! {

/// A controller: it decides a player's orders from that player's view of
/// the game. A new controller is made for every round; its persistent state
/// lives for the whole game.
pub trait AI: Default {
    /// Data kept from one round to the next.
    type PersistentState: Default;

    fn update<'t, 'g>(&mut self, state: &mut Self::PersistentState, view: GameView<'t, 'g>) -> Vec<
        Order,
    >
        requires
            view.wf(),
    ;
}

/// Persistent state for controllers that keep none.
#[derive(Default)]
pub struct EmptyPersistentState;

/// A controller that never gives an order.
#[derive(Default)]
pub struct IdleAI;

impl AI for IdleAI {
    type PersistentState = EmptyPersistentState;

    fn update<'t, 'g>(&mut self, state: &mut EmptyPersistentState, view: GameView<'t, 'g>) -> Vec<
        Order,
    > {
        Vec::new()
    }
}

/// A controller that sends every worker one step along the shortest route
/// towards the nearest resource pile (the first one listed among equally
/// near piles).
#[derive(Default)]
pub struct TestAI;

impl AI for TestAI {
    type PersistentState = EmptyPersistentState;

    fn update<'t, 'g>(&mut self, state: &mut EmptyPersistentState, view: GameView<'t, 'g>) -> Vec<
        Order,
    > {
        let mut desires: Vec<Order> = Vec::new();
        let units = view.my_units();
        let piles = view.resources();
        let mut i: usize = 0;
        while i < units.len()
            invariant
                view.wf(),
                forall|k: int|
                    #![trigger units@[k]]
                    0 <= k < units@.len() ==> units@[k].navigator.wf()
                        && units@[k].navigator.game_view == view,
                forall|k: int|
                    #![trigger piles@[k]]
                    0 <= k < piles@.len() ==> piles@[k].navigator.wf()
                        && piles@[k].navigator.game_view == view,
            decreases units@.len() - i,
        {
            let unit = units[i];
            match unit.unit {
                Unit::Worker => {
                    let mut best: Option<(Vec<Navigator<'t, 'g>>, u64)> = None;
                    let mut j: usize = 0;
                    while j < piles.len()
                        invariant
                            view.wf(),
                            unit.navigator.wf(),
                            unit.navigator.game_view == view,
                            forall|k: int|
                                #![trigger piles@[k]]
                                0 <= k < piles@.len() ==> piles@[k].navigator.wf()
                                    && piles@[k].navigator.game_view == view,
                        decreases piles@.len() - j,
                    {
                        match unit.navigator.find_path_dijkstra(&piles[j].navigator) {
                            Some((path, cost)) => {
                                let nearer = match &best {
                                    Some((_, best_cost)) => cost < *best_cost,
                                    None => true,
                                };
                                if nearer {
                                    best = Some((path, cost));
                                }
                            },
                            None => {},
                        }
                        j = j + 1;
                    }
                    match best {
                        Some((path, _)) => {
                            if path.len() > 1 {
                                match unit.navigator.direction_to(&path[1]) {
                                    Some(direction) => {
                                        desires.push(Order::Move(unit.entity_id, direction));
                                    },
                                    None => {},
                                }
                            }
                        },
                        None => {},
                    }
                },
                _ => {},
            }
            i = i + 1;
        }
        desires
    }
}

} // verus!
