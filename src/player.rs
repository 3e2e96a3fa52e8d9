//! The player's input actions, inventory, spawning and animation choice.

use vstd::prelude::*;

use crate::fixed::abs;

verus! {

/// The player's input actions.
#[derive(Clone, Copy, Debug, PartialEq, Eq, Hash, Structural)]
pub enum PlayerAction {
    Move,
    Run,
    Jump,
    DropDown,
    Respawn,
}

/// Debugging input actions.
#[derive(Clone, Copy, Debug, PartialEq, Eq, Hash, Structural)]
pub enum DebugAction {
    ShowColliders,
}

/// The coins the player has collected.
#[derive(Clone, Copy, Debug, PartialEq, Eq, Structural)]
pub struct Inventory {
    pub collected_coins: i32,
}

impl Default for Inventory {
    fn default() -> (r: Inventory)
        ensures
            r.collected_coins == 0,
    {
        Inventory { collected_coins: 0 }
    }
}

/// Sent for each coin collected.
#[derive(Clone, Copy, Debug, PartialEq, Eq, Structural)]
pub struct CoinCollected {
    pub amount_collected: i32,
    pub total_collected: i32,
}

/// Adds `coins` collected coins to the inventory, one at a time, and
/// returns the event sent for each.
pub fn coin_collection_system(inventory: &mut Inventory, coins: u32) -> (events: Vec<CoinCollected>)
    requires
        old(inventory).collected_coins + coins <= i32::MAX,
    ensures
        final(inventory).collected_coins == old(inventory).collected_coins + coins,
        events@.len() == coins,
        forall|k: int| 0 <= k < coins ==> #[trigger] events@[k] == (CoinCollected {
            amount_collected: 1,
            total_collected: (old(inventory).collected_coins + k + 1) as i32,
        }),
{
    let mut events: Vec<CoinCollected> = Vec::new();
    let mut n: u32 = 0;
    while n < coins
        invariant
            0 <= n <= coins,
            old(inventory).collected_coins + coins <= i32::MAX,
            inventory.collected_coins == old(inventory).collected_coins + n,
            events@.len() == n,
            forall|k: int| 0 <= k < n ==> #[trigger] events@[k] == (CoinCollected {
                amount_collected: 1,
                total_collected: (old(inventory).collected_coins + k + 1) as i32,
            }),
        decreases coins - n,
    {
        inventory.collected_coins = inventory.collected_coins + 1;
        events.push(CoinCollected { amount_collected: 1, total_collected: inventory.collected_coins });
        n += 1;
    }
    events
}

/// What to do with a request to spawn the player.
#[derive(Clone, Copy, Debug, PartialEq, Eq, Structural)]
pub enum PlayerSpawn {
    /// A live player exists: nothing is spawned.
    Keep,
    /// No player exists: spawn one.
    Spawn,
    /// The player is dead: remove it and spawn a new one.
    Replace,
}

/// Decides a spawn request from the existing player, given as whether it
/// is dead, or `None` when there is no single player.
pub fn spawn_player_system(existing: Option<bool>) -> (r: PlayerSpawn)
    ensures
        r == match existing {
            None => PlayerSpawn::Spawn,
            Some(true) => PlayerSpawn::Replace,
            Some(false) => PlayerSpawn::Keep,
        },
{
    match existing {
        None => PlayerSpawn::Spawn,
        Some(dead) => {
            if dead {
                PlayerSpawn::Replace
            } else {
                PlayerSpawn::Keep
            }
        },
    }
}

/// The level restarts when the respawn action is pressed while no live
/// player exists.
pub fn restart_level_on_input_system(live_player: bool, respawn_pressed: bool) -> (r: bool)
    ensures
        r == (!live_player && respawn_pressed),
{
    !live_player && respawn_pressed
}

/// The animation the player's sprite plays.
#[derive(Clone, Copy, Debug, PartialEq, Eq, Structural)]
pub enum PlayerAnimation {
    Idle,
    Run,
    Jump,
}

/// Below this horizontal input (0.01, in thousandths) the player counts as
/// standing still.
pub const IDLE_INPUT: i32 = 10;

/// The player's sprite orientation and animation from the horizontal input
/// (in thousandths) and whether the player is grounded: the sprite faces
/// the way of the input and keeps its orientation when there is none; on
/// the ground the player idles or runs, in the air it jumps.
pub fn player_animation_system(move_direction: i32, grounded: bool, flip_x: bool) -> (r: (bool, PlayerAnimation))
    ensures
        r.0 == if move_direction < 0 {
            true
        } else if move_direction > 0 {
            false
        } else {
            flip_x
        },
        r.1 == if !grounded {
            PlayerAnimation::Jump
        } else if abs(move_direction as int) <= IDLE_INPUT {
            PlayerAnimation::Idle
        } else {
            PlayerAnimation::Run
        },
{
    let flip = if move_direction < 0 {
        true
    } else if move_direction > 0 {
        false
    } else {
        flip_x
    };
    let animation = if !grounded {
        PlayerAnimation::Jump
    } else if -IDLE_INPUT <= move_direction && move_direction <= IDLE_INPUT {
        PlayerAnimation::Idle
    } else {
        PlayerAnimation::Run
    };
    (flip, animation)
}

} // verus!
