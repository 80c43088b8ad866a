//! A two-dimensional particle toy: an anchored rope that follows a pointer,
//! enemies that chase the rope's anchor and collide with the rope and with
//! each other, and food that the rope picks up.
//!
//! # Numbers
//!
//! Every length, coordinate and duration is a fixed-point integer, in
//! millionths of a world unit or of a second (see [`fixed`]).  Division
//! rounds toward zero.  The world is a square of a million units each way
//! from the origin; a position that a step would carry over its border
//! stays on the border.  Lengths are square roots rounded down; whether one
//! distance is below or above another is decided on the squares, where
//! nothing is rounded.  A displacement of length zero has no direction, and
//! every rule that needs one leaves such a pair of points alone.
//!
//! # A tick
//!
//! [`world::World::update`] advances everything by one tick, in this order:
//!
//! 1. the rope is integrated, relaxed, and its anchor is put on the target
//!    ([`rope::Rope::update`]); the anchor is pinned after the relaxation,
//!    so the rest of the rope starts to follow a moved anchor one tick later;
//! 2. every enemy seeks the target ([`enemy::Enemy::update`]), in as many
//!    seek steps as the rope has relaxation rounds, each step taking its
//!    direction from where the enemy then stands;
//! 3. the rope pushes the enemies out ([`collision::rope_collisions`]);
//! 4. the enemies push each other apart ([`collision::enemy_collisions`]);
//! 5. enemies appear and are culled ([`spawn::spawn_enemies`]);
//! 6. food appears and is eaten ([`spawn::spawn_food`]).
//!
//! Newcomers appear off the anchor by one drawn distance on both axes.
//! Each function that draws at random has a twin, named with `_with`, that
//! takes the draws as arguments and is fully determined by them.
//!
//! # Contracts
//!
//! Each type has a mathematical model, its view, over unbounded integers
//! and sequences, and an invariant `wf` that its constructors establish and
//! its methods keep.  The contract of each function gives its result as a
//! function of the models of its arguments.  The modules whose names end in
//! `_laws` hold what is proved of those functions taken together.

pub mod fixed;
pub mod vec2;
pub mod config;
mod random;
pub mod rope;
pub mod rope_laws;
pub mod enemy;
pub mod enemy_laws;
pub mod food;
pub mod timer;
pub mod collision;
pub mod spawn;
pub mod spawn_laws;
pub mod world;
pub mod pointer;
