//! A Rubik's cube model with verified face turns, and a solver that runs a
//! bidirectional breadth-first search and then iterative-deepening A* with
//! an endgame table. Every executable function carries a contract proved by
//! Verus; the laws of the cube (inverse moves, commuting opposite faces, ...)
//! are proof functions beside the code they concern.
pub mod control;
pub mod cube;
pub mod scene;
pub mod solver;
