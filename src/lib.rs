// Conway-style cellular automaton on a toroidal grid, with a configurable
// birth/survival rule, per-cell ages and population and generation counters.
pub mod cell;
pub mod grid;
pub mod laws;
pub mod rule;
pub mod universe;
