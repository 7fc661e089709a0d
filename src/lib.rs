//! Conway's Game of Life on a fixed toroidal grid, with an editing mode that
//! freezes the automaton and lets a pointer toggle single cells.
//!
//! `grid` holds the automaton core: the cell grid, the toroidal neighbour
//! count, the birth/survival rule and the double-buffered generation step.
//! `edit` holds the interaction state and the decisions of the frame loop.
pub mod grid;
pub mod edit;
