//! A small solver core for resistive DC networks by Modified Nodal Analysis:
//! a dense MNA matrix assembled from per-element stamps and factored by LU
//! with partial pivoting through a pluggable scalar backend, a rename-safe
//! allocator of dense integer ids for nodes and source rows, and a netlist of
//! two-pin elements whose edits keep the matrix consistent.

pub mod circuit;
pub mod ns;
pub mod solver;
pub mod types;
