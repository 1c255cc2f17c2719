//! Coherent gradient noise on a simplex lattice.
//!
//! The modules here hold every table lookup and every geometric decision of
//! the noise evaluator as functions on integers. A caller with real-valued
//! coordinates skews and floors them, hands over the base cell together with
//! order keys of the fractional parts, and sums the weighted gradients of the
//! lattice vertices that come back.
//!
//! In exact arithmetic the vertices of a point of the plane are all that
//! weigh on it, and so are those of a point of an octahedron of space; a
//! tetrahedron of space leaves out vertices that weigh a sixth at most.

pub mod open_simplex;
pub mod order;
pub mod permutation;
pub mod reach3;
pub mod simplex2;
pub mod simplex3;
