//! The pieces of the curve's state.

pub mod fees;
