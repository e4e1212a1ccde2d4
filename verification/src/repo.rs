//! Repository layer: parameterized queries and idempotent mutations over
//! the store, one module per table.
pub mod order;
pub mod state;
pub mod trade;
