pub mod expr;
pub mod commit;
pub mod recorder;
pub mod roundtrip;

pub use recorder::{init_registers, AstCoreMachine, PendingBatch, Write};
