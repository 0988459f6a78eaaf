pub mod node;
pub mod queue;
pub mod scope;
pub mod stack;
