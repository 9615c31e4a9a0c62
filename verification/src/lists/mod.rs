//! Singly linked lists that own their nodes.

pub mod generic;
pub mod numbers;
