//! Trust scoring and relationship management: the decision logic behind
//! multi-dimensional trust policies, progressive trust levels and a social
//! relationship graph with transitive inference.

pub mod multidimensional_trust;
pub mod relationships;
pub mod text;
pub mod trust_scoring;
