pub mod adjacency;
pub mod indexing;
pub mod point;
pub mod traits;
pub mod vertex;
pub mod vertices;
