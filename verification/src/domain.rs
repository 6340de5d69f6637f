pub mod playlist;
pub mod predicate;
pub mod song;
