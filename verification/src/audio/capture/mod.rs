pub mod pulse;
