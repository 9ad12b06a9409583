pub mod tags;
