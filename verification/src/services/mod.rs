pub mod data_stores;
