//! Chrysocolle: the settings model and the bookkeeping rules of an emulator
//! launcher (game catalogue, emulator table, save synchronisation plans).

pub mod catalog;
pub mod checksum;
pub mod emulators;
pub mod paths;
pub mod settings;
pub mod sync;
pub mod table;
pub mod text;
