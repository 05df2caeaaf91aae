//! Reading and editing Mass Effect trilogy save games.
//!
//! The crate holds the byte-level decoding of save files (a cursor over the
//! raw bytes, the `SaveData` decoders of the primitive types and of the
//! Mass Effect 3 save game), and the editing rules that keep a save game
//! consistent when its player, plot or powers are changed.

pub mod error;
pub mod cursor;
pub mod text_encoding;
pub mod seq_lemmas;
pub mod save_data;
pub mod index_map;
pub mod mass_effect_3;
pub mod talents;
pub mod items;
pub mod plot;
pub mod me1_le;
pub mod me1_leg;
pub mod text;
pub mod me3_general;
pub mod me2_general;
pub mod plot_filter;
pub mod raw_plot;
pub mod label_list;
pub mod inventory;
pub mod plot_category;
pub mod bonus_powers;
pub mod markup;
pub mod head_morph;
pub mod selection;
