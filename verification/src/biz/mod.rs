pub mod bilibili;
pub mod callback;
pub mod callback_json;
pub mod card_json;
pub mod cards;
pub mod group;
pub mod summary;
