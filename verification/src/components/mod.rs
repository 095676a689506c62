pub mod activity;
pub mod background;
pub mod model;
pub mod segments;
pub mod hero;
pub mod navbar;
pub mod news;

pub use model::{
    image_srcset, is_external_link, is_working_hour, publication_action_kind, unsplash_with_width,
    url_origin, PublicationActionKind,
};
