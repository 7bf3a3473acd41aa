//! What stands around the chat: the status strip, the meter, banners and icons.

pub mod banner;
pub mod figures;
pub mod icons;
pub mod metrics;
pub mod status_pill;
pub mod status_strip;
pub mod top_bar;
