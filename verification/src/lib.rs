//! Verified core of a small immediate-mode GUI application: the application
//! state record, the event-step logic that the per-frame update applies to it,
//! and the persistence codec that saves the state across runs.
pub mod codec;
pub mod date;
pub mod event;
pub mod links;
pub mod state;

pub use date::Date;
pub use date::current_date;
pub use date::days_in_month;
pub use date::is_leap_year;
pub use event::BooleanControl;
pub use links::doc_link_label;
pub use links::doc_link_label_with_crate;
pub use event::ChoiceControl;
pub use event::GalleryEvent;
pub use event::UiEvent;
pub use state::Choice;
pub use state::Color;
pub use state::TemplateApp;
pub use state::quit_menu_shown;
