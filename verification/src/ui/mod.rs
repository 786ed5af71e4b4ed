pub mod navigation;

pub use navigation::{Navigation, NavigationAction, NavigationElement};
