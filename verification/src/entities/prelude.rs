//! The rows under the names that the rest of the crate uses.

pub use super::avatar::Model as Avatar;
pub use super::favorite::Model as Favorite;
pub use super::home::Model as Home;
pub use super::login::Model as Login;
pub use super::session::Model as Session;
pub use super::userinfo::Model as UserInfo;
pub use super::watching::Model as Watching;
