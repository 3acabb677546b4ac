//! The conditions by which the tables are searched.

use crate::entities::favorite;
use crate::entities::home;
use crate::entities::prelude::{Avatar, Favorite, Home, Login, Session, UserInfo, Watching};
use crate::entities::watching;
use crate::rows::{any, find, Cond, Pick};
use vstd::prelude::*;

verus! {

/// The session that carries a token.
pub struct WithToken<'a> {
    pub token: &'a str,
}

impl<'a> Cond<Session> for WithToken<'a> {
    open spec fn picks(&self, row: &Session) -> bool {
        row.auth_key@ == self.token@
    }
}

impl<'a> Pick<Session> for WithToken<'a> {
    fn test(&self, row: &Session) -> (r: bool) {
        let token: String = self.token.to_owned();
        row.auth_key == token
    }
}

/// The row of a session-keyed table that belongs to one session.
pub struct WithId {
    pub id: i64,
}

impl Cond<Session> for WithId {
    open spec fn picks(&self, row: &Session) -> bool {
        row.id == self.id
    }
}

impl Pick<Session> for WithId {
    fn test(&self, row: &Session) -> (r: bool) {
        row.id == self.id
    }
}

impl Cond<Login> for WithId {
    open spec fn picks(&self, row: &Login) -> bool {
        row.id == self.id
    }
}

impl Pick<Login> for WithId {
    fn test(&self, row: &Login) -> (r: bool) {
        row.id == self.id
    }
}

impl Cond<UserInfo> for WithId {
    open spec fn picks(&self, row: &UserInfo) -> bool {
        row.id == self.id
    }
}

impl Pick<UserInfo> for WithId {
    fn test(&self, row: &UserInfo) -> (r: bool) {
        row.id == self.id
    }
}

impl Cond<Avatar> for WithId {
    open spec fn picks(&self, row: &Avatar) -> bool {
        row.id == self.id
    }
}

impl Pick<Avatar> for WithId {
    fn test(&self, row: &Avatar) -> (r: bool) {
        row.id == self.id
    }
}

/// The credentials that are letter for letter those of `login`.
pub struct WithCredentials<'a> {
    pub login: &'a Login,
}

impl<'a> Cond<Login> for WithCredentials<'a> {
    open spec fn picks(&self, row: &Login) -> bool {
        &&& row.server@ == self.login.server@
        &&& row.username@ == self.login.username@
        &&& row.password@ == self.login.password@
    }
}

impl<'a> Pick<Login> for WithCredentials<'a> {
    fn test(&self, row: &Login) -> (r: bool) {
        row.server == self.login.server && row.username == self.login.username && row.password
            == self.login.password
    }
}

/// The rows that a session owns directly.
pub struct OfSession {
    pub session_id: i64,
}

impl Cond<Avatar> for OfSession {
    open spec fn picks(&self, row: &Avatar) -> bool {
        row.session_id == self.session_id
    }
}

impl Pick<Avatar> for OfSession {
    fn test(&self, row: &Avatar) -> (r: bool) {
        row.session_id == self.session_id
    }
}

impl Cond<Home> for OfSession {
    open spec fn picks(&self, row: &Home) -> bool {
        row.session_id == self.session_id
    }
}

impl Pick<Home> for OfSession {
    fn test(&self, row: &Home) -> (r: bool) {
        row.session_id == self.session_id
    }
}

/// The profile with an id, provided that a given session owns it.
pub struct OwnedBy {
    pub id: i64,
    pub session_id: i64,
}

impl Cond<Avatar> for OwnedBy {
    open spec fn picks(&self, row: &Avatar) -> bool {
        row.id == self.id && row.session_id == self.session_id
    }
}

impl Pick<Avatar> for OwnedBy {
    fn test(&self, row: &Avatar) -> (r: bool) {
        row.id == self.id && row.session_id == self.session_id
    }
}

/// The profile of a session that has a given name.
pub struct Named<'a> {
    pub session_id: i64,
    pub name: &'a String,
}

impl<'a> Cond<Avatar> for Named<'a> {
    open spec fn picks(&self, row: &Avatar) -> bool {
        row.session_id == self.session_id && row.name@ == self.name@
    }
}

impl<'a> Pick<Avatar> for Named<'a> {
    fn test(&self, row: &Avatar) -> (r: bool) {
        row.session_id == self.session_id && row.name == *self.name
    }
}

/// The rows that a profile owns.
pub struct OfAvatar {
    pub avatar_id: i64,
}

impl Cond<Favorite> for OfAvatar {
    open spec fn picks(&self, row: &Favorite) -> bool {
        row.avatar_id == self.avatar_id
    }
}

impl Pick<Favorite> for OfAvatar {
    fn test(&self, row: &Favorite) -> (r: bool) {
        row.avatar_id == self.avatar_id
    }
}

impl Cond<Watching> for OfAvatar {
    open spec fn picks(&self, row: &Watching) -> bool {
        row.avatar_id == self.avatar_id
    }
}

impl Pick<Watching> for OfAvatar {
    fn test(&self, row: &Watching) -> (r: bool) {
        row.avatar_id == self.avatar_id
    }
}

/// The rows whose owner is one of the profiles that a session has in a table of profiles.
pub struct OwnedIn {
    pub avatars: Seq<Avatar>,
    pub session_id: i64,
}

impl Cond<Favorite> for OwnedIn {
    open spec fn picks(&self, row: &Favorite) -> bool {
        any(self.avatars, &OwnedBy { id: row.avatar_id, session_id: self.session_id })
    }
}

impl Cond<Watching> for OwnedIn {
    open spec fn picks(&self, row: &Watching) -> bool {
        any(self.avatars, &OwnedBy { id: row.avatar_id, session_id: self.session_id })
    }
}

/// `OwnedIn` over a table held in a vector, so that it can be tested.
pub struct OfSessionAvatars<'a> {
    pub avatars: &'a Vec<Avatar>,
    pub session_id: i64,
}

impl<'a> Cond<Favorite> for OfSessionAvatars<'a> {
    open spec fn picks(&self, row: &Favorite) -> bool {
        any(self.avatars@, &OwnedBy { id: row.avatar_id, session_id: self.session_id })
    }
}

impl<'a> Pick<Favorite> for OfSessionAvatars<'a> {
    fn test(&self, row: &Favorite) -> (r: bool) {
        find(self.avatars, &OwnedBy { id: row.avatar_id, session_id: self.session_id }).is_some()
    }
}

impl<'a> Cond<Watching> for OfSessionAvatars<'a> {
    open spec fn picks(&self, row: &Watching) -> bool {
        any(self.avatars@, &OwnedBy { id: row.avatar_id, session_id: self.session_id })
    }
}

impl<'a> Pick<Watching> for OfSessionAvatars<'a> {
    fn test(&self, row: &Watching) -> (r: bool) {
        find(self.avatars, &OwnedBy { id: row.avatar_id, session_id: self.session_id }).is_some()
    }
}

/// The favorite of a profile for one catalog item.
pub struct FavoriteKey {
    pub avatar_id: i64,
    pub kind: favorite::Kind,
    pub value_id: i64,
}

impl Cond<Favorite> for FavoriteKey {
    open spec fn picks(&self, row: &Favorite) -> bool {
        row.avatar_id == self.avatar_id && row.kind == self.kind && row.value_id == self.value_id
    }
}

impl Pick<Favorite> for FavoriteKey {
    fn test(&self, row: &Favorite) -> (r: bool) {
        row.avatar_id == self.avatar_id && row.kind == self.kind && row.value_id == self.value_id
    }
}

/// The favorites of one kind.
pub struct FavoriteOfKind {
    pub kind: favorite::Kind,
}

impl Cond<Favorite> for FavoriteOfKind {
    open spec fn picks(&self, row: &Favorite) -> bool {
        row.kind == self.kind
    }
}

impl Pick<Favorite> for FavoriteOfKind {
    fn test(&self, row: &Favorite) -> (r: bool) {
        row.kind == self.kind
    }
}

/// The playback position of a profile in one movie or series.
pub struct WatchingKey {
    pub avatar_id: i64,
    pub kind: watching::Kind,
    pub value_id: i64,
}

impl Cond<Watching> for WatchingKey {
    open spec fn picks(&self, row: &Watching) -> bool {
        row.avatar_id == self.avatar_id && row.kind == self.kind && row.value_id == self.value_id
    }
}

impl Pick<Watching> for WatchingKey {
    fn test(&self, row: &Watching) -> (r: bool) {
        row.avatar_id == self.avatar_id && row.kind == self.kind && row.value_id == self.value_id
    }
}

/// The positions of a profile in a series that are in another episode than a given one.
pub struct OtherEpisode {
    pub avatar_id: i64,
    pub value_id: i64,
    pub episode_id: i64,
}

impl Cond<Watching> for OtherEpisode {
    open spec fn picks(&self, row: &Watching) -> bool {
        &&& row.avatar_id == self.avatar_id
        &&& row.kind == watching::Kind::Serie
        &&& row.value_id == self.value_id
        &&& row.episode_id != Some(self.episode_id)
    }
}

impl Pick<Watching> for OtherEpisode {
    fn test(&self, row: &Watching) -> (r: bool) {
        let other: bool = match row.episode_id {
            Some(episode) => episode != self.episode_id,
            None => true,
        };
        row.avatar_id == self.avatar_id && row.kind == watching::Kind::Serie && row.value_id
            == self.value_id && other
    }
}

/// The positions last written before an instant. One written at the
/// instant itself is not among them.
pub struct Stale {
    pub cutoff: i64,
}

impl Cond<Watching> for Stale {
    open spec fn picks(&self, row: &Watching) -> bool {
        row.date < self.cutoff
    }
}

impl Pick<Watching> for Stale {
    fn test(&self, row: &Watching) -> (r: bool) {
        row.date < self.cutoff
    }
}

/// Every position.
pub struct EveryPosition {}

impl Cond<Watching> for EveryPosition {
    open spec fn picks(&self, row: &Watching) -> bool {
        true
    }
}

impl Pick<Watching> for EveryPosition {
    fn test(&self, row: &Watching) -> (r: bool) {
        true
    }
}

/// The entries of the top list of a home feed.
pub struct TopEntry {}

impl Cond<Home> for TopEntry {
    open spec fn picks(&self, row: &Home) -> bool {
        row.kind == home::Kind::TopMovie || row.kind == home::Kind::TopSerie
    }
}

impl Pick<Home> for TopEntry {
    fn test(&self, row: &Home) -> (r: bool) {
        row.kind == home::Kind::TopMovie || row.kind == home::Kind::TopSerie
    }
}

/// The entries of one kind of a home feed.
pub struct HomeOfKind {
    pub kind: home::Kind,
}

impl Cond<Home> for HomeOfKind {
    open spec fn picks(&self, row: &Home) -> bool {
        row.kind == self.kind
    }
}

impl Pick<Home> for HomeOfKind {
    fn test(&self, row: &Home) -> (r: bool) {
        row.kind == self.kind
    }
}

} // verus!
