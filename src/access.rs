//! Data guarded by security levels that are only partially ordered.
use vstd::prelude::*;
use std::cmp::Ordering;
use crate::address::Address;

verus! {

/// A set of security levels: partially ordered, with a lowest and a highest
/// level. A holder may change data whose level its own level is at least.
pub trait SecurityLevel: Sized {
    /// `self` is at least `other` in the order of levels.
    spec fn dominates(&self, other: &Self) -> bool;

    /// `self` is the highest level.
    spec fn is_highest(&self) -> bool;

    /// The lowest level.
    spec fn lowest() -> Self;

    /// The lowest level, which every level is at least.
    fn lowest_level() -> (r: Self)
        ensures
            r == Self::lowest(),
            forall|l: Self| #[trigger] l.dominates(&r),
    ;

    /// The highest level.
    fn highest_level() -> (r: Self)
        ensures
            r.is_highest(),
    ;

    /// Whether `self` is at least `other`.
    fn at_least(&self, other: &Self) -> (r: bool)
        ensures
            r == self.dominates(other),
    ;

    /// Whether `self` is the highest level.
    fn is_highest_level(&self) -> (r: bool)
        ensures
            r == self.is_highest(),
    ;
}

/// Four levels: `Admin` above two moderators, who are above `User`; the two
/// moderators are not comparable.
#[derive(Clone, Copy, Debug, PartialEq, Eq, Structural)]
pub enum SecurityLevelImpl {
    Admin,
    ModeratorA,
    ModeratorB,
    User,
}

/// `a` lies strictly below `b`.
pub open spec fn strictly_below(a: SecurityLevelImpl, b: SecurityLevelImpl) -> bool {
    ||| a == SecurityLevelImpl::User && b != SecurityLevelImpl::User
    ||| (a == SecurityLevelImpl::ModeratorA || a == SecurityLevelImpl::ModeratorB) && b
        == SecurityLevelImpl::Admin
}

/// The comparison of two levels: `None` for the two moderators.
pub open spec fn compare_levels(a: SecurityLevelImpl, b: SecurityLevelImpl) -> Option<Ordering> {
    if a == b {
        Some(Ordering::Equal)
    } else if strictly_below(a, b) {
        Some(Ordering::Less)
    } else if strictly_below(b, a) {
        Some(Ordering::Greater)
    } else {
        None
    }
}

impl PartialOrd for SecurityLevelImpl {
    fn partial_cmp(&self, other: &Self) -> (r: Option<Ordering>) {
        if *self == *other {
            Some(Ordering::Equal)
        } else {
            match (*self, *other) {
                (SecurityLevelImpl::User, _) => Some(Ordering::Less),
                (_, SecurityLevelImpl::User) => Some(Ordering::Greater),
                (_, SecurityLevelImpl::Admin) => Some(Ordering::Less),
                (SecurityLevelImpl::Admin, _) => Some(Ordering::Greater),
                _ => None,
            }
        }
    }
}

impl vstd::std_specs::cmp::PartialOrdSpecImpl for SecurityLevelImpl {
    open spec fn obeys_partial_cmp_spec() -> bool {
        true
    }

    open spec fn partial_cmp_spec(&self, other: &Self) -> Option<Ordering> {
        compare_levels(*self, *other)
    }
}

impl SecurityLevel for SecurityLevelImpl {
    open spec fn dominates(&self, other: &Self) -> bool {
        *self == *other || strictly_below(*other, *self)
    }

    open spec fn is_highest(&self) -> bool {
        *self == SecurityLevelImpl::Admin
    }

    open spec fn lowest() -> Self {
        SecurityLevelImpl::User
    }

    fn lowest_level() -> (r: Self) {
        SecurityLevelImpl::User
    }

    fn highest_level() -> (r: Self) {
        SecurityLevelImpl::Admin
    }

    fn at_least(&self, other: &Self) -> (r: bool) {
        match self.partial_cmp(other) {
            Some(Ordering::Greater) | Some(Ordering::Equal) => true,
            _ => false,
        }
    }

    fn is_highest_level(&self) -> (r: bool) {
        *self == SecurityLevelImpl::Admin
    }
}

/// Why a change to protected data or to a level was refused.
#[derive(Clone, Copy, Debug, PartialEq, Eq, Structural)]
pub enum AccessError {
    /// The holder's level is not at least the level of the data.
    LevelTooLow,
    /// Only the highest level may change the level of data.
    NotHighestLevel,
    /// The sender's level is not strictly above the level of the user it would change.
    CannotUpdateUser,
    /// The sender's level is not at least the level it would grant.
    CannotGrantLevel,
    /// The object is already lent out.
    AlreadyLentOut,
    /// Only the holder who borrowed the object may return it.
    NotBorrower,
}

/// Data protected by a security level.
pub struct ProtectedData<L: SecurityLevel, E> {
    pub level: L,
    pub data: E,
}

impl<L: SecurityLevel, E> ProtectedData<L, E> {
    /// Replaces the data, if `user_level` is at least the level of the data.
    pub fn update_data(&mut self, user_level: L, new_data: E) -> (r: Result<(), AccessError>)
        ensures
            r is Ok <==> user_level.dominates(&old(self).level),
            r matches Err(e) ==> e == AccessError::LevelTooLow,
            final(self).level == old(self).level,
            final(self).data == (if r is Ok {
                new_data
            } else {
                old(self).data
            }),
    {
        if user_level.at_least(&self.level) {
            self.data = new_data;
            Ok(())
        } else {
            Err(AccessError::LevelTooLow)
        }
    }

    /// Replaces the level that protects the data, if `user_level` is the
    /// highest level.
    pub fn update_level(&mut self, user_level: L, new_level: L) -> (r: Result<(), AccessError>)
        ensures
            r is Ok <==> user_level.is_highest(),
            r matches Err(e) ==> e == AccessError::NotHighestLevel,
            final(self).data == old(self).data,
            final(self).level == (if r is Ok {
                new_level
            } else {
                old(self).level
            }),
    {
        if user_level.is_highest_level() {
            self.level = new_level;
            Ok(())
        } else {
            Err(AccessError::NotHighestLevel)
        }
    }
}

/// The index of `user`'s entry among the first `n` entries, searching from the
/// end; `-1` when there is none.
pub open spec fn level_index_below<L>(s: Seq<(Address, L)>, user: Address, n: int) -> int
    decreases n,
{
    if n <= 0 {
        -1
    } else if s[n - 1].0 == user {
        n - 1
    } else {
        level_index_below(s, user, n - 1)
    }
}

/// The index of `user`'s entry; `-1` when there is none.
pub open spec fn level_index<L>(s: Seq<(Address, L)>, user: Address) -> int {
    level_index_below(s, user, s.len() as int)
}

/// The level of `user` according to the entries `s`: the lowest level for a
/// user without an entry.
pub open spec fn level_of<L: SecurityLevel>(s: Seq<(Address, L)>, user: Address) -> L {
    let i = level_index(s, user);
    if i >= 0 {
        s[i].1
    } else {
        L::lowest()
    }
}

/// The entries `s` with `user`'s level set to `level`.
pub open spec fn with_level<L>(s: Seq<(Address, L)>, user: Address, level: L) -> Seq<(Address, L)> {
    let i = level_index(s, user);
    if i >= 0 {
        s.update(i, (user, level))
    } else {
        s.push((user, level))
    }
}

proof fn lemma_level_index_below_range<L>(s: Seq<(Address, L)>, user: Address, n: int)
    requires
        0 <= n <= s.len(),
    ensures
        -1 <= level_index_below(s, user, n) < n,
    decreases n,
{
    if n > 0 {
        lemma_level_index_below_range(s, user, n - 1);
    }
}

/// The level of each user; users without an entry hold the lowest level.
pub struct AccessControlMap<L: SecurityLevel + Copy> {
    pub map: Vec<(Address, L)>,
}

impl<L: SecurityLevel + Copy> AccessControlMap<L> {
    /// A map in which every user holds the lowest level.
    pub fn new() -> (r: Self)
        ensures
            r.map@.len() == 0,
    {
        AccessControlMap { map: Vec::new() }
    }

    fn find(&self, user: &Address) -> (r: Option<usize>)
        ensures
            r matches Some(i) ==> i == level_index(self.map@, *user),
            r is None ==> level_index(self.map@, *user) == -1,
    {
        let mut i: usize = self.map.len();
        while i > 0
            invariant
                i <= self.map.len(),
                level_index_below(self.map@, *user, i as int) == level_index(self.map@, *user),
            decreases i,
        {
            if self.map[i - 1].0 == *user {
                return Some(i - 1);
            }
            i = i - 1;
        }
        None
    }

    /// The level of `user`, or the lowest level if `user` has none.
    pub fn get_user_level(&self, user: &Address) -> (r: L)
        ensures
            r == level_of(self.map@, *user),
    {
        proof {
            lemma_level_index_below_range(self.map@, *user, self.map@.len() as int);
        }
        match self.find(user) {
            Some(i) => self.map[i].1,
            None => L::lowest_level(),
        }
    }

    /// Sets the level of `user` to `new_level` on behalf of `sender`. The sender
    /// must be strictly above the user's current level, and at least the new
    /// level.
    pub fn update_user_level(&mut self, sender: &Address, user: Address, new_level: L) -> (r: Result<
        (),
        AccessError,
    >)
        ensures
            ({
                let sender_level = level_of(old(self).map@, *sender);
                let user_level = level_of(old(self).map@, user);
                let above = sender_level.dominates(&user_level) && !user_level.dominates(
                    &sender_level,
                );
                &&& !above ==> r == Err::<(), AccessError>(AccessError::CannotUpdateUser)
                &&& above && !sender_level.dominates(&new_level) ==> r == Err::<(), AccessError>(
                    AccessError::CannotGrantLevel,
                )
                &&& r is Ok <==> above && sender_level.dominates(&new_level)
                &&& final(self).map@ == if r is Ok {
                    with_level(old(self).map@, user, new_level)
                } else {
                    old(self).map@
                }
            }),
    {
        let sender_level = self.get_user_level(sender);
        let user_level = self.get_user_level(&user);
        if !(sender_level.at_least(&user_level) && !user_level.at_least(&sender_level)) {
            return Err(AccessError::CannotUpdateUser);
        }
        if !sender_level.at_least(&new_level) {
            return Err(AccessError::CannotGrantLevel);
        }
        proof {
            lemma_level_index_below_range(self.map@, user, self.map@.len() as int);
        }
        match self.find(&user) {
            Some(i) => {
                self.map.set(i, (user, new_level));
            },
            None => {
                self.map.push((user, new_level));
            },
        }
        Ok(())
    }
}

/// An object that holders may borrow and describe, each according to its level.
pub struct ContractState {
    /// The level of each holder.
    pub access_map: AccessControlMap<SecurityLevelImpl>,
    /// The description of the object, by default changed only by `Admin`.
    pub description: ProtectedData<SecurityLevelImpl, String>,
    /// Who holds the object, if it is lent out; by default anyone may borrow it.
    pub currently_held_by: ProtectedData<SecurityLevelImpl, Option<Address>>,
}

impl ContractState {
    /// An object described by `description`, with `sender` as its only `Admin`.
    pub fn initialize(sender: Address, description: String) -> (r: ContractState)
        ensures
            r.access_map.map@ == seq![(sender, SecurityLevelImpl::Admin)],
            r.description.level == SecurityLevelImpl::Admin,
            r.description.data == description,
            r.currently_held_by.level == SecurityLevelImpl::User,
            r.currently_held_by.data is None,
    {
        let mut map: Vec<(Address, SecurityLevelImpl)> = Vec::new();
        map.push((sender, SecurityLevelImpl::Admin));
        ContractState {
            access_map: AccessControlMap { map },
            description: ProtectedData { level: SecurityLevelImpl::Admin, data: description },
            currently_held_by: ProtectedData { level: SecurityLevelImpl::User, data: None },
        }
    }

    /// Replaces the description, if `sender`'s level is at least its level.
    pub fn update_description(&mut self, sender: Address, new_description: String) -> (r: Result<
        (),
        AccessError,
    >)
        ensures
            r is Ok <==> level_of(old(self).access_map.map@, sender).dominates(
                &old(self).description.level,
            ),
            r matches Err(e) ==> e == AccessError::LevelTooLow,
            final(self).description.data == (if r is Ok {
                new_description
            } else {
                old(self).description.data
            }),
            final(self).description.level == old(self).description.level,
            final(self).access_map.map@ == old(self).access_map.map@,
            final(self).currently_held_by == old(self).currently_held_by,
    {
        let level = self.access_map.get_user_level(&sender);
        self.description.update_data(level, new_description)
    }

    /// Lends the object to `sender`, if it is not lent out and `sender`'s level
    /// is at least the level required to borrow.
    pub fn borrow_object(&mut self, sender: Address) -> (r: Result<(), AccessError>)
        ensures
            old(self).currently_held_by.data is Some ==> r == Err::<(), AccessError>(
                AccessError::AlreadyLentOut,
            ),
            old(self).currently_held_by.data is None ==> (r is Ok <==> level_of(
                old(self).access_map.map@,
                sender,
            ).dominates(&old(self).currently_held_by.level)),
            final(self).currently_held_by.data == (if r is Ok {
                Some(sender)
            } else {
                old(self).currently_held_by.data
            }),
            r matches Err(e) ==> e == AccessError::AlreadyLentOut || e == AccessError::LevelTooLow,
            final(self).currently_held_by.level == old(self).currently_held_by.level,
            final(self).access_map.map@ == old(self).access_map.map@,
            final(self).description == old(self).description,
    {
        if self.currently_held_by.data.is_some() {
            return Err(AccessError::AlreadyLentOut);
        }
        let level = self.access_map.get_user_level(&sender);
        self.currently_held_by.update_data(level, Some(sender))
    }

    /// Takes the object back from `sender`, if `sender` borrowed it.
    pub fn return_object(&mut self, sender: Address) -> (r: Result<(), AccessError>)
        ensures
            r is Ok <==> old(self).currently_held_by.data == Some(sender),
            r matches Err(e) ==> e == AccessError::NotBorrower,
            final(self).currently_held_by.data == (if r is Ok {
                None
            } else {
                old(self).currently_held_by.data
            }),
            final(self).currently_held_by.level == old(self).currently_held_by.level,
            final(self).access_map.map@ == old(self).access_map.map@,
            final(self).description == old(self).description,
    {
        let borrowed_by_sender = match self.currently_held_by.data {
            Some(holder) => holder == sender,
            None => false,
        };
        if !borrowed_by_sender {
            return Err(AccessError::NotBorrower);
        }
        self.currently_held_by.data = None;
        Ok(())
    }

    /// Sets the level that protects the description, if `sender` is `Admin`.
    pub fn update_description_level(&mut self, sender: Address, new_level: SecurityLevelImpl) -> (r:
        Result<(), AccessError>)
        ensures
            r is Ok <==> level_of(old(self).access_map.map@, sender) == SecurityLevelImpl::Admin,
            r matches Err(e) ==> e == AccessError::NotHighestLevel,
            final(self).description.level == (if r is Ok {
                new_level
            } else {
                old(self).description.level
            }),
            final(self).description.data == old(self).description.data,
            final(self).access_map.map@ == old(self).access_map.map@,
            final(self).currently_held_by == old(self).currently_held_by,
    {
        let level = self.access_map.get_user_level(&sender);
        self.description.update_level(level, new_level)
    }

    /// Sets the level required to borrow the object, if `sender` is `Admin`.
    pub fn update_borrow_level(&mut self, sender: Address, new_level: SecurityLevelImpl) -> (r: Result<
        (),
        AccessError,
    >)
        ensures
            r is Ok <==> level_of(old(self).access_map.map@, sender) == SecurityLevelImpl::Admin,
            r matches Err(e) ==> e == AccessError::NotHighestLevel,
            final(self).currently_held_by.level == (if r is Ok {
                new_level
            } else {
                old(self).currently_held_by.level
            }),
            final(self).currently_held_by.data == old(self).currently_held_by.data,
            final(self).access_map.map@ == old(self).access_map.map@,
            final(self).description == old(self).description,
    {
        let level = self.access_map.get_user_level(&sender);
        self.currently_held_by.update_level(level, new_level)
    }

    /// Sets the level of `user` on behalf of `sender`; see
    /// `AccessControlMap::update_user_level`.
    pub fn update_user_level(&mut self, sender: Address, user: Address, new_level: SecurityLevelImpl) -> (r:
        Result<(), AccessError>)
        ensures
            ({
                let sender_level = level_of(old(self).access_map.map@, sender);
                let user_level = level_of(old(self).access_map.map@, user);
                let above = sender_level.dominates(&user_level) && !user_level.dominates(
                    &sender_level,
                );
                &&& !above ==> r == Err::<(), AccessError>(AccessError::CannotUpdateUser)
                &&& above && !sender_level.dominates(&new_level) ==> r == Err::<(), AccessError>(
                    AccessError::CannotGrantLevel,
                )
                &&& r is Ok <==> above && sender_level.dominates(&new_level)
                &&& final(self).access_map.map@ == if r is Ok {
                    with_level(old(self).access_map.map@, user, new_level)
                } else {
                    old(self).access_map.map@
                }
            }),
            final(self).description == old(self).description,
            final(self).currently_held_by == old(self).currently_held_by,
    {
        self.access_map.update_user_level(&sender, user, new_level)
    }
}

} // verus!
