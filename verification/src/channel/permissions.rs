//! The access levels a user can hold in a channel, and what each allows.

use std::cmp::Ordering;

use vstd::prelude::*;
use vstd::std_specs::cmp::PartialOrdSpec;

verus! {

/// A user's access level in a channel, lowest first.
#[derive(Copy, Clone, Debug, PartialEq, Eq, Structural, Ord, Hash)]
pub enum Permission {
    Ban,
    Normal,
    Voice,
    HalfOperator,
    Operator,
    Founder,
}

/// The channel modes that set or clear an access level; any other mode is
/// `Other`.
#[derive(Copy, Clone, Debug, PartialEq, Eq, Structural)]
pub enum ChannelModeFlag {
    Ban,
    Voice,
    Halfop,
    Oper,
    Founder,
    Other,
}

/// A change of a channel mode on a user, as sent in a `MODE` message.
#[derive(Clone, Debug, PartialEq, Eq)]
pub struct ModeChange {
    /// Whether the mode is set (`+`) or cleared (`-`).
    pub add: bool,
    pub mode: ChannelModeFlag,
    pub argument: Option<String>,
}

/// A channel mode that does not stand for an access level.
#[derive(Copy, Clone, Debug, PartialEq, Eq, Structural)]
pub struct UnknownAccessLevel;

impl Permission {
    /// The stored value of the level; banned users sort below normal ones.
    pub open spec fn level(self) -> i16 {
        match self {
            Permission::Ban => -1i16,
            Permission::Normal => 0i16,
            Permission::Voice => 1i16,
            Permission::HalfOperator => 0x7ffdi16,
            Permission::Operator => 0x7ffei16,
            Permission::Founder => 0x7fffi16,
        }
    }

    /// The mode prefixes clients are told about, in `ISUPPORT` form.
    pub fn supported_prefixes() -> (s: &'static str)
        ensures
            s@ == "(qohv)~@%+"@,
    {
        "(qohv)~@%+"
    }

    /// The stored value of this level.
    pub fn as_level(self) -> (r: i16)
        ensures
            r == self.level(),
    {
        match self {
            Permission::Ban => -1,
            Permission::Normal => 0,
            Permission::Voice => 1,
            Permission::HalfOperator => 0x7ffd,
            Permission::Operator => 0x7ffe,
            Permission::Founder => 0x7fff,
        }
    }

    /// The level stored as `v`, if `v` is the value of one.
    pub fn from_level(v: i16) -> (r: Option<Permission>)
        ensures
            match r {
                Some(p) => p.level() == v,
                None => forall|p: Permission| p.level() != v,
            },
    {
        if v == -1 {
            Some(Permission::Ban)
        } else if v == 0 {
            Some(Permission::Normal)
        } else if v == 1 {
            Some(Permission::Voice)
        } else if v == 0x7ffd {
            Some(Permission::HalfOperator)
        } else if v == 0x7ffe {
            Some(Permission::Operator)
        } else if v == 0x7fff {
            Some(Permission::Founder)
        } else {
            None
        }
    }

    /// The access level a channel mode stands for.
    pub open spec fn from_mode_spec(mode: ChannelModeFlag) -> Result<Permission, UnknownAccessLevel> {
        match mode {
            ChannelModeFlag::Ban => Ok(Permission::Ban),
            ChannelModeFlag::Voice => Ok(Permission::Voice),
            ChannelModeFlag::Halfop => Ok(Permission::HalfOperator),
            ChannelModeFlag::Oper => Ok(Permission::Operator),
            ChannelModeFlag::Founder => Ok(Permission::Founder),
            ChannelModeFlag::Other => Err(UnknownAccessLevel),
        }
    }

    /// The channel mode that sets this level; `Normal` has none.
    pub open spec fn mode_spec(self) -> Option<ChannelModeFlag> {
        match self {
            Permission::Ban => Some(ChannelModeFlag::Ban),
            Permission::Normal => None,
            Permission::Voice => Some(ChannelModeFlag::Voice),
            Permission::HalfOperator => Some(ChannelModeFlag::Halfop),
            Permission::Operator => Some(ChannelModeFlag::Oper),
            Permission::Founder => Some(ChannelModeFlag::Founder),
        }
    }

    /// The channel mode that sets this level; `Normal` has none.
    pub fn mode(self) -> (r: Option<ChannelModeFlag>)
        ensures
            r == self.mode_spec(),
    {
        match self {
            Permission::Ban => Some(ChannelModeFlag::Ban),
            Permission::Normal => None,
            Permission::Voice => Some(ChannelModeFlag::Voice),
            Permission::HalfOperator => Some(ChannelModeFlag::Halfop),
            Permission::Operator => Some(ChannelModeFlag::Oper),
            Permission::Founder => Some(ChannelModeFlag::Founder),
        }
    }

    /// Builds the mode message that sets (or clears) this permission on
    /// `mask`.
    pub fn into_mode(self, add: bool, mask: String) -> (r: Option<ModeChange>)
        ensures
            match self.mode_spec() {
                Some(m) => {
                    &&& r is Some
                    &&& r->0.add == add
                    &&& r->0.mode == m
                    &&& r->0.argument is Some
                    &&& r->0.argument->0@ == mask@
                },
                None => r is None,
            },
    {
        match self.mode() {
            Some(mode) => Some(ModeChange { add, mode, argument: Some(mask) }),
            None => None,
        }
    }

    /// The prefix shown before a nick holding this permission.
    pub open spec fn prefix_spec(self) -> Seq<char> {
        match self {
            Permission::Ban | Permission::Normal => ""@,
            Permission::Voice => "+"@,
            Permission::HalfOperator => "%"@,
            Permission::Operator => "@"@,
            Permission::Founder => "~"@,
        }
    }

    /// The prefix shown before a nick holding this permission.
    pub fn into_prefix(self) -> (s: &'static str)
        ensures
            s@ == self.prefix_spec(),
    {
        match self {
            Permission::Ban | Permission::Normal => "",
            Permission::Voice => "+",
            Permission::HalfOperator => "%",
            Permission::Operator => "@",
            Permission::Founder => "~",
        }
    }

    /// Whether the user may chat in the channel.
    pub fn can_chatter(self) -> (b: bool)
        ensures
            b == (self != Permission::Ban),
    {
        self != Permission::Ban
    }

    /// Whether the user may join the channel.
    pub fn can_join(self) -> (b: bool)
        ensures
            b == (self != Permission::Ban),
    {
        self != Permission::Ban
    }

    /// Half operators and above.
    pub open spec fn can_set_topic_spec(self) -> bool {
        self.level() >= Permission::HalfOperator.level()
    }

    /// Whether the user may set the channel topic.
    pub fn can_set_topic(self) -> (b: bool)
        ensures
            b == (self.level() >= Permission::HalfOperator.level()),
    {
        self.as_level() >= Permission::HalfOperator.as_level()
    }

    /// Whether the user may kick people from the channel.
    pub fn can_kick(self) -> (b: bool)
        ensures
            b == (self.level() >= Permission::HalfOperator.level()),
    {
        self.as_level() >= Permission::HalfOperator.as_level()
    }

    /// Whether the user may change another user's permission from `old` to
    /// `new`: a half operator or above may do so between levels strictly
    /// below their own.
    pub fn can_set_permission(self, new: Permission, old: Permission) -> (b: bool)
        ensures
            b == (self.level() >= Permission::HalfOperator.level() && self.level() > new.level()
                && self.level() > old.level()),
    {
        self.as_level() >= Permission::HalfOperator.as_level() && self.as_level() > new.as_level()
            && self.as_level() > old.as_level()
    }
}

/// Permissions compare by their level.
impl PartialOrd for Permission {
    fn partial_cmp(&self, other: &Permission) -> (r: Option<Ordering>) {
        let a = self.as_level();
        let b = other.as_level();
        if a < b {
            Some(Ordering::Less)
        } else if a == b {
            Some(Ordering::Equal)
        } else {
            Some(Ordering::Greater)
        }
    }
}

impl vstd::std_specs::cmp::PartialOrdSpecImpl for Permission {
    open spec fn obeys_partial_cmp_spec() -> bool {
        true
    }

    open spec fn partial_cmp_spec(&self, other: &Permission) -> Option<Ordering> {
        if self.level() < other.level() {
            Some(Ordering::Less)
        } else if self.level() == other.level() {
            Some(Ordering::Equal)
        } else {
            Some(Ordering::Greater)
        }
    }
}

impl TryFrom<ChannelModeFlag> for Permission {
    type Error = UnknownAccessLevel;

    fn try_from(value: ChannelModeFlag) -> (r: Result<Permission, UnknownAccessLevel>) {
        match value {
            ChannelModeFlag::Ban => Ok(Permission::Ban),
            ChannelModeFlag::Voice => Ok(Permission::Voice),
            ChannelModeFlag::Halfop => Ok(Permission::HalfOperator),
            ChannelModeFlag::Oper => Ok(Permission::Operator),
            ChannelModeFlag::Founder => Ok(Permission::Founder),
            ChannelModeFlag::Other => Err(UnknownAccessLevel),
        }
    }
}

impl vstd::std_specs::convert::TryFromSpecImpl<ChannelModeFlag> for Permission {
    open spec fn obeys_try_from_spec() -> bool {
        true
    }

    open spec fn try_from_spec(v: ChannelModeFlag) -> Result<Permission, UnknownAccessLevel> {
        Permission::from_mode_spec(v)
    }
}

/// Setting a mode and reading back the level gives the level again: every
/// level but `Normal` has a mode, and that mode stands for the level.
pub proof fn lemma_mode_round_trip(p: Permission)
    ensures
        p.mode_spec() is None <==> p == Permission::Normal,
        p.mode_spec() matches Some(m) ==> Permission::from_mode_spec(m) == Ok::<
            Permission,
            UnknownAccessLevel,
        >(p),
{
}

/// A user who may kick or set the topic may also chat and join.
pub proof fn lemma_operators_can_chat(p: Permission)
    ensures
        p.level() >= Permission::HalfOperator.level() ==> p != Permission::Ban,
{
}

/// Nobody can give or take a level at or above their own.
pub proof fn lemma_no_escalation(setter: Permission, new: Permission, old: Permission)
    ensures
        (setter.level() >= Permission::HalfOperator.level() && setter.level() > new.level()
            && setter.level() > old.level()) ==> new.level() < setter.level() && new != Permission::Founder,
{
}


/// Access levels are totally ordered by level, from `Ban` through `Normal`,
/// `Voice`, `HalfOperator` and `Operator` to `Founder`: every comparison
/// has an answer, two levels compare equal only when they are the same
/// level, and swapping the two sides reverses the answer.
pub proof fn lemma_permission_order(a: Permission, b: Permission)
    ensures
        a.partial_cmp_spec(&b) is Some,
        (a.partial_cmp_spec(&b) == Some(Ordering::Equal)) <==> a == b,
        (a.partial_cmp_spec(&b) == Some(Ordering::Less)) <==> (b.partial_cmp_spec(&a) == Some(Ordering::Greater)),
        (a.partial_cmp_spec(&b) == Some(Ordering::Less)) <==> a.level() < b.level(),
        Permission::Ban.level() < Permission::Normal.level() < Permission::Voice.level()
            < Permission::HalfOperator.level() < Permission::Operator.level() < Permission::Founder.level(),
{
}

} // verus!
