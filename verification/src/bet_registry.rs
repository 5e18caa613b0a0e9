//! The bet registry: every precise bet identifier, its public bet type, its
//! probability class and its public variant.
use vstd::prelude::*;
use crate::sums::sum_to;

pub use crate::cards::BetType;

verus! {

/// Precise registry identifier of a bet or of one variant of a bet family.
#[derive(Clone, Copy, Debug, PartialEq, Eq, Structural, Hash)]
pub enum BetId {
    Player,
    Banker,
    Tie,
    AnyPair,
    PlayerPair,
    BankerPair,
    PerfectPair,
    Monkey,
    PlayerDragonNatural,
    PlayerDragonPoint4,
    PlayerDragonPoint5,
    PlayerDragonPoint6,
    PlayerDragonPoint7,
    PlayerDragonPoint8,
    PlayerDragonPoint9,
    PlayerDragonPush,
    PlayerDragonAggregate,
    BankerDragonNatural,
    BankerDragonPoint4,
    BankerDragonPoint5,
    BankerDragonPoint6,
    BankerDragonPoint7,
    BankerDragonPoint8,
    BankerDragonPoint9,
    BankerDragonPush,
    BankerDragonAggregate,
    BankerNaturalWin,
    BankerNaturalPush,
    BankerNaturalAggregate,
    PlayerNaturalWin,
    PlayerNaturalPush,
    PlayerNaturalAggregate,
    Lucky6Two,
    Lucky6Three,
    Lucky6Aggregate,
    TigerTwo,
    TigerThree,
    TigerAggregate,
    SmallTiger,
    BigTiger,
    TigerTie,
    TigerPairPerfect,
    TigerPairBoth,
    TigerPairSingle,
    TigerPairAggregate,
    Banker4Fortune,
    Player4Fortune,
    BankerFortune4PairFortune30,
    BankerFortune4PairFortune15,
    BankerFortune4PairFortune12,
    BankerFortune4PairFortune9,
    BankerFortune4PairAggregate,
    PlayerFortune4PairFortune30,
    PlayerFortune4PairFortune15,
    PlayerFortune4PairFortune12,
    PlayerFortune4PairFortune9,
    PlayerFortune4PairAggregate,
    PlayerRed,
    BankerRed,
    PlayerBlack,
    BankerBlack,
    Invincible6,
    Big,
    Small,
    BankerCharSiuPoint4,
    BankerCharSiuPoint5,
    BankerCharSiuPoint6,
    BankerCharSiuAggregate,
    PlayerCharSiuPoint4,
    PlayerCharSiuPoint5,
    PlayerCharSiuPoint6,
    PlayerCharSiuAggregate,
    SmallBull,
    BigBull,
    TigerBull,
    WuDaLang,
    Dragon7,
    Panda8,
    SuperTie0,
    SuperTie1,
    SuperTie2,
    SuperTie3,
    SuperTie4,
    SuperTie5,
    SuperTie6,
    SuperTie7,
    SuperTie8,
    SuperTie9,
    Lucky7Two,
    Lucky7Three,
    Lucky7Aggregate,
    BigLucky7,
    SmallLucky7,
    SuperLucky7Four,
    SuperLucky7Five,
    SuperLucky7Six,
    SuperLucky7Aggregate,
    Flame7sTwo,
    Flame7sThree,
    Flame7sAggregate,
    Heaven9Single,
    Heaven9Both,
    Heaven9Aggregate,
    TreasureAll,
}

/// How a bet's probability is obtained.
#[derive(Clone, Copy, Debug, PartialEq, Eq, Structural)]
pub enum BetClass {
    TerminalPredicate,
    OpeningTwoCombinator,
    AggregateBet,
}

#[derive(Clone, Copy, Debug, PartialEq, Eq, Structural)]
pub enum DragonVariant {
    Natural,
    Point4,
    Point5,
    Point6,
    Point7,
    Point8,
    Point9,
    Push,
}

#[derive(Clone, Copy, Debug, PartialEq, Eq, Structural)]
pub enum NaturalVariant {
    Win,
    Push,
}

#[derive(Clone, Copy, Debug, PartialEq, Eq, Structural)]
pub enum Lucky6Variant {
    Two,
    Three,
}

#[derive(Clone, Copy, Debug, PartialEq, Eq, Structural)]
pub enum TigerVariant {
    Two,
    Three,
}

#[derive(Clone, Copy, Debug, PartialEq, Eq, Structural)]
pub enum TigerPairVariant {
    Perfect,
    Both,
    Single,
}

#[derive(Clone, Copy, Debug, PartialEq, Eq, Structural)]
pub enum Fortune4PairVariant {
    Fortune30,
    Fortune15,
    Fortune12,
    Fortune9,
}

#[derive(Clone, Copy, Debug, PartialEq, Eq, Structural)]
pub enum CharSiuVariant {
    Point4,
    Point5,
    Point6,
}

#[derive(Clone, Copy, Debug, PartialEq, Eq, Structural)]
pub enum Lucky7Variant {
    Two,
    Three,
}

#[derive(Clone, Copy, Debug, PartialEq, Eq, Structural)]
pub enum SuperLucky7Variant {
    Four,
    Five,
    Six,
}

#[derive(Clone, Copy, Debug, PartialEq, Eq, Structural)]
pub enum Flame7sVariant {
    Two,
    Three,
}

#[derive(Clone, Copy, Debug, PartialEq, Eq, Structural)]
pub enum Heaven9Variant {
    Single,
    Both,
}

/// Public variant of a bet family.
#[derive(Clone, Copy, Debug, PartialEq, Eq, Structural)]
pub enum BetVariant {
    Dragon(DragonVariant),
    Natural(NaturalVariant),
    Lucky6(Lucky6Variant),
    Tiger(TigerVariant),
    TigerPair(TigerPairVariant),
    Fortune4Pair(Fortune4PairVariant),
    CharSiu(CharSiuVariant),
    Lucky7(Lucky7Variant),
    SuperLucky7(SuperLucky7Variant),
    Flame7s(Flame7sVariant),
    Heaven9(Heaven9Variant),
}

/// Registry row: identifier, probability class, whether the probability
/// depends on suits, and the public variant for variant rows.
#[derive(Clone, Copy, Debug, PartialEq, Eq, Structural)]
pub struct BetDefinition {
    pub id: BetId,
    pub class: BetClass,
    pub suit_dependent: bool,
    pub variant: Option<BetVariant>,
}

impl BetId {
    /// The caller-facing bet type of the identifier.
    pub open spec fn spec_bet_type(self) -> BetType {
        match self {
            BetId::Player => BetType::Player,
            BetId::Banker => BetType::Banker,
            BetId::Tie => BetType::Tie,
            BetId::AnyPair => BetType::AnyPair,
            BetId::PlayerPair => BetType::PlayerPair,
            BetId::BankerPair => BetType::BankerPair,
            BetId::PerfectPair => BetType::PerfectPair,
            BetId::Monkey => BetType::Monkey,
            BetId::PlayerDragonNatural | BetId::PlayerDragonPoint4 | BetId::PlayerDragonPoint5 | BetId::PlayerDragonPoint6 | BetId::PlayerDragonPoint7 | BetId::PlayerDragonPoint8 | BetId::PlayerDragonPoint9 | BetId::PlayerDragonPush | BetId::PlayerDragonAggregate => BetType::PlayerDragon,
            BetId::BankerDragonNatural | BetId::BankerDragonPoint4 | BetId::BankerDragonPoint5 | BetId::BankerDragonPoint6 | BetId::BankerDragonPoint7 | BetId::BankerDragonPoint8 | BetId::BankerDragonPoint9 | BetId::BankerDragonPush | BetId::BankerDragonAggregate => BetType::BankerDragon,
            BetId::BankerNaturalWin | BetId::BankerNaturalPush | BetId::BankerNaturalAggregate => BetType::BankerNatural,
            BetId::PlayerNaturalWin | BetId::PlayerNaturalPush | BetId::PlayerNaturalAggregate => BetType::PlayerNatural,
            BetId::Lucky6Two | BetId::Lucky6Three | BetId::Lucky6Aggregate => BetType::Lucky6,
            BetId::TigerTwo | BetId::TigerThree | BetId::TigerAggregate => BetType::Tiger,
            BetId::SmallTiger => BetType::SmallTiger,
            BetId::BigTiger => BetType::BigTiger,
            BetId::TigerTie => BetType::TigerTie,
            BetId::TigerPairPerfect | BetId::TigerPairBoth | BetId::TigerPairSingle | BetId::TigerPairAggregate => BetType::TigerPair,
            BetId::Banker4Fortune => BetType::Banker4Fortune,
            BetId::Player4Fortune => BetType::Player4Fortune,
            BetId::BankerFortune4PairFortune30 | BetId::BankerFortune4PairFortune15 | BetId::BankerFortune4PairFortune12 | BetId::BankerFortune4PairFortune9 | BetId::BankerFortune4PairAggregate => BetType::BankerFortune4Pair,
            BetId::PlayerFortune4PairFortune30 | BetId::PlayerFortune4PairFortune15 | BetId::PlayerFortune4PairFortune12 | BetId::PlayerFortune4PairFortune9 | BetId::PlayerFortune4PairAggregate => BetType::PlayerFortune4Pair,
            BetId::PlayerRed => BetType::PlayerRed,
            BetId::BankerRed => BetType::BankerRed,
            BetId::PlayerBlack => BetType::PlayerBlack,
            BetId::BankerBlack => BetType::BankerBlack,
            BetId::Invincible6 => BetType::Invincible6,
            BetId::Big => BetType::Big,
            BetId::Small => BetType::Small,
            BetId::BankerCharSiuPoint4 | BetId::BankerCharSiuPoint5 | BetId::BankerCharSiuPoint6 | BetId::BankerCharSiuAggregate => BetType::BankerCharSiu,
            BetId::PlayerCharSiuPoint4 | BetId::PlayerCharSiuPoint5 | BetId::PlayerCharSiuPoint6 | BetId::PlayerCharSiuAggregate => BetType::PlayerCharSiu,
            BetId::SmallBull => BetType::SmallBull,
            BetId::BigBull => BetType::BigBull,
            BetId::TigerBull => BetType::TigerBull,
            BetId::WuDaLang => BetType::WuDaLang,
            BetId::Dragon7 => BetType::Dragon7,
            BetId::Panda8 => BetType::Panda8,
            BetId::SuperTie0 => BetType::SuperTie0,
            BetId::SuperTie1 => BetType::SuperTie1,
            BetId::SuperTie2 => BetType::SuperTie2,
            BetId::SuperTie3 => BetType::SuperTie3,
            BetId::SuperTie4 => BetType::SuperTie4,
            BetId::SuperTie5 => BetType::SuperTie5,
            BetId::SuperTie6 => BetType::SuperTie6,
            BetId::SuperTie7 => BetType::SuperTie7,
            BetId::SuperTie8 => BetType::SuperTie8,
            BetId::SuperTie9 => BetType::SuperTie9,
            BetId::Lucky7Two | BetId::Lucky7Three | BetId::Lucky7Aggregate => BetType::Lucky7,
            BetId::BigLucky7 => BetType::BigLucky7,
            BetId::SmallLucky7 => BetType::SmallLucky7,
            BetId::SuperLucky7Four | BetId::SuperLucky7Five | BetId::SuperLucky7Six | BetId::SuperLucky7Aggregate => BetType::SuperLucky7,
            BetId::Flame7sTwo | BetId::Flame7sThree | BetId::Flame7sAggregate => BetType::Flame7s,
            BetId::Heaven9Single | BetId::Heaven9Both | BetId::Heaven9Aggregate => BetType::Heaven9,
            BetId::TreasureAll => BetType::TreasureAll,
        }
    }

    pub fn bet_type(self) -> (r: BetType)
        ensures
            r == self.spec_bet_type(),
    {
        match self {
            BetId::Player => BetType::Player,
            BetId::Banker => BetType::Banker,
            BetId::Tie => BetType::Tie,
            BetId::AnyPair => BetType::AnyPair,
            BetId::PlayerPair => BetType::PlayerPair,
            BetId::BankerPair => BetType::BankerPair,
            BetId::PerfectPair => BetType::PerfectPair,
            BetId::Monkey => BetType::Monkey,
            BetId::PlayerDragonNatural | BetId::PlayerDragonPoint4 | BetId::PlayerDragonPoint5 | BetId::PlayerDragonPoint6 | BetId::PlayerDragonPoint7 | BetId::PlayerDragonPoint8 | BetId::PlayerDragonPoint9 | BetId::PlayerDragonPush | BetId::PlayerDragonAggregate => BetType::PlayerDragon,
            BetId::BankerDragonNatural | BetId::BankerDragonPoint4 | BetId::BankerDragonPoint5 | BetId::BankerDragonPoint6 | BetId::BankerDragonPoint7 | BetId::BankerDragonPoint8 | BetId::BankerDragonPoint9 | BetId::BankerDragonPush | BetId::BankerDragonAggregate => BetType::BankerDragon,
            BetId::BankerNaturalWin | BetId::BankerNaturalPush | BetId::BankerNaturalAggregate => BetType::BankerNatural,
            BetId::PlayerNaturalWin | BetId::PlayerNaturalPush | BetId::PlayerNaturalAggregate => BetType::PlayerNatural,
            BetId::Lucky6Two | BetId::Lucky6Three | BetId::Lucky6Aggregate => BetType::Lucky6,
            BetId::TigerTwo | BetId::TigerThree | BetId::TigerAggregate => BetType::Tiger,
            BetId::SmallTiger => BetType::SmallTiger,
            BetId::BigTiger => BetType::BigTiger,
            BetId::TigerTie => BetType::TigerTie,
            BetId::TigerPairPerfect | BetId::TigerPairBoth | BetId::TigerPairSingle | BetId::TigerPairAggregate => BetType::TigerPair,
            BetId::Banker4Fortune => BetType::Banker4Fortune,
            BetId::Player4Fortune => BetType::Player4Fortune,
            BetId::BankerFortune4PairFortune30 | BetId::BankerFortune4PairFortune15 | BetId::BankerFortune4PairFortune12 | BetId::BankerFortune4PairFortune9 | BetId::BankerFortune4PairAggregate => BetType::BankerFortune4Pair,
            BetId::PlayerFortune4PairFortune30 | BetId::PlayerFortune4PairFortune15 | BetId::PlayerFortune4PairFortune12 | BetId::PlayerFortune4PairFortune9 | BetId::PlayerFortune4PairAggregate => BetType::PlayerFortune4Pair,
            BetId::PlayerRed => BetType::PlayerRed,
            BetId::BankerRed => BetType::BankerRed,
            BetId::PlayerBlack => BetType::PlayerBlack,
            BetId::BankerBlack => BetType::BankerBlack,
            BetId::Invincible6 => BetType::Invincible6,
            BetId::Big => BetType::Big,
            BetId::Small => BetType::Small,
            BetId::BankerCharSiuPoint4 | BetId::BankerCharSiuPoint5 | BetId::BankerCharSiuPoint6 | BetId::BankerCharSiuAggregate => BetType::BankerCharSiu,
            BetId::PlayerCharSiuPoint4 | BetId::PlayerCharSiuPoint5 | BetId::PlayerCharSiuPoint6 | BetId::PlayerCharSiuAggregate => BetType::PlayerCharSiu,
            BetId::SmallBull => BetType::SmallBull,
            BetId::BigBull => BetType::BigBull,
            BetId::TigerBull => BetType::TigerBull,
            BetId::WuDaLang => BetType::WuDaLang,
            BetId::Dragon7 => BetType::Dragon7,
            BetId::Panda8 => BetType::Panda8,
            BetId::SuperTie0 => BetType::SuperTie0,
            BetId::SuperTie1 => BetType::SuperTie1,
            BetId::SuperTie2 => BetType::SuperTie2,
            BetId::SuperTie3 => BetType::SuperTie3,
            BetId::SuperTie4 => BetType::SuperTie4,
            BetId::SuperTie5 => BetType::SuperTie5,
            BetId::SuperTie6 => BetType::SuperTie6,
            BetId::SuperTie7 => BetType::SuperTie7,
            BetId::SuperTie8 => BetType::SuperTie8,
            BetId::SuperTie9 => BetType::SuperTie9,
            BetId::Lucky7Two | BetId::Lucky7Three | BetId::Lucky7Aggregate => BetType::Lucky7,
            BetId::BigLucky7 => BetType::BigLucky7,
            BetId::SmallLucky7 => BetType::SmallLucky7,
            BetId::SuperLucky7Four | BetId::SuperLucky7Five | BetId::SuperLucky7Six | BetId::SuperLucky7Aggregate => BetType::SuperLucky7,
            BetId::Flame7sTwo | BetId::Flame7sThree | BetId::Flame7sAggregate => BetType::Flame7s,
            BetId::Heaven9Single | BetId::Heaven9Both | BetId::Heaven9Aggregate => BetType::Heaven9,
            BetId::TreasureAll => BetType::TreasureAll,
        }
    }

    /// Whether the identifier is a push (refund) variant.
    pub open spec fn spec_is_push_result(self) -> bool {
        match self {
            BetId::PlayerDragonPush | BetId::BankerDragonPush | BetId::BankerNaturalPush | BetId::PlayerNaturalPush => true,
            BetId::Player | BetId::Banker | BetId::Tie | BetId::AnyPair | BetId::PlayerPair | BetId::BankerPair | BetId::PerfectPair | BetId::Monkey | BetId::PlayerDragonNatural | BetId::PlayerDragonPoint4 | BetId::PlayerDragonPoint5 | BetId::PlayerDragonPoint6 | BetId::PlayerDragonPoint7 | BetId::PlayerDragonPoint8 | BetId::PlayerDragonPoint9 | BetId::PlayerDragonAggregate | BetId::BankerDragonNatural | BetId::BankerDragonPoint4 | BetId::BankerDragonPoint5 | BetId::BankerDragonPoint6 | BetId::BankerDragonPoint7 | BetId::BankerDragonPoint8 | BetId::BankerDragonPoint9 | BetId::BankerDragonAggregate | BetId::BankerNaturalWin | BetId::BankerNaturalAggregate | BetId::PlayerNaturalWin | BetId::PlayerNaturalAggregate | BetId::Lucky6Two | BetId::Lucky6Three | BetId::Lucky6Aggregate | BetId::TigerTwo | BetId::TigerThree | BetId::TigerAggregate | BetId::SmallTiger | BetId::BigTiger | BetId::TigerTie | BetId::TigerPairPerfect | BetId::TigerPairBoth | BetId::TigerPairSingle | BetId::TigerPairAggregate | BetId::Banker4Fortune | BetId::Player4Fortune | BetId::BankerFortune4PairFortune30 | BetId::BankerFortune4PairFortune15 | BetId::BankerFortune4PairFortune12 | BetId::BankerFortune4PairFortune9 | BetId::BankerFortune4PairAggregate | BetId::PlayerFortune4PairFortune30 | BetId::PlayerFortune4PairFortune15 | BetId::PlayerFortune4PairFortune12 | BetId::PlayerFortune4PairFortune9 | BetId::PlayerFortune4PairAggregate | BetId::PlayerRed | BetId::BankerRed | BetId::PlayerBlack | BetId::BankerBlack | BetId::Invincible6 | BetId::Big | BetId::Small | BetId::BankerCharSiuPoint4 | BetId::BankerCharSiuPoint5 | BetId::BankerCharSiuPoint6 | BetId::BankerCharSiuAggregate | BetId::PlayerCharSiuPoint4 | BetId::PlayerCharSiuPoint5 | BetId::PlayerCharSiuPoint6 | BetId::PlayerCharSiuAggregate | BetId::SmallBull | BetId::BigBull | BetId::TigerBull | BetId::WuDaLang | BetId::Dragon7 | BetId::Panda8 | BetId::SuperTie0 | BetId::SuperTie1 | BetId::SuperTie2 | BetId::SuperTie3 | BetId::SuperTie4 | BetId::SuperTie5 | BetId::SuperTie6 | BetId::SuperTie7 | BetId::SuperTie8 | BetId::SuperTie9 | BetId::Lucky7Two | BetId::Lucky7Three | BetId::Lucky7Aggregate | BetId::BigLucky7 | BetId::SmallLucky7 | BetId::SuperLucky7Four | BetId::SuperLucky7Five | BetId::SuperLucky7Six | BetId::SuperLucky7Aggregate | BetId::Flame7sTwo | BetId::Flame7sThree | BetId::Flame7sAggregate | BetId::Heaven9Single | BetId::Heaven9Both | BetId::Heaven9Aggregate | BetId::TreasureAll => false,
        }
    }

    pub fn is_push_result(self) -> (r: bool)
        ensures
            r == self.spec_is_push_result(),
    {
        match self {
            BetId::PlayerDragonPush | BetId::BankerDragonPush | BetId::BankerNaturalPush | BetId::PlayerNaturalPush => true,
            BetId::Player | BetId::Banker | BetId::Tie | BetId::AnyPair | BetId::PlayerPair | BetId::BankerPair | BetId::PerfectPair | BetId::Monkey | BetId::PlayerDragonNatural | BetId::PlayerDragonPoint4 | BetId::PlayerDragonPoint5 | BetId::PlayerDragonPoint6 | BetId::PlayerDragonPoint7 | BetId::PlayerDragonPoint8 | BetId::PlayerDragonPoint9 | BetId::PlayerDragonAggregate | BetId::BankerDragonNatural | BetId::BankerDragonPoint4 | BetId::BankerDragonPoint5 | BetId::BankerDragonPoint6 | BetId::BankerDragonPoint7 | BetId::BankerDragonPoint8 | BetId::BankerDragonPoint9 | BetId::BankerDragonAggregate | BetId::BankerNaturalWin | BetId::BankerNaturalAggregate | BetId::PlayerNaturalWin | BetId::PlayerNaturalAggregate | BetId::Lucky6Two | BetId::Lucky6Three | BetId::Lucky6Aggregate | BetId::TigerTwo | BetId::TigerThree | BetId::TigerAggregate | BetId::SmallTiger | BetId::BigTiger | BetId::TigerTie | BetId::TigerPairPerfect | BetId::TigerPairBoth | BetId::TigerPairSingle | BetId::TigerPairAggregate | BetId::Banker4Fortune | BetId::Player4Fortune | BetId::BankerFortune4PairFortune30 | BetId::BankerFortune4PairFortune15 | BetId::BankerFortune4PairFortune12 | BetId::BankerFortune4PairFortune9 | BetId::BankerFortune4PairAggregate | BetId::PlayerFortune4PairFortune30 | BetId::PlayerFortune4PairFortune15 | BetId::PlayerFortune4PairFortune12 | BetId::PlayerFortune4PairFortune9 | BetId::PlayerFortune4PairAggregate | BetId::PlayerRed | BetId::BankerRed | BetId::PlayerBlack | BetId::BankerBlack | BetId::Invincible6 | BetId::Big | BetId::Small | BetId::BankerCharSiuPoint4 | BetId::BankerCharSiuPoint5 | BetId::BankerCharSiuPoint6 | BetId::BankerCharSiuAggregate | BetId::PlayerCharSiuPoint4 | BetId::PlayerCharSiuPoint5 | BetId::PlayerCharSiuPoint6 | BetId::PlayerCharSiuAggregate | BetId::SmallBull | BetId::BigBull | BetId::TigerBull | BetId::WuDaLang | BetId::Dragon7 | BetId::Panda8 | BetId::SuperTie0 | BetId::SuperTie1 | BetId::SuperTie2 | BetId::SuperTie3 | BetId::SuperTie4 | BetId::SuperTie5 | BetId::SuperTie6 | BetId::SuperTie7 | BetId::SuperTie8 | BetId::SuperTie9 | BetId::Lucky7Two | BetId::Lucky7Three | BetId::Lucky7Aggregate | BetId::BigLucky7 | BetId::SmallLucky7 | BetId::SuperLucky7Four | BetId::SuperLucky7Five | BetId::SuperLucky7Six | BetId::SuperLucky7Aggregate | BetId::Flame7sTwo | BetId::Flame7sThree | BetId::Flame7sAggregate | BetId::Heaven9Single | BetId::Heaven9Both | BetId::Heaven9Aggregate | BetId::TreasureAll => false,
        }
    }

    /// Whether the identifier is the public row of its bet type.
    pub open spec fn spec_is_public(self) -> bool {
        match self {
            BetId::Player | BetId::Banker | BetId::Tie | BetId::AnyPair | BetId::PlayerPair | BetId::BankerPair | BetId::PerfectPair | BetId::Monkey | BetId::PlayerDragonAggregate | BetId::BankerDragonAggregate | BetId::BankerNaturalAggregate | BetId::PlayerNaturalAggregate | BetId::Lucky6Aggregate | BetId::TigerAggregate | BetId::SmallTiger | BetId::BigTiger | BetId::TigerTie | BetId::TigerPairAggregate | BetId::Banker4Fortune | BetId::Player4Fortune | BetId::BankerFortune4PairAggregate | BetId::PlayerFortune4PairAggregate | BetId::PlayerRed | BetId::BankerRed | BetId::PlayerBlack | BetId::BankerBlack | BetId::Invincible6 | BetId::Big | BetId::Small | BetId::BankerCharSiuAggregate | BetId::PlayerCharSiuAggregate | BetId::SmallBull | BetId::BigBull | BetId::TigerBull | BetId::WuDaLang | BetId::Dragon7 | BetId::Panda8 | BetId::SuperTie0 | BetId::SuperTie1 | BetId::SuperTie2 | BetId::SuperTie3 | BetId::SuperTie4 | BetId::SuperTie5 | BetId::SuperTie6 | BetId::SuperTie7 | BetId::SuperTie8 | BetId::SuperTie9 | BetId::Lucky7Aggregate | BetId::BigLucky7 | BetId::SmallLucky7 | BetId::SuperLucky7Aggregate | BetId::Flame7sAggregate | BetId::Heaven9Aggregate | BetId::TreasureAll => true,
            BetId::PlayerDragonNatural | BetId::PlayerDragonPoint4 | BetId::PlayerDragonPoint5 | BetId::PlayerDragonPoint6 | BetId::PlayerDragonPoint7 | BetId::PlayerDragonPoint8 | BetId::PlayerDragonPoint9 | BetId::PlayerDragonPush | BetId::BankerDragonNatural | BetId::BankerDragonPoint4 | BetId::BankerDragonPoint5 | BetId::BankerDragonPoint6 | BetId::BankerDragonPoint7 | BetId::BankerDragonPoint8 | BetId::BankerDragonPoint9 | BetId::BankerDragonPush | BetId::BankerNaturalWin | BetId::BankerNaturalPush | BetId::PlayerNaturalWin | BetId::PlayerNaturalPush | BetId::Lucky6Two | BetId::Lucky6Three | BetId::TigerTwo | BetId::TigerThree | BetId::TigerPairPerfect | BetId::TigerPairBoth | BetId::TigerPairSingle | BetId::BankerFortune4PairFortune30 | BetId::BankerFortune4PairFortune15 | BetId::BankerFortune4PairFortune12 | BetId::BankerFortune4PairFortune9 | BetId::PlayerFortune4PairFortune30 | BetId::PlayerFortune4PairFortune15 | BetId::PlayerFortune4PairFortune12 | BetId::PlayerFortune4PairFortune9 | BetId::BankerCharSiuPoint4 | BetId::BankerCharSiuPoint5 | BetId::BankerCharSiuPoint6 | BetId::PlayerCharSiuPoint4 | BetId::PlayerCharSiuPoint5 | BetId::PlayerCharSiuPoint6 | BetId::Lucky7Two | BetId::Lucky7Three | BetId::SuperLucky7Four | BetId::SuperLucky7Five | BetId::SuperLucky7Six | BetId::Flame7sTwo | BetId::Flame7sThree | BetId::Heaven9Single | BetId::Heaven9Both => false,
        }
    }

    pub fn is_public_probability_result(self) -> (r: bool)
        ensures
            r == self.spec_is_public(),
    {
        match self {
            BetId::Player | BetId::Banker | BetId::Tie | BetId::AnyPair | BetId::PlayerPair | BetId::BankerPair | BetId::PerfectPair | BetId::Monkey | BetId::PlayerDragonAggregate | BetId::BankerDragonAggregate | BetId::BankerNaturalAggregate | BetId::PlayerNaturalAggregate | BetId::Lucky6Aggregate | BetId::TigerAggregate | BetId::SmallTiger | BetId::BigTiger | BetId::TigerTie | BetId::TigerPairAggregate | BetId::Banker4Fortune | BetId::Player4Fortune | BetId::BankerFortune4PairAggregate | BetId::PlayerFortune4PairAggregate | BetId::PlayerRed | BetId::BankerRed | BetId::PlayerBlack | BetId::BankerBlack | BetId::Invincible6 | BetId::Big | BetId::Small | BetId::BankerCharSiuAggregate | BetId::PlayerCharSiuAggregate | BetId::SmallBull | BetId::BigBull | BetId::TigerBull | BetId::WuDaLang | BetId::Dragon7 | BetId::Panda8 | BetId::SuperTie0 | BetId::SuperTie1 | BetId::SuperTie2 | BetId::SuperTie3 | BetId::SuperTie4 | BetId::SuperTie5 | BetId::SuperTie6 | BetId::SuperTie7 | BetId::SuperTie8 | BetId::SuperTie9 | BetId::Lucky7Aggregate | BetId::BigLucky7 | BetId::SmallLucky7 | BetId::SuperLucky7Aggregate | BetId::Flame7sAggregate | BetId::Heaven9Aggregate | BetId::TreasureAll => true,
            BetId::PlayerDragonNatural | BetId::PlayerDragonPoint4 | BetId::PlayerDragonPoint5 | BetId::PlayerDragonPoint6 | BetId::PlayerDragonPoint7 | BetId::PlayerDragonPoint8 | BetId::PlayerDragonPoint9 | BetId::PlayerDragonPush | BetId::BankerDragonNatural | BetId::BankerDragonPoint4 | BetId::BankerDragonPoint5 | BetId::BankerDragonPoint6 | BetId::BankerDragonPoint7 | BetId::BankerDragonPoint8 | BetId::BankerDragonPoint9 | BetId::BankerDragonPush | BetId::BankerNaturalWin | BetId::BankerNaturalPush | BetId::PlayerNaturalWin | BetId::PlayerNaturalPush | BetId::Lucky6Two | BetId::Lucky6Three | BetId::TigerTwo | BetId::TigerThree | BetId::TigerPairPerfect | BetId::TigerPairBoth | BetId::TigerPairSingle | BetId::BankerFortune4PairFortune30 | BetId::BankerFortune4PairFortune15 | BetId::BankerFortune4PairFortune12 | BetId::BankerFortune4PairFortune9 | BetId::PlayerFortune4PairFortune30 | BetId::PlayerFortune4PairFortune15 | BetId::PlayerFortune4PairFortune12 | BetId::PlayerFortune4PairFortune9 | BetId::BankerCharSiuPoint4 | BetId::BankerCharSiuPoint5 | BetId::BankerCharSiuPoint6 | BetId::PlayerCharSiuPoint4 | BetId::PlayerCharSiuPoint5 | BetId::PlayerCharSiuPoint6 | BetId::Lucky7Two | BetId::Lucky7Three | BetId::SuperLucky7Four | BetId::SuperLucky7Five | BetId::SuperLucky7Six | BetId::Flame7sTwo | BetId::Flame7sThree | BetId::Heaven9Single | BetId::Heaven9Both => false,
        }
    }

    /// Position of the identifier in the registry.
    pub open spec fn spec_position(self) -> int {
        match self {
            BetId::Player => 0,
            BetId::Banker => 1,
            BetId::Tie => 2,
            BetId::AnyPair => 3,
            BetId::PlayerPair => 4,
            BetId::BankerPair => 5,
            BetId::PerfectPair => 6,
            BetId::Monkey => 7,
            BetId::PlayerDragonNatural => 8,
            BetId::PlayerDragonPoint4 => 9,
            BetId::PlayerDragonPoint5 => 10,
            BetId::PlayerDragonPoint6 => 11,
            BetId::PlayerDragonPoint7 => 12,
            BetId::PlayerDragonPoint8 => 13,
            BetId::PlayerDragonPoint9 => 14,
            BetId::PlayerDragonPush => 15,
            BetId::PlayerDragonAggregate => 16,
            BetId::BankerDragonNatural => 17,
            BetId::BankerDragonPoint4 => 18,
            BetId::BankerDragonPoint5 => 19,
            BetId::BankerDragonPoint6 => 20,
            BetId::BankerDragonPoint7 => 21,
            BetId::BankerDragonPoint8 => 22,
            BetId::BankerDragonPoint9 => 23,
            BetId::BankerDragonPush => 24,
            BetId::BankerDragonAggregate => 25,
            BetId::BankerNaturalWin => 26,
            BetId::BankerNaturalPush => 27,
            BetId::BankerNaturalAggregate => 28,
            BetId::PlayerNaturalWin => 29,
            BetId::PlayerNaturalPush => 30,
            BetId::PlayerNaturalAggregate => 31,
            BetId::Lucky6Two => 32,
            BetId::Lucky6Three => 33,
            BetId::Lucky6Aggregate => 34,
            BetId::TigerTwo => 35,
            BetId::TigerThree => 36,
            BetId::TigerAggregate => 37,
            BetId::SmallTiger => 38,
            BetId::BigTiger => 39,
            BetId::TigerTie => 40,
            BetId::TigerPairPerfect => 41,
            BetId::TigerPairBoth => 42,
            BetId::TigerPairSingle => 43,
            BetId::TigerPairAggregate => 44,
            BetId::Banker4Fortune => 45,
            BetId::Player4Fortune => 46,
            BetId::BankerFortune4PairFortune30 => 47,
            BetId::BankerFortune4PairFortune15 => 48,
            BetId::BankerFortune4PairFortune12 => 49,
            BetId::BankerFortune4PairFortune9 => 50,
            BetId::BankerFortune4PairAggregate => 51,
            BetId::PlayerFortune4PairFortune30 => 52,
            BetId::PlayerFortune4PairFortune15 => 53,
            BetId::PlayerFortune4PairFortune12 => 54,
            BetId::PlayerFortune4PairFortune9 => 55,
            BetId::PlayerFortune4PairAggregate => 56,
            BetId::PlayerRed => 57,
            BetId::BankerRed => 58,
            BetId::PlayerBlack => 59,
            BetId::BankerBlack => 60,
            BetId::Invincible6 => 61,
            BetId::Big => 62,
            BetId::Small => 63,
            BetId::BankerCharSiuPoint4 => 64,
            BetId::BankerCharSiuPoint5 => 65,
            BetId::BankerCharSiuPoint6 => 66,
            BetId::BankerCharSiuAggregate => 67,
            BetId::PlayerCharSiuPoint4 => 68,
            BetId::PlayerCharSiuPoint5 => 69,
            BetId::PlayerCharSiuPoint6 => 70,
            BetId::PlayerCharSiuAggregate => 71,
            BetId::SmallBull => 72,
            BetId::BigBull => 73,
            BetId::TigerBull => 74,
            BetId::WuDaLang => 75,
            BetId::Dragon7 => 76,
            BetId::Panda8 => 77,
            BetId::SuperTie0 => 78,
            BetId::SuperTie1 => 79,
            BetId::SuperTie2 => 80,
            BetId::SuperTie3 => 81,
            BetId::SuperTie4 => 82,
            BetId::SuperTie5 => 83,
            BetId::SuperTie6 => 84,
            BetId::SuperTie7 => 85,
            BetId::SuperTie8 => 86,
            BetId::SuperTie9 => 87,
            BetId::Lucky7Two => 88,
            BetId::Lucky7Three => 89,
            BetId::Lucky7Aggregate => 90,
            BetId::BigLucky7 => 91,
            BetId::SmallLucky7 => 92,
            BetId::SuperLucky7Four => 93,
            BetId::SuperLucky7Five => 94,
            BetId::SuperLucky7Six => 95,
            BetId::SuperLucky7Aggregate => 96,
            BetId::Flame7sTwo => 97,
            BetId::Flame7sThree => 98,
            BetId::Flame7sAggregate => 99,
            BetId::Heaven9Single => 100,
            BetId::Heaven9Both => 101,
            BetId::Heaven9Aggregate => 102,
            BetId::TreasureAll => 103,
        }
    }

    /// The identifier at a registry position.
    pub open spec fn spec_at(i: int) -> BetId {
        if i == 0 {
            BetId::Player
        } else if i == 1 {
            BetId::Banker
        } else if i == 2 {
            BetId::Tie
        } else if i == 3 {
            BetId::AnyPair
        } else if i == 4 {
            BetId::PlayerPair
        } else if i == 5 {
            BetId::BankerPair
        } else if i == 6 {
            BetId::PerfectPair
        } else if i == 7 {
            BetId::Monkey
        } else if i == 8 {
            BetId::PlayerDragonNatural
        } else if i == 9 {
            BetId::PlayerDragonPoint4
        } else if i == 10 {
            BetId::PlayerDragonPoint5
        } else if i == 11 {
            BetId::PlayerDragonPoint6
        } else if i == 12 {
            BetId::PlayerDragonPoint7
        } else if i == 13 {
            BetId::PlayerDragonPoint8
        } else if i == 14 {
            BetId::PlayerDragonPoint9
        } else if i == 15 {
            BetId::PlayerDragonPush
        } else if i == 16 {
            BetId::PlayerDragonAggregate
        } else if i == 17 {
            BetId::BankerDragonNatural
        } else if i == 18 {
            BetId::BankerDragonPoint4
        } else if i == 19 {
            BetId::BankerDragonPoint5
        } else if i == 20 {
            BetId::BankerDragonPoint6
        } else if i == 21 {
            BetId::BankerDragonPoint7
        } else if i == 22 {
            BetId::BankerDragonPoint8
        } else if i == 23 {
            BetId::BankerDragonPoint9
        } else if i == 24 {
            BetId::BankerDragonPush
        } else if i == 25 {
            BetId::BankerDragonAggregate
        } else if i == 26 {
            BetId::BankerNaturalWin
        } else if i == 27 {
            BetId::BankerNaturalPush
        } else if i == 28 {
            BetId::BankerNaturalAggregate
        } else if i == 29 {
            BetId::PlayerNaturalWin
        } else if i == 30 {
            BetId::PlayerNaturalPush
        } else if i == 31 {
            BetId::PlayerNaturalAggregate
        } else if i == 32 {
            BetId::Lucky6Two
        } else if i == 33 {
            BetId::Lucky6Three
        } else if i == 34 {
            BetId::Lucky6Aggregate
        } else if i == 35 {
            BetId::TigerTwo
        } else if i == 36 {
            BetId::TigerThree
        } else if i == 37 {
            BetId::TigerAggregate
        } else if i == 38 {
            BetId::SmallTiger
        } else if i == 39 {
            BetId::BigTiger
        } else if i == 40 {
            BetId::TigerTie
        } else if i == 41 {
            BetId::TigerPairPerfect
        } else if i == 42 {
            BetId::TigerPairBoth
        } else if i == 43 {
            BetId::TigerPairSingle
        } else if i == 44 {
            BetId::TigerPairAggregate
        } else if i == 45 {
            BetId::Banker4Fortune
        } else if i == 46 {
            BetId::Player4Fortune
        } else if i == 47 {
            BetId::BankerFortune4PairFortune30
        } else if i == 48 {
            BetId::BankerFortune4PairFortune15
        } else if i == 49 {
            BetId::BankerFortune4PairFortune12
        } else if i == 50 {
            BetId::BankerFortune4PairFortune9
        } else if i == 51 {
            BetId::BankerFortune4PairAggregate
        } else if i == 52 {
            BetId::PlayerFortune4PairFortune30
        } else if i == 53 {
            BetId::PlayerFortune4PairFortune15
        } else if i == 54 {
            BetId::PlayerFortune4PairFortune12
        } else if i == 55 {
            BetId::PlayerFortune4PairFortune9
        } else if i == 56 {
            BetId::PlayerFortune4PairAggregate
        } else if i == 57 {
            BetId::PlayerRed
        } else if i == 58 {
            BetId::BankerRed
        } else if i == 59 {
            BetId::PlayerBlack
        } else if i == 60 {
            BetId::BankerBlack
        } else if i == 61 {
            BetId::Invincible6
        } else if i == 62 {
            BetId::Big
        } else if i == 63 {
            BetId::Small
        } else if i == 64 {
            BetId::BankerCharSiuPoint4
        } else if i == 65 {
            BetId::BankerCharSiuPoint5
        } else if i == 66 {
            BetId::BankerCharSiuPoint6
        } else if i == 67 {
            BetId::BankerCharSiuAggregate
        } else if i == 68 {
            BetId::PlayerCharSiuPoint4
        } else if i == 69 {
            BetId::PlayerCharSiuPoint5
        } else if i == 70 {
            BetId::PlayerCharSiuPoint6
        } else if i == 71 {
            BetId::PlayerCharSiuAggregate
        } else if i == 72 {
            BetId::SmallBull
        } else if i == 73 {
            BetId::BigBull
        } else if i == 74 {
            BetId::TigerBull
        } else if i == 75 {
            BetId::WuDaLang
        } else if i == 76 {
            BetId::Dragon7
        } else if i == 77 {
            BetId::Panda8
        } else if i == 78 {
            BetId::SuperTie0
        } else if i == 79 {
            BetId::SuperTie1
        } else if i == 80 {
            BetId::SuperTie2
        } else if i == 81 {
            BetId::SuperTie3
        } else if i == 82 {
            BetId::SuperTie4
        } else if i == 83 {
            BetId::SuperTie5
        } else if i == 84 {
            BetId::SuperTie6
        } else if i == 85 {
            BetId::SuperTie7
        } else if i == 86 {
            BetId::SuperTie8
        } else if i == 87 {
            BetId::SuperTie9
        } else if i == 88 {
            BetId::Lucky7Two
        } else if i == 89 {
            BetId::Lucky7Three
        } else if i == 90 {
            BetId::Lucky7Aggregate
        } else if i == 91 {
            BetId::BigLucky7
        } else if i == 92 {
            BetId::SmallLucky7
        } else if i == 93 {
            BetId::SuperLucky7Four
        } else if i == 94 {
            BetId::SuperLucky7Five
        } else if i == 95 {
            BetId::SuperLucky7Six
        } else if i == 96 {
            BetId::SuperLucky7Aggregate
        } else if i == 97 {
            BetId::Flame7sTwo
        } else if i == 98 {
            BetId::Flame7sThree
        } else if i == 99 {
            BetId::Flame7sAggregate
        } else if i == 100 {
            BetId::Heaven9Single
        } else if i == 101 {
            BetId::Heaven9Both
        } else if i == 102 {
            BetId::Heaven9Aggregate
        } else {
            BetId::TreasureAll
        }
    }

    /// The identifier at a registry position.
    pub fn at(i: usize) -> (r: BetId)
        requires
            i < 104,
        ensures
            r == BetId::spec_at(i as int),
            r.spec_position() == i,
    {
        if i == 0 {
            BetId::Player
        } else if i == 1 {
            BetId::Banker
        } else if i == 2 {
            BetId::Tie
        } else if i == 3 {
            BetId::AnyPair
        } else if i == 4 {
            BetId::PlayerPair
        } else if i == 5 {
            BetId::BankerPair
        } else if i == 6 {
            BetId::PerfectPair
        } else if i == 7 {
            BetId::Monkey
        } else if i == 8 {
            BetId::PlayerDragonNatural
        } else if i == 9 {
            BetId::PlayerDragonPoint4
        } else if i == 10 {
            BetId::PlayerDragonPoint5
        } else if i == 11 {
            BetId::PlayerDragonPoint6
        } else if i == 12 {
            BetId::PlayerDragonPoint7
        } else if i == 13 {
            BetId::PlayerDragonPoint8
        } else if i == 14 {
            BetId::PlayerDragonPoint9
        } else if i == 15 {
            BetId::PlayerDragonPush
        } else if i == 16 {
            BetId::PlayerDragonAggregate
        } else if i == 17 {
            BetId::BankerDragonNatural
        } else if i == 18 {
            BetId::BankerDragonPoint4
        } else if i == 19 {
            BetId::BankerDragonPoint5
        } else if i == 20 {
            BetId::BankerDragonPoint6
        } else if i == 21 {
            BetId::BankerDragonPoint7
        } else if i == 22 {
            BetId::BankerDragonPoint8
        } else if i == 23 {
            BetId::BankerDragonPoint9
        } else if i == 24 {
            BetId::BankerDragonPush
        } else if i == 25 {
            BetId::BankerDragonAggregate
        } else if i == 26 {
            BetId::BankerNaturalWin
        } else if i == 27 {
            BetId::BankerNaturalPush
        } else if i == 28 {
            BetId::BankerNaturalAggregate
        } else if i == 29 {
            BetId::PlayerNaturalWin
        } else if i == 30 {
            BetId::PlayerNaturalPush
        } else if i == 31 {
            BetId::PlayerNaturalAggregate
        } else if i == 32 {
            BetId::Lucky6Two
        } else if i == 33 {
            BetId::Lucky6Three
        } else if i == 34 {
            BetId::Lucky6Aggregate
        } else if i == 35 {
            BetId::TigerTwo
        } else if i == 36 {
            BetId::TigerThree
        } else if i == 37 {
            BetId::TigerAggregate
        } else if i == 38 {
            BetId::SmallTiger
        } else if i == 39 {
            BetId::BigTiger
        } else if i == 40 {
            BetId::TigerTie
        } else if i == 41 {
            BetId::TigerPairPerfect
        } else if i == 42 {
            BetId::TigerPairBoth
        } else if i == 43 {
            BetId::TigerPairSingle
        } else if i == 44 {
            BetId::TigerPairAggregate
        } else if i == 45 {
            BetId::Banker4Fortune
        } else if i == 46 {
            BetId::Player4Fortune
        } else if i == 47 {
            BetId::BankerFortune4PairFortune30
        } else if i == 48 {
            BetId::BankerFortune4PairFortune15
        } else if i == 49 {
            BetId::BankerFortune4PairFortune12
        } else if i == 50 {
            BetId::BankerFortune4PairFortune9
        } else if i == 51 {
            BetId::BankerFortune4PairAggregate
        } else if i == 52 {
            BetId::PlayerFortune4PairFortune30
        } else if i == 53 {
            BetId::PlayerFortune4PairFortune15
        } else if i == 54 {
            BetId::PlayerFortune4PairFortune12
        } else if i == 55 {
            BetId::PlayerFortune4PairFortune9
        } else if i == 56 {
            BetId::PlayerFortune4PairAggregate
        } else if i == 57 {
            BetId::PlayerRed
        } else if i == 58 {
            BetId::BankerRed
        } else if i == 59 {
            BetId::PlayerBlack
        } else if i == 60 {
            BetId::BankerBlack
        } else if i == 61 {
            BetId::Invincible6
        } else if i == 62 {
            BetId::Big
        } else if i == 63 {
            BetId::Small
        } else if i == 64 {
            BetId::BankerCharSiuPoint4
        } else if i == 65 {
            BetId::BankerCharSiuPoint5
        } else if i == 66 {
            BetId::BankerCharSiuPoint6
        } else if i == 67 {
            BetId::BankerCharSiuAggregate
        } else if i == 68 {
            BetId::PlayerCharSiuPoint4
        } else if i == 69 {
            BetId::PlayerCharSiuPoint5
        } else if i == 70 {
            BetId::PlayerCharSiuPoint6
        } else if i == 71 {
            BetId::PlayerCharSiuAggregate
        } else if i == 72 {
            BetId::SmallBull
        } else if i == 73 {
            BetId::BigBull
        } else if i == 74 {
            BetId::TigerBull
        } else if i == 75 {
            BetId::WuDaLang
        } else if i == 76 {
            BetId::Dragon7
        } else if i == 77 {
            BetId::Panda8
        } else if i == 78 {
            BetId::SuperTie0
        } else if i == 79 {
            BetId::SuperTie1
        } else if i == 80 {
            BetId::SuperTie2
        } else if i == 81 {
            BetId::SuperTie3
        } else if i == 82 {
            BetId::SuperTie4
        } else if i == 83 {
            BetId::SuperTie5
        } else if i == 84 {
            BetId::SuperTie6
        } else if i == 85 {
            BetId::SuperTie7
        } else if i == 86 {
            BetId::SuperTie8
        } else if i == 87 {
            BetId::SuperTie9
        } else if i == 88 {
            BetId::Lucky7Two
        } else if i == 89 {
            BetId::Lucky7Three
        } else if i == 90 {
            BetId::Lucky7Aggregate
        } else if i == 91 {
            BetId::BigLucky7
        } else if i == 92 {
            BetId::SmallLucky7
        } else if i == 93 {
            BetId::SuperLucky7Four
        } else if i == 94 {
            BetId::SuperLucky7Five
        } else if i == 95 {
            BetId::SuperLucky7Six
        } else if i == 96 {
            BetId::SuperLucky7Aggregate
        } else if i == 97 {
            BetId::Flame7sTwo
        } else if i == 98 {
            BetId::Flame7sThree
        } else if i == 99 {
            BetId::Flame7sAggregate
        } else if i == 100 {
            BetId::Heaven9Single
        } else if i == 101 {
            BetId::Heaven9Both
        } else if i == 102 {
            BetId::Heaven9Aggregate
        } else {
            BetId::TreasureAll
        }
    }

    /// The probability class of the identifier.
    pub open spec fn spec_class(self) -> BetClass {
        match self {
            BetId::Player | BetId::Banker | BetId::Tie | BetId::PlayerDragonNatural | BetId::PlayerDragonPoint4 | BetId::PlayerDragonPoint5 | BetId::PlayerDragonPoint6 | BetId::PlayerDragonPoint7 | BetId::PlayerDragonPoint8 | BetId::PlayerDragonPoint9 | BetId::PlayerDragonPush | BetId::BankerDragonNatural | BetId::BankerDragonPoint4 | BetId::BankerDragonPoint5 | BetId::BankerDragonPoint6 | BetId::BankerDragonPoint7 | BetId::BankerDragonPoint8 | BetId::BankerDragonPoint9 | BetId::BankerDragonPush | BetId::BankerNaturalWin | BetId::BankerNaturalPush | BetId::PlayerNaturalWin | BetId::PlayerNaturalPush | BetId::Lucky6Two | BetId::Lucky6Three | BetId::TigerTwo | BetId::TigerThree | BetId::SmallTiger | BetId::BigTiger | BetId::TigerTie | BetId::Banker4Fortune | BetId::Player4Fortune | BetId::Invincible6 | BetId::Big | BetId::Small | BetId::BankerCharSiuPoint4 | BetId::BankerCharSiuPoint5 | BetId::BankerCharSiuPoint6 | BetId::PlayerCharSiuPoint4 | BetId::PlayerCharSiuPoint5 | BetId::PlayerCharSiuPoint6 | BetId::SmallBull | BetId::BigBull | BetId::TigerBull | BetId::WuDaLang | BetId::Dragon7 | BetId::Panda8 | BetId::SuperTie0 | BetId::SuperTie1 | BetId::SuperTie2 | BetId::SuperTie3 | BetId::SuperTie4 | BetId::SuperTie5 | BetId::SuperTie6 | BetId::SuperTie7 | BetId::SuperTie8 | BetId::SuperTie9 | BetId::Lucky7Two | BetId::Lucky7Three | BetId::BigLucky7 | BetId::SmallLucky7 | BetId::SuperLucky7Four | BetId::SuperLucky7Five | BetId::SuperLucky7Six | BetId::Flame7sTwo | BetId::Flame7sThree | BetId::Heaven9Single | BetId::Heaven9Both => BetClass::TerminalPredicate,
            BetId::AnyPair | BetId::PlayerPair | BetId::BankerPair | BetId::PerfectPair | BetId::Monkey | BetId::TigerPairPerfect | BetId::TigerPairBoth | BetId::TigerPairSingle | BetId::BankerFortune4PairFortune30 | BetId::BankerFortune4PairFortune15 | BetId::BankerFortune4PairFortune12 | BetId::BankerFortune4PairFortune9 | BetId::PlayerFortune4PairFortune30 | BetId::PlayerFortune4PairFortune15 | BetId::PlayerFortune4PairFortune12 | BetId::PlayerFortune4PairFortune9 | BetId::PlayerRed | BetId::BankerRed | BetId::PlayerBlack | BetId::BankerBlack => BetClass::OpeningTwoCombinator,
            BetId::PlayerDragonAggregate | BetId::BankerDragonAggregate | BetId::BankerNaturalAggregate | BetId::PlayerNaturalAggregate | BetId::Lucky6Aggregate | BetId::TigerAggregate | BetId::TigerPairAggregate | BetId::BankerFortune4PairAggregate | BetId::PlayerFortune4PairAggregate | BetId::BankerCharSiuAggregate | BetId::PlayerCharSiuAggregate | BetId::Lucky7Aggregate | BetId::SuperLucky7Aggregate | BetId::Flame7sAggregate | BetId::Heaven9Aggregate | BetId::TreasureAll => BetClass::AggregateBet,
        }
    }

    pub fn class(self) -> (r: BetClass)
        ensures
            r == self.spec_class(),
    {
        match self {
            BetId::Player | BetId::Banker | BetId::Tie | BetId::PlayerDragonNatural | BetId::PlayerDragonPoint4 | BetId::PlayerDragonPoint5 | BetId::PlayerDragonPoint6 | BetId::PlayerDragonPoint7 | BetId::PlayerDragonPoint8 | BetId::PlayerDragonPoint9 | BetId::PlayerDragonPush | BetId::BankerDragonNatural | BetId::BankerDragonPoint4 | BetId::BankerDragonPoint5 | BetId::BankerDragonPoint6 | BetId::BankerDragonPoint7 | BetId::BankerDragonPoint8 | BetId::BankerDragonPoint9 | BetId::BankerDragonPush | BetId::BankerNaturalWin | BetId::BankerNaturalPush | BetId::PlayerNaturalWin | BetId::PlayerNaturalPush | BetId::Lucky6Two | BetId::Lucky6Three | BetId::TigerTwo | BetId::TigerThree | BetId::SmallTiger | BetId::BigTiger | BetId::TigerTie | BetId::Banker4Fortune | BetId::Player4Fortune | BetId::Invincible6 | BetId::Big | BetId::Small | BetId::BankerCharSiuPoint4 | BetId::BankerCharSiuPoint5 | BetId::BankerCharSiuPoint6 | BetId::PlayerCharSiuPoint4 | BetId::PlayerCharSiuPoint5 | BetId::PlayerCharSiuPoint6 | BetId::SmallBull | BetId::BigBull | BetId::TigerBull | BetId::WuDaLang | BetId::Dragon7 | BetId::Panda8 | BetId::SuperTie0 | BetId::SuperTie1 | BetId::SuperTie2 | BetId::SuperTie3 | BetId::SuperTie4 | BetId::SuperTie5 | BetId::SuperTie6 | BetId::SuperTie7 | BetId::SuperTie8 | BetId::SuperTie9 | BetId::Lucky7Two | BetId::Lucky7Three | BetId::BigLucky7 | BetId::SmallLucky7 | BetId::SuperLucky7Four | BetId::SuperLucky7Five | BetId::SuperLucky7Six | BetId::Flame7sTwo | BetId::Flame7sThree | BetId::Heaven9Single | BetId::Heaven9Both => BetClass::TerminalPredicate,
            BetId::AnyPair | BetId::PlayerPair | BetId::BankerPair | BetId::PerfectPair | BetId::Monkey | BetId::TigerPairPerfect | BetId::TigerPairBoth | BetId::TigerPairSingle | BetId::BankerFortune4PairFortune30 | BetId::BankerFortune4PairFortune15 | BetId::BankerFortune4PairFortune12 | BetId::BankerFortune4PairFortune9 | BetId::PlayerFortune4PairFortune30 | BetId::PlayerFortune4PairFortune15 | BetId::PlayerFortune4PairFortune12 | BetId::PlayerFortune4PairFortune9 | BetId::PlayerRed | BetId::BankerRed | BetId::PlayerBlack | BetId::BankerBlack => BetClass::OpeningTwoCombinator,
            BetId::PlayerDragonAggregate | BetId::BankerDragonAggregate | BetId::BankerNaturalAggregate | BetId::PlayerNaturalAggregate | BetId::Lucky6Aggregate | BetId::TigerAggregate | BetId::TigerPairAggregate | BetId::BankerFortune4PairAggregate | BetId::PlayerFortune4PairAggregate | BetId::BankerCharSiuAggregate | BetId::PlayerCharSiuAggregate | BetId::Lucky7Aggregate | BetId::SuperLucky7Aggregate | BetId::Flame7sAggregate | BetId::Heaven9Aggregate | BetId::TreasureAll => BetClass::AggregateBet,
        }
    }

    /// Whether the probability depends on suits.
    pub open spec fn spec_suit_dependent(self) -> bool {
        match self {
            BetId::Player | BetId::Banker | BetId::Tie | BetId::AnyPair | BetId::PlayerPair | BetId::BankerPair | BetId::Monkey | BetId::PlayerDragonNatural | BetId::PlayerDragonPoint4 | BetId::PlayerDragonPoint5 | BetId::PlayerDragonPoint6 | BetId::PlayerDragonPoint7 | BetId::PlayerDragonPoint8 | BetId::PlayerDragonPoint9 | BetId::PlayerDragonPush | BetId::PlayerDragonAggregate | BetId::BankerDragonNatural | BetId::BankerDragonPoint4 | BetId::BankerDragonPoint5 | BetId::BankerDragonPoint6 | BetId::BankerDragonPoint7 | BetId::BankerDragonPoint8 | BetId::BankerDragonPoint9 | BetId::BankerDragonPush | BetId::BankerDragonAggregate | BetId::BankerNaturalWin | BetId::BankerNaturalPush | BetId::BankerNaturalAggregate | BetId::PlayerNaturalWin | BetId::PlayerNaturalPush | BetId::PlayerNaturalAggregate | BetId::Lucky6Two | BetId::Lucky6Three | BetId::Lucky6Aggregate | BetId::TigerTwo | BetId::TigerThree | BetId::TigerAggregate | BetId::SmallTiger | BetId::BigTiger | BetId::TigerTie | BetId::Banker4Fortune | BetId::Player4Fortune | BetId::Invincible6 | BetId::Big | BetId::Small | BetId::BankerCharSiuPoint4 | BetId::BankerCharSiuPoint5 | BetId::BankerCharSiuPoint6 | BetId::BankerCharSiuAggregate | BetId::PlayerCharSiuPoint4 | BetId::PlayerCharSiuPoint5 | BetId::PlayerCharSiuPoint6 | BetId::PlayerCharSiuAggregate | BetId::SmallBull | BetId::BigBull | BetId::TigerBull | BetId::WuDaLang | BetId::Dragon7 | BetId::Panda8 | BetId::SuperTie0 | BetId::SuperTie1 | BetId::SuperTie2 | BetId::SuperTie3 | BetId::SuperTie4 | BetId::SuperTie5 | BetId::SuperTie6 | BetId::SuperTie7 | BetId::SuperTie8 | BetId::SuperTie9 | BetId::Lucky7Two | BetId::Lucky7Three | BetId::Lucky7Aggregate | BetId::BigLucky7 | BetId::SmallLucky7 | BetId::SuperLucky7Four | BetId::SuperLucky7Five | BetId::SuperLucky7Six | BetId::SuperLucky7Aggregate | BetId::Flame7sTwo | BetId::Flame7sThree | BetId::Flame7sAggregate | BetId::Heaven9Single | BetId::Heaven9Both | BetId::Heaven9Aggregate | BetId::TreasureAll => false,
            BetId::PerfectPair | BetId::TigerPairPerfect | BetId::TigerPairBoth | BetId::TigerPairSingle | BetId::TigerPairAggregate | BetId::BankerFortune4PairFortune30 | BetId::BankerFortune4PairFortune15 | BetId::BankerFortune4PairFortune12 | BetId::BankerFortune4PairFortune9 | BetId::BankerFortune4PairAggregate | BetId::PlayerFortune4PairFortune30 | BetId::PlayerFortune4PairFortune15 | BetId::PlayerFortune4PairFortune12 | BetId::PlayerFortune4PairFortune9 | BetId::PlayerFortune4PairAggregate | BetId::PlayerRed | BetId::BankerRed | BetId::PlayerBlack | BetId::BankerBlack => true,
        }
    }

    pub fn suit_dependent(self) -> (r: bool)
        ensures
            r == self.spec_suit_dependent(),
    {
        match self {
            BetId::Player | BetId::Banker | BetId::Tie | BetId::AnyPair | BetId::PlayerPair | BetId::BankerPair | BetId::Monkey | BetId::PlayerDragonNatural | BetId::PlayerDragonPoint4 | BetId::PlayerDragonPoint5 | BetId::PlayerDragonPoint6 | BetId::PlayerDragonPoint7 | BetId::PlayerDragonPoint8 | BetId::PlayerDragonPoint9 | BetId::PlayerDragonPush | BetId::PlayerDragonAggregate | BetId::BankerDragonNatural | BetId::BankerDragonPoint4 | BetId::BankerDragonPoint5 | BetId::BankerDragonPoint6 | BetId::BankerDragonPoint7 | BetId::BankerDragonPoint8 | BetId::BankerDragonPoint9 | BetId::BankerDragonPush | BetId::BankerDragonAggregate | BetId::BankerNaturalWin | BetId::BankerNaturalPush | BetId::BankerNaturalAggregate | BetId::PlayerNaturalWin | BetId::PlayerNaturalPush | BetId::PlayerNaturalAggregate | BetId::Lucky6Two | BetId::Lucky6Three | BetId::Lucky6Aggregate | BetId::TigerTwo | BetId::TigerThree | BetId::TigerAggregate | BetId::SmallTiger | BetId::BigTiger | BetId::TigerTie | BetId::Banker4Fortune | BetId::Player4Fortune | BetId::Invincible6 | BetId::Big | BetId::Small | BetId::BankerCharSiuPoint4 | BetId::BankerCharSiuPoint5 | BetId::BankerCharSiuPoint6 | BetId::BankerCharSiuAggregate | BetId::PlayerCharSiuPoint4 | BetId::PlayerCharSiuPoint5 | BetId::PlayerCharSiuPoint6 | BetId::PlayerCharSiuAggregate | BetId::SmallBull | BetId::BigBull | BetId::TigerBull | BetId::WuDaLang | BetId::Dragon7 | BetId::Panda8 | BetId::SuperTie0 | BetId::SuperTie1 | BetId::SuperTie2 | BetId::SuperTie3 | BetId::SuperTie4 | BetId::SuperTie5 | BetId::SuperTie6 | BetId::SuperTie7 | BetId::SuperTie8 | BetId::SuperTie9 | BetId::Lucky7Two | BetId::Lucky7Three | BetId::Lucky7Aggregate | BetId::BigLucky7 | BetId::SmallLucky7 | BetId::SuperLucky7Four | BetId::SuperLucky7Five | BetId::SuperLucky7Six | BetId::SuperLucky7Aggregate | BetId::Flame7sTwo | BetId::Flame7sThree | BetId::Flame7sAggregate | BetId::Heaven9Single | BetId::Heaven9Both | BetId::Heaven9Aggregate | BetId::TreasureAll => false,
            BetId::PerfectPair | BetId::TigerPairPerfect | BetId::TigerPairBoth | BetId::TigerPairSingle | BetId::TigerPairAggregate | BetId::BankerFortune4PairFortune30 | BetId::BankerFortune4PairFortune15 | BetId::BankerFortune4PairFortune12 | BetId::BankerFortune4PairFortune9 | BetId::BankerFortune4PairAggregate | BetId::PlayerFortune4PairFortune30 | BetId::PlayerFortune4PairFortune15 | BetId::PlayerFortune4PairFortune12 | BetId::PlayerFortune4PairFortune9 | BetId::PlayerFortune4PairAggregate | BetId::PlayerRed | BetId::BankerRed | BetId::PlayerBlack | BetId::BankerBlack => true,
        }
    }

    /// The public variant of a variant row.
    pub open spec fn spec_variant(self) -> Option<BetVariant> {
        match self {
            BetId::Player | BetId::Banker | BetId::Tie | BetId::AnyPair | BetId::PlayerPair | BetId::BankerPair | BetId::PerfectPair | BetId::Monkey | BetId::PlayerDragonAggregate | BetId::BankerDragonAggregate | BetId::BankerNaturalAggregate | BetId::PlayerNaturalAggregate | BetId::Lucky6Aggregate | BetId::TigerAggregate | BetId::SmallTiger | BetId::BigTiger | BetId::TigerTie | BetId::TigerPairAggregate | BetId::Banker4Fortune | BetId::Player4Fortune | BetId::BankerFortune4PairAggregate | BetId::PlayerFortune4PairAggregate | BetId::PlayerRed | BetId::BankerRed | BetId::PlayerBlack | BetId::BankerBlack | BetId::Invincible6 | BetId::Big | BetId::Small | BetId::BankerCharSiuAggregate | BetId::PlayerCharSiuAggregate | BetId::SmallBull | BetId::BigBull | BetId::TigerBull | BetId::WuDaLang | BetId::Dragon7 | BetId::Panda8 | BetId::SuperTie0 | BetId::SuperTie1 | BetId::SuperTie2 | BetId::SuperTie3 | BetId::SuperTie4 | BetId::SuperTie5 | BetId::SuperTie6 | BetId::SuperTie7 | BetId::SuperTie8 | BetId::SuperTie9 | BetId::Lucky7Aggregate | BetId::BigLucky7 | BetId::SmallLucky7 | BetId::SuperLucky7Aggregate | BetId::Flame7sAggregate | BetId::Heaven9Aggregate | BetId::TreasureAll => None,
            BetId::PlayerDragonNatural | BetId::BankerDragonNatural => Some(BetVariant::Dragon(DragonVariant::Natural)),
            BetId::PlayerDragonPoint4 | BetId::BankerDragonPoint4 => Some(BetVariant::Dragon(DragonVariant::Point4)),
            BetId::PlayerDragonPoint5 | BetId::BankerDragonPoint5 => Some(BetVariant::Dragon(DragonVariant::Point5)),
            BetId::PlayerDragonPoint6 | BetId::BankerDragonPoint6 => Some(BetVariant::Dragon(DragonVariant::Point6)),
            BetId::PlayerDragonPoint7 | BetId::BankerDragonPoint7 => Some(BetVariant::Dragon(DragonVariant::Point7)),
            BetId::PlayerDragonPoint8 | BetId::BankerDragonPoint8 => Some(BetVariant::Dragon(DragonVariant::Point8)),
            BetId::PlayerDragonPoint9 | BetId::BankerDragonPoint9 => Some(BetVariant::Dragon(DragonVariant::Point9)),
            BetId::PlayerDragonPush | BetId::BankerDragonPush => Some(BetVariant::Dragon(DragonVariant::Push)),
            BetId::BankerNaturalWin | BetId::PlayerNaturalWin => Some(BetVariant::Natural(NaturalVariant::Win)),
            BetId::BankerNaturalPush | BetId::PlayerNaturalPush => Some(BetVariant::Natural(NaturalVariant::Push)),
            BetId::Lucky6Two => Some(BetVariant::Lucky6(Lucky6Variant::Two)),
            BetId::Lucky6Three => Some(BetVariant::Lucky6(Lucky6Variant::Three)),
            BetId::TigerTwo => Some(BetVariant::Tiger(TigerVariant::Two)),
            BetId::TigerThree => Some(BetVariant::Tiger(TigerVariant::Three)),
            BetId::TigerPairPerfect => Some(BetVariant::TigerPair(TigerPairVariant::Perfect)),
            BetId::TigerPairBoth => Some(BetVariant::TigerPair(TigerPairVariant::Both)),
            BetId::TigerPairSingle => Some(BetVariant::TigerPair(TigerPairVariant::Single)),
            BetId::BankerFortune4PairFortune30 | BetId::PlayerFortune4PairFortune30 => Some(BetVariant::Fortune4Pair(Fortune4PairVariant::Fortune30)),
            BetId::BankerFortune4PairFortune15 | BetId::PlayerFortune4PairFortune15 => Some(BetVariant::Fortune4Pair(Fortune4PairVariant::Fortune15)),
            BetId::BankerFortune4PairFortune12 | BetId::PlayerFortune4PairFortune12 => Some(BetVariant::Fortune4Pair(Fortune4PairVariant::Fortune12)),
            BetId::BankerFortune4PairFortune9 | BetId::PlayerFortune4PairFortune9 => Some(BetVariant::Fortune4Pair(Fortune4PairVariant::Fortune9)),
            BetId::BankerCharSiuPoint4 | BetId::PlayerCharSiuPoint4 => Some(BetVariant::CharSiu(CharSiuVariant::Point4)),
            BetId::BankerCharSiuPoint5 | BetId::PlayerCharSiuPoint5 => Some(BetVariant::CharSiu(CharSiuVariant::Point5)),
            BetId::BankerCharSiuPoint6 | BetId::PlayerCharSiuPoint6 => Some(BetVariant::CharSiu(CharSiuVariant::Point6)),
            BetId::Lucky7Two => Some(BetVariant::Lucky7(Lucky7Variant::Two)),
            BetId::Lucky7Three => Some(BetVariant::Lucky7(Lucky7Variant::Three)),
            BetId::SuperLucky7Four => Some(BetVariant::SuperLucky7(SuperLucky7Variant::Four)),
            BetId::SuperLucky7Five => Some(BetVariant::SuperLucky7(SuperLucky7Variant::Five)),
            BetId::SuperLucky7Six => Some(BetVariant::SuperLucky7(SuperLucky7Variant::Six)),
            BetId::Flame7sTwo => Some(BetVariant::Flame7s(Flame7sVariant::Two)),
            BetId::Flame7sThree => Some(BetVariant::Flame7s(Flame7sVariant::Three)),
            BetId::Heaven9Single => Some(BetVariant::Heaven9(Heaven9Variant::Single)),
            BetId::Heaven9Both => Some(BetVariant::Heaven9(Heaven9Variant::Both)),
        }
    }

    pub fn variant(self) -> (r: Option<BetVariant>)
        ensures
            r == self.spec_variant(),
    {
        match self {
            BetId::Player | BetId::Banker | BetId::Tie | BetId::AnyPair | BetId::PlayerPair | BetId::BankerPair | BetId::PerfectPair | BetId::Monkey | BetId::PlayerDragonAggregate | BetId::BankerDragonAggregate | BetId::BankerNaturalAggregate | BetId::PlayerNaturalAggregate | BetId::Lucky6Aggregate | BetId::TigerAggregate | BetId::SmallTiger | BetId::BigTiger | BetId::TigerTie | BetId::TigerPairAggregate | BetId::Banker4Fortune | BetId::Player4Fortune | BetId::BankerFortune4PairAggregate | BetId::PlayerFortune4PairAggregate | BetId::PlayerRed | BetId::BankerRed | BetId::PlayerBlack | BetId::BankerBlack | BetId::Invincible6 | BetId::Big | BetId::Small | BetId::BankerCharSiuAggregate | BetId::PlayerCharSiuAggregate | BetId::SmallBull | BetId::BigBull | BetId::TigerBull | BetId::WuDaLang | BetId::Dragon7 | BetId::Panda8 | BetId::SuperTie0 | BetId::SuperTie1 | BetId::SuperTie2 | BetId::SuperTie3 | BetId::SuperTie4 | BetId::SuperTie5 | BetId::SuperTie6 | BetId::SuperTie7 | BetId::SuperTie8 | BetId::SuperTie9 | BetId::Lucky7Aggregate | BetId::BigLucky7 | BetId::SmallLucky7 | BetId::SuperLucky7Aggregate | BetId::Flame7sAggregate | BetId::Heaven9Aggregate | BetId::TreasureAll => None,
            BetId::PlayerDragonNatural | BetId::BankerDragonNatural => Some(BetVariant::Dragon(DragonVariant::Natural)),
            BetId::PlayerDragonPoint4 | BetId::BankerDragonPoint4 => Some(BetVariant::Dragon(DragonVariant::Point4)),
            BetId::PlayerDragonPoint5 | BetId::BankerDragonPoint5 => Some(BetVariant::Dragon(DragonVariant::Point5)),
            BetId::PlayerDragonPoint6 | BetId::BankerDragonPoint6 => Some(BetVariant::Dragon(DragonVariant::Point6)),
            BetId::PlayerDragonPoint7 | BetId::BankerDragonPoint7 => Some(BetVariant::Dragon(DragonVariant::Point7)),
            BetId::PlayerDragonPoint8 | BetId::BankerDragonPoint8 => Some(BetVariant::Dragon(DragonVariant::Point8)),
            BetId::PlayerDragonPoint9 | BetId::BankerDragonPoint9 => Some(BetVariant::Dragon(DragonVariant::Point9)),
            BetId::PlayerDragonPush | BetId::BankerDragonPush => Some(BetVariant::Dragon(DragonVariant::Push)),
            BetId::BankerNaturalWin | BetId::PlayerNaturalWin => Some(BetVariant::Natural(NaturalVariant::Win)),
            BetId::BankerNaturalPush | BetId::PlayerNaturalPush => Some(BetVariant::Natural(NaturalVariant::Push)),
            BetId::Lucky6Two => Some(BetVariant::Lucky6(Lucky6Variant::Two)),
            BetId::Lucky6Three => Some(BetVariant::Lucky6(Lucky6Variant::Three)),
            BetId::TigerTwo => Some(BetVariant::Tiger(TigerVariant::Two)),
            BetId::TigerThree => Some(BetVariant::Tiger(TigerVariant::Three)),
            BetId::TigerPairPerfect => Some(BetVariant::TigerPair(TigerPairVariant::Perfect)),
            BetId::TigerPairBoth => Some(BetVariant::TigerPair(TigerPairVariant::Both)),
            BetId::TigerPairSingle => Some(BetVariant::TigerPair(TigerPairVariant::Single)),
            BetId::BankerFortune4PairFortune30 | BetId::PlayerFortune4PairFortune30 => Some(BetVariant::Fortune4Pair(Fortune4PairVariant::Fortune30)),
            BetId::BankerFortune4PairFortune15 | BetId::PlayerFortune4PairFortune15 => Some(BetVariant::Fortune4Pair(Fortune4PairVariant::Fortune15)),
            BetId::BankerFortune4PairFortune12 | BetId::PlayerFortune4PairFortune12 => Some(BetVariant::Fortune4Pair(Fortune4PairVariant::Fortune12)),
            BetId::BankerFortune4PairFortune9 | BetId::PlayerFortune4PairFortune9 => Some(BetVariant::Fortune4Pair(Fortune4PairVariant::Fortune9)),
            BetId::BankerCharSiuPoint4 | BetId::PlayerCharSiuPoint4 => Some(BetVariant::CharSiu(CharSiuVariant::Point4)),
            BetId::BankerCharSiuPoint5 | BetId::PlayerCharSiuPoint5 => Some(BetVariant::CharSiu(CharSiuVariant::Point5)),
            BetId::BankerCharSiuPoint6 | BetId::PlayerCharSiuPoint6 => Some(BetVariant::CharSiu(CharSiuVariant::Point6)),
            BetId::Lucky7Two => Some(BetVariant::Lucky7(Lucky7Variant::Two)),
            BetId::Lucky7Three => Some(BetVariant::Lucky7(Lucky7Variant::Three)),
            BetId::SuperLucky7Four => Some(BetVariant::SuperLucky7(SuperLucky7Variant::Four)),
            BetId::SuperLucky7Five => Some(BetVariant::SuperLucky7(SuperLucky7Variant::Five)),
            BetId::SuperLucky7Six => Some(BetVariant::SuperLucky7(SuperLucky7Variant::Six)),
            BetId::Flame7sTwo => Some(BetVariant::Flame7s(Flame7sVariant::Two)),
            BetId::Flame7sThree => Some(BetVariant::Flame7s(Flame7sVariant::Three)),
            BetId::Heaven9Single => Some(BetVariant::Heaven9(Heaven9Variant::Single)),
            BetId::Heaven9Both => Some(BetVariant::Heaven9(Heaven9Variant::Both)),
        }
    }

    /// The registry row of the identifier.
    pub open spec fn spec_definition(self) -> BetDefinition {
        BetDefinition {
            id: self,
            class: self.spec_class(),
            suit_dependent: self.spec_suit_dependent(),
            variant: self.spec_variant(),
        }
    }

    /// The registry row of the identifier.
    pub fn definition(self) -> (r: BetDefinition)
        ensures
            r == self.spec_definition(),
    {
        BetDefinition { id: self, class: self.class(), suit_dependent: self.suit_dependent(), variant: self.variant() }
    }
}

/// The canonical public registry row of a caller-facing bet type (the
/// aggregate row for bet families).
pub open spec fn spec_public_bet_id_for_type(bet_type: BetType) -> BetId {
    match bet_type {
        BetType::Player => BetId::Player,
        BetType::Banker => BetId::Banker,
        BetType::Tie => BetId::Tie,
        BetType::AnyPair => BetId::AnyPair,
        BetType::PlayerPair => BetId::PlayerPair,
        BetType::BankerPair => BetId::BankerPair,
        BetType::PerfectPair => BetId::PerfectPair,
        BetType::Monkey => BetId::Monkey,
        BetType::PlayerDragon => BetId::PlayerDragonAggregate,
        BetType::BankerDragon => BetId::BankerDragonAggregate,
        BetType::BankerNatural => BetId::BankerNaturalAggregate,
        BetType::PlayerNatural => BetId::PlayerNaturalAggregate,
        BetType::Lucky6 => BetId::Lucky6Aggregate,
        BetType::Tiger => BetId::TigerAggregate,
        BetType::SmallTiger => BetId::SmallTiger,
        BetType::BigTiger => BetId::BigTiger,
        BetType::TigerTie => BetId::TigerTie,
        BetType::TigerPair => BetId::TigerPairAggregate,
        BetType::Banker4Fortune => BetId::Banker4Fortune,
        BetType::Player4Fortune => BetId::Player4Fortune,
        BetType::BankerFortune4Pair => BetId::BankerFortune4PairAggregate,
        BetType::PlayerFortune4Pair => BetId::PlayerFortune4PairAggregate,
        BetType::PlayerRed => BetId::PlayerRed,
        BetType::BankerRed => BetId::BankerRed,
        BetType::PlayerBlack => BetId::PlayerBlack,
        BetType::BankerBlack => BetId::BankerBlack,
        BetType::Invincible6 => BetId::Invincible6,
        BetType::Big => BetId::Big,
        BetType::Small => BetId::Small,
        BetType::BankerCharSiu => BetId::BankerCharSiuAggregate,
        BetType::PlayerCharSiu => BetId::PlayerCharSiuAggregate,
        BetType::SmallBull => BetId::SmallBull,
        BetType::BigBull => BetId::BigBull,
        BetType::TigerBull => BetId::TigerBull,
        BetType::WuDaLang => BetId::WuDaLang,
        BetType::Dragon7 => BetId::Dragon7,
        BetType::Panda8 => BetId::Panda8,
        BetType::Lucky7 => BetId::Lucky7Aggregate,
        BetType::BigLucky7 => BetId::BigLucky7,
        BetType::SmallLucky7 => BetId::SmallLucky7,
        BetType::SuperLucky7 => BetId::SuperLucky7Aggregate,
        BetType::Flame7s => BetId::Flame7sAggregate,
        BetType::SuperTie0 => BetId::SuperTie0,
        BetType::SuperTie1 => BetId::SuperTie1,
        BetType::SuperTie2 => BetId::SuperTie2,
        BetType::SuperTie3 => BetId::SuperTie3,
        BetType::SuperTie4 => BetId::SuperTie4,
        BetType::SuperTie5 => BetId::SuperTie5,
        BetType::SuperTie6 => BetId::SuperTie6,
        BetType::SuperTie7 => BetId::SuperTie7,
        BetType::SuperTie8 => BetId::SuperTie8,
        BetType::SuperTie9 => BetId::SuperTie9,
        BetType::Heaven9 => BetId::Heaven9Aggregate,
        BetType::TreasureAll => BetId::TreasureAll,
    }
}

/// Returns the canonical public registry row for an external `BetType`.
pub fn public_bet_id_for_type(bet_type: BetType) -> (r: BetId)
    ensures
        r == spec_public_bet_id_for_type(bet_type),
{
    match bet_type {
        BetType::Player => BetId::Player,
        BetType::Banker => BetId::Banker,
        BetType::Tie => BetId::Tie,
        BetType::AnyPair => BetId::AnyPair,
        BetType::PlayerPair => BetId::PlayerPair,
        BetType::BankerPair => BetId::BankerPair,
        BetType::PerfectPair => BetId::PerfectPair,
        BetType::Monkey => BetId::Monkey,
        BetType::PlayerDragon => BetId::PlayerDragonAggregate,
        BetType::BankerDragon => BetId::BankerDragonAggregate,
        BetType::BankerNatural => BetId::BankerNaturalAggregate,
        BetType::PlayerNatural => BetId::PlayerNaturalAggregate,
        BetType::Lucky6 => BetId::Lucky6Aggregate,
        BetType::Tiger => BetId::TigerAggregate,
        BetType::SmallTiger => BetId::SmallTiger,
        BetType::BigTiger => BetId::BigTiger,
        BetType::TigerTie => BetId::TigerTie,
        BetType::TigerPair => BetId::TigerPairAggregate,
        BetType::Banker4Fortune => BetId::Banker4Fortune,
        BetType::Player4Fortune => BetId::Player4Fortune,
        BetType::BankerFortune4Pair => BetId::BankerFortune4PairAggregate,
        BetType::PlayerFortune4Pair => BetId::PlayerFortune4PairAggregate,
        BetType::PlayerRed => BetId::PlayerRed,
        BetType::BankerRed => BetId::BankerRed,
        BetType::PlayerBlack => BetId::PlayerBlack,
        BetType::BankerBlack => BetId::BankerBlack,
        BetType::Invincible6 => BetId::Invincible6,
        BetType::Big => BetId::Big,
        BetType::Small => BetId::Small,
        BetType::BankerCharSiu => BetId::BankerCharSiuAggregate,
        BetType::PlayerCharSiu => BetId::PlayerCharSiuAggregate,
        BetType::SmallBull => BetId::SmallBull,
        BetType::BigBull => BetId::BigBull,
        BetType::TigerBull => BetId::TigerBull,
        BetType::WuDaLang => BetId::WuDaLang,
        BetType::Dragon7 => BetId::Dragon7,
        BetType::Panda8 => BetId::Panda8,
        BetType::Lucky7 => BetId::Lucky7Aggregate,
        BetType::BigLucky7 => BetId::BigLucky7,
        BetType::SmallLucky7 => BetId::SmallLucky7,
        BetType::SuperLucky7 => BetId::SuperLucky7Aggregate,
        BetType::Flame7s => BetId::Flame7sAggregate,
        BetType::SuperTie0 => BetId::SuperTie0,
        BetType::SuperTie1 => BetId::SuperTie1,
        BetType::SuperTie2 => BetId::SuperTie2,
        BetType::SuperTie3 => BetId::SuperTie3,
        BetType::SuperTie4 => BetId::SuperTie4,
        BetType::SuperTie5 => BetId::SuperTie5,
        BetType::SuperTie6 => BetId::SuperTie6,
        BetType::SuperTie7 => BetId::SuperTie7,
        BetType::SuperTie8 => BetId::SuperTie8,
        BetType::SuperTie9 => BetId::SuperTie9,
        BetType::Heaven9 => BetId::Heaven9Aggregate,
        BetType::TreasureAll => BetId::TreasureAll,
    }
}

/// The precise registry identifier of a variant inside a bet family; the
/// public row of the bet type when the pair names no registered variant.
pub open spec fn spec_variant_bet_id(bet_type: BetType, variant: BetVariant) -> BetId {
    match (bet_type, variant) {
        (BetType::PlayerDragon, BetVariant::Dragon(DragonVariant::Natural)) => BetId::PlayerDragonNatural,
        (BetType::PlayerDragon, BetVariant::Dragon(DragonVariant::Point4)) => BetId::PlayerDragonPoint4,
        (BetType::PlayerDragon, BetVariant::Dragon(DragonVariant::Point5)) => BetId::PlayerDragonPoint5,
        (BetType::PlayerDragon, BetVariant::Dragon(DragonVariant::Point6)) => BetId::PlayerDragonPoint6,
        (BetType::PlayerDragon, BetVariant::Dragon(DragonVariant::Point7)) => BetId::PlayerDragonPoint7,
        (BetType::PlayerDragon, BetVariant::Dragon(DragonVariant::Point8)) => BetId::PlayerDragonPoint8,
        (BetType::PlayerDragon, BetVariant::Dragon(DragonVariant::Point9)) => BetId::PlayerDragonPoint9,
        (BetType::PlayerDragon, BetVariant::Dragon(DragonVariant::Push)) => BetId::PlayerDragonPush,
        (BetType::BankerDragon, BetVariant::Dragon(DragonVariant::Natural)) => BetId::BankerDragonNatural,
        (BetType::BankerDragon, BetVariant::Dragon(DragonVariant::Point4)) => BetId::BankerDragonPoint4,
        (BetType::BankerDragon, BetVariant::Dragon(DragonVariant::Point5)) => BetId::BankerDragonPoint5,
        (BetType::BankerDragon, BetVariant::Dragon(DragonVariant::Point6)) => BetId::BankerDragonPoint6,
        (BetType::BankerDragon, BetVariant::Dragon(DragonVariant::Point7)) => BetId::BankerDragonPoint7,
        (BetType::BankerDragon, BetVariant::Dragon(DragonVariant::Point8)) => BetId::BankerDragonPoint8,
        (BetType::BankerDragon, BetVariant::Dragon(DragonVariant::Point9)) => BetId::BankerDragonPoint9,
        (BetType::BankerDragon, BetVariant::Dragon(DragonVariant::Push)) => BetId::BankerDragonPush,
        (BetType::BankerNatural, BetVariant::Natural(NaturalVariant::Win)) => BetId::BankerNaturalWin,
        (BetType::BankerNatural, BetVariant::Natural(NaturalVariant::Push)) => BetId::BankerNaturalPush,
        (BetType::PlayerNatural, BetVariant::Natural(NaturalVariant::Win)) => BetId::PlayerNaturalWin,
        (BetType::PlayerNatural, BetVariant::Natural(NaturalVariant::Push)) => BetId::PlayerNaturalPush,
        (BetType::Lucky6, BetVariant::Lucky6(Lucky6Variant::Two)) => BetId::Lucky6Two,
        (BetType::Lucky6, BetVariant::Lucky6(Lucky6Variant::Three)) => BetId::Lucky6Three,
        (BetType::Tiger, BetVariant::Tiger(TigerVariant::Two)) => BetId::TigerTwo,
        (BetType::Tiger, BetVariant::Tiger(TigerVariant::Three)) => BetId::TigerThree,
        (BetType::TigerPair, BetVariant::TigerPair(TigerPairVariant::Perfect)) => BetId::TigerPairPerfect,
        (BetType::TigerPair, BetVariant::TigerPair(TigerPairVariant::Both)) => BetId::TigerPairBoth,
        (BetType::TigerPair, BetVariant::TigerPair(TigerPairVariant::Single)) => BetId::TigerPairSingle,
        (BetType::BankerFortune4Pair, BetVariant::Fortune4Pair(Fortune4PairVariant::Fortune30)) => BetId::BankerFortune4PairFortune30,
        (BetType::BankerFortune4Pair, BetVariant::Fortune4Pair(Fortune4PairVariant::Fortune15)) => BetId::BankerFortune4PairFortune15,
        (BetType::BankerFortune4Pair, BetVariant::Fortune4Pair(Fortune4PairVariant::Fortune12)) => BetId::BankerFortune4PairFortune12,
        (BetType::BankerFortune4Pair, BetVariant::Fortune4Pair(Fortune4PairVariant::Fortune9)) => BetId::BankerFortune4PairFortune9,
        (BetType::PlayerFortune4Pair, BetVariant::Fortune4Pair(Fortune4PairVariant::Fortune30)) => BetId::PlayerFortune4PairFortune30,
        (BetType::PlayerFortune4Pair, BetVariant::Fortune4Pair(Fortune4PairVariant::Fortune15)) => BetId::PlayerFortune4PairFortune15,
        (BetType::PlayerFortune4Pair, BetVariant::Fortune4Pair(Fortune4PairVariant::Fortune12)) => BetId::PlayerFortune4PairFortune12,
        (BetType::PlayerFortune4Pair, BetVariant::Fortune4Pair(Fortune4PairVariant::Fortune9)) => BetId::PlayerFortune4PairFortune9,
        (BetType::BankerCharSiu, BetVariant::CharSiu(CharSiuVariant::Point4)) => BetId::BankerCharSiuPoint4,
        (BetType::BankerCharSiu, BetVariant::CharSiu(CharSiuVariant::Point5)) => BetId::BankerCharSiuPoint5,
        (BetType::BankerCharSiu, BetVariant::CharSiu(CharSiuVariant::Point6)) => BetId::BankerCharSiuPoint6,
        (BetType::PlayerCharSiu, BetVariant::CharSiu(CharSiuVariant::Point4)) => BetId::PlayerCharSiuPoint4,
        (BetType::PlayerCharSiu, BetVariant::CharSiu(CharSiuVariant::Point5)) => BetId::PlayerCharSiuPoint5,
        (BetType::PlayerCharSiu, BetVariant::CharSiu(CharSiuVariant::Point6)) => BetId::PlayerCharSiuPoint6,
        (BetType::Lucky7, BetVariant::Lucky7(Lucky7Variant::Two)) => BetId::Lucky7Two,
        (BetType::Lucky7, BetVariant::Lucky7(Lucky7Variant::Three)) => BetId::Lucky7Three,
        (BetType::SuperLucky7, BetVariant::SuperLucky7(SuperLucky7Variant::Four)) => BetId::SuperLucky7Four,
        (BetType::SuperLucky7, BetVariant::SuperLucky7(SuperLucky7Variant::Five)) => BetId::SuperLucky7Five,
        (BetType::SuperLucky7, BetVariant::SuperLucky7(SuperLucky7Variant::Six)) => BetId::SuperLucky7Six,
        (BetType::Flame7s, BetVariant::Flame7s(Flame7sVariant::Two)) => BetId::Flame7sTwo,
        (BetType::Flame7s, BetVariant::Flame7s(Flame7sVariant::Three)) => BetId::Flame7sThree,
        (BetType::Heaven9, BetVariant::Heaven9(Heaven9Variant::Single)) => BetId::Heaven9Single,
        (BetType::Heaven9, BetVariant::Heaven9(Heaven9Variant::Both)) => BetId::Heaven9Both,
        _ => spec_public_bet_id_for_type(bet_type),
    }
}

/// Returns the precise internal `BetId` for a variant inside an external
/// caller-facing `BetType` family.
pub fn variant_bet_id(bet_type: BetType, variant: BetVariant) -> (r: BetId)
    ensures
        r == spec_variant_bet_id(bet_type, variant),
{
    match (bet_type, variant) {
        (BetType::PlayerDragon, BetVariant::Dragon(DragonVariant::Natural)) => BetId::PlayerDragonNatural,
        (BetType::PlayerDragon, BetVariant::Dragon(DragonVariant::Point4)) => BetId::PlayerDragonPoint4,
        (BetType::PlayerDragon, BetVariant::Dragon(DragonVariant::Point5)) => BetId::PlayerDragonPoint5,
        (BetType::PlayerDragon, BetVariant::Dragon(DragonVariant::Point6)) => BetId::PlayerDragonPoint6,
        (BetType::PlayerDragon, BetVariant::Dragon(DragonVariant::Point7)) => BetId::PlayerDragonPoint7,
        (BetType::PlayerDragon, BetVariant::Dragon(DragonVariant::Point8)) => BetId::PlayerDragonPoint8,
        (BetType::PlayerDragon, BetVariant::Dragon(DragonVariant::Point9)) => BetId::PlayerDragonPoint9,
        (BetType::PlayerDragon, BetVariant::Dragon(DragonVariant::Push)) => BetId::PlayerDragonPush,
        (BetType::BankerDragon, BetVariant::Dragon(DragonVariant::Natural)) => BetId::BankerDragonNatural,
        (BetType::BankerDragon, BetVariant::Dragon(DragonVariant::Point4)) => BetId::BankerDragonPoint4,
        (BetType::BankerDragon, BetVariant::Dragon(DragonVariant::Point5)) => BetId::BankerDragonPoint5,
        (BetType::BankerDragon, BetVariant::Dragon(DragonVariant::Point6)) => BetId::BankerDragonPoint6,
        (BetType::BankerDragon, BetVariant::Dragon(DragonVariant::Point7)) => BetId::BankerDragonPoint7,
        (BetType::BankerDragon, BetVariant::Dragon(DragonVariant::Point8)) => BetId::BankerDragonPoint8,
        (BetType::BankerDragon, BetVariant::Dragon(DragonVariant::Point9)) => BetId::BankerDragonPoint9,
        (BetType::BankerDragon, BetVariant::Dragon(DragonVariant::Push)) => BetId::BankerDragonPush,
        (BetType::BankerNatural, BetVariant::Natural(NaturalVariant::Win)) => BetId::BankerNaturalWin,
        (BetType::BankerNatural, BetVariant::Natural(NaturalVariant::Push)) => BetId::BankerNaturalPush,
        (BetType::PlayerNatural, BetVariant::Natural(NaturalVariant::Win)) => BetId::PlayerNaturalWin,
        (BetType::PlayerNatural, BetVariant::Natural(NaturalVariant::Push)) => BetId::PlayerNaturalPush,
        (BetType::Lucky6, BetVariant::Lucky6(Lucky6Variant::Two)) => BetId::Lucky6Two,
        (BetType::Lucky6, BetVariant::Lucky6(Lucky6Variant::Three)) => BetId::Lucky6Three,
        (BetType::Tiger, BetVariant::Tiger(TigerVariant::Two)) => BetId::TigerTwo,
        (BetType::Tiger, BetVariant::Tiger(TigerVariant::Three)) => BetId::TigerThree,
        (BetType::TigerPair, BetVariant::TigerPair(TigerPairVariant::Perfect)) => BetId::TigerPairPerfect,
        (BetType::TigerPair, BetVariant::TigerPair(TigerPairVariant::Both)) => BetId::TigerPairBoth,
        (BetType::TigerPair, BetVariant::TigerPair(TigerPairVariant::Single)) => BetId::TigerPairSingle,
        (BetType::BankerFortune4Pair, BetVariant::Fortune4Pair(Fortune4PairVariant::Fortune30)) => BetId::BankerFortune4PairFortune30,
        (BetType::BankerFortune4Pair, BetVariant::Fortune4Pair(Fortune4PairVariant::Fortune15)) => BetId::BankerFortune4PairFortune15,
        (BetType::BankerFortune4Pair, BetVariant::Fortune4Pair(Fortune4PairVariant::Fortune12)) => BetId::BankerFortune4PairFortune12,
        (BetType::BankerFortune4Pair, BetVariant::Fortune4Pair(Fortune4PairVariant::Fortune9)) => BetId::BankerFortune4PairFortune9,
        (BetType::PlayerFortune4Pair, BetVariant::Fortune4Pair(Fortune4PairVariant::Fortune30)) => BetId::PlayerFortune4PairFortune30,
        (BetType::PlayerFortune4Pair, BetVariant::Fortune4Pair(Fortune4PairVariant::Fortune15)) => BetId::PlayerFortune4PairFortune15,
        (BetType::PlayerFortune4Pair, BetVariant::Fortune4Pair(Fortune4PairVariant::Fortune12)) => BetId::PlayerFortune4PairFortune12,
        (BetType::PlayerFortune4Pair, BetVariant::Fortune4Pair(Fortune4PairVariant::Fortune9)) => BetId::PlayerFortune4PairFortune9,
        (BetType::BankerCharSiu, BetVariant::CharSiu(CharSiuVariant::Point4)) => BetId::BankerCharSiuPoint4,
        (BetType::BankerCharSiu, BetVariant::CharSiu(CharSiuVariant::Point5)) => BetId::BankerCharSiuPoint5,
        (BetType::BankerCharSiu, BetVariant::CharSiu(CharSiuVariant::Point6)) => BetId::BankerCharSiuPoint6,
        (BetType::PlayerCharSiu, BetVariant::CharSiu(CharSiuVariant::Point4)) => BetId::PlayerCharSiuPoint4,
        (BetType::PlayerCharSiu, BetVariant::CharSiu(CharSiuVariant::Point5)) => BetId::PlayerCharSiuPoint5,
        (BetType::PlayerCharSiu, BetVariant::CharSiu(CharSiuVariant::Point6)) => BetId::PlayerCharSiuPoint6,
        (BetType::Lucky7, BetVariant::Lucky7(Lucky7Variant::Two)) => BetId::Lucky7Two,
        (BetType::Lucky7, BetVariant::Lucky7(Lucky7Variant::Three)) => BetId::Lucky7Three,
        (BetType::SuperLucky7, BetVariant::SuperLucky7(SuperLucky7Variant::Four)) => BetId::SuperLucky7Four,
        (BetType::SuperLucky7, BetVariant::SuperLucky7(SuperLucky7Variant::Five)) => BetId::SuperLucky7Five,
        (BetType::SuperLucky7, BetVariant::SuperLucky7(SuperLucky7Variant::Six)) => BetId::SuperLucky7Six,
        (BetType::Flame7s, BetVariant::Flame7s(Flame7sVariant::Two)) => BetId::Flame7sTwo,
        (BetType::Flame7s, BetVariant::Flame7s(Flame7sVariant::Three)) => BetId::Flame7sThree,
        (BetType::Heaven9, BetVariant::Heaven9(Heaven9Variant::Single)) => BetId::Heaven9Single,
        (BetType::Heaven9, BetVariant::Heaven9(Heaven9Variant::Both)) => BetId::Heaven9Both,
        _ => public_bet_id_for_type(bet_type),
    }
}

/// Number of registry rows.
pub const BET_DEFINITION_COUNT: usize = 104;

impl BetDefinition {
    pub open spec fn spec_bet_type(self) -> BetType {
        self.id.spec_bet_type()
    }

    pub fn bet_type(self) -> (r: BetType)
        ensures
            r == self.id.spec_bet_type(),
    {
        self.id.bet_type()
    }

    pub fn is_public_probability_result(self) -> (r: bool)
        ensures
            r == self.id.spec_is_public(),
    {
        self.id.is_public_probability_result()
    }
}

/// The registry table in registry order: one row per identifier.
pub open spec fn spec_bet_definitions() -> Seq<BetDefinition> {
    Seq::new(104, |i: int| BetId::spec_at(i).spec_definition())
}

/// Whether a registry row is the public row of its bet type.
pub open spec fn is_public_definition(d: BetDefinition) -> bool {
    d.id.spec_is_public()
}

/// The public rows of the registry, in registry order.
pub open spec fn spec_public_definitions() -> Seq<BetDefinition> {
    spec_bet_definitions().filter(|d: BetDefinition| is_public_definition(d))
}

/// Returns the registry table.
pub fn bet_definitions() -> (r: Vec<BetDefinition>)
    ensures
        r@ == spec_bet_definitions(),
{
    let mut r: Vec<BetDefinition> = Vec::new();
    let mut i: usize = 0;
    while i < BET_DEFINITION_COUNT
        invariant
            i <= 104,
            r@ == spec_bet_definitions().take(i as int),
        decreases 104 - i,
    {
        r.push(BetId::at(i).definition());
        i = i + 1;
        proof {
            assert(r@ =~= spec_bet_definitions().take(i as int));
        }
    }
    proof {
        assert(spec_bet_definitions().take(104) =~= spec_bet_definitions());
    }
    r
}

/// Returns the public rows of the registry, in registry order: 54 rows,
/// one per bet type (`lemma_public_rows_cover_bet_types`).
pub fn public_probability_definitions() -> (r: Vec<BetDefinition>)
    ensures
        r@ == spec_public_definitions(),
        r@.len() == 54,
{
    proof {
        lemma_public_row_count();
    }
    let all = bet_definitions();
    let mut r: Vec<BetDefinition> = Vec::new();
    let mut i: usize = 0;
    let ghost pred = |d: BetDefinition| is_public_definition(d);
    while i < all.len()
        invariant
            i <= all@.len(),
            all@ == spec_bet_definitions(),
            pred == (|d: BetDefinition| is_public_definition(d)),
            r@ == all@.take(i as int).filter(pred),
        decreases all@.len() - i,
    {
        let d = all[i];
        let keep = d.is_public_probability_result();
        proof {
            reveal(Seq::filter);
            let t = all@.take(i as int + 1);
            assert(t.drop_last() =~= all@.take(i as int));
            assert(t.last() == d);
            assert(pred(d) == keep);
            assert(t.filter(pred) == if keep {
                all@.take(i as int).filter(pred).push(d)
            } else {
                all@.take(i as int).filter(pred)
            });
        }
        if keep {
            r.push(d);
        }
        i = i + 1;
    }
    proof {
        assert(all@.take(all@.len() as int) =~= all@);
    }
    r
}

/// Every public bet type maps to a public registry row of that same type.
pub proof fn lemma_public_bet_id_round_trip(bet_type: BetType)
    ensures
        spec_public_bet_id_for_type(bet_type).spec_bet_type() == bet_type,
        spec_public_bet_id_for_type(bet_type).spec_is_public(),
{
}

/// The public row of an identifier's bet type is the identifier itself
/// exactly when the identifier is a public row.
pub proof fn lemma_public_rows_are_canonical(id: BetId)
    ensures
        id.spec_is_public() <==> spec_public_bet_id_for_type(id.spec_bet_type()) == id,
{
}

/// Every variant row is found again from its bet type and variant.
pub proof fn lemma_variant_rows_round_trip(id: BetId)
    requires
        id.spec_variant() is Some,
    ensures
        spec_variant_bet_id(id.spec_bet_type(), id.spec_variant().unwrap()) == id,
{
}

/// Push variants are variant rows, never public rows.
pub proof fn lemma_push_rows_are_variants(id: BetId)
    requires
        id.spec_is_push_result(),
    ensures
        id.spec_variant() is Some,
        !id.spec_is_public(),
{
}

/// Registry positions enumerate every identifier exactly once.
pub proof fn lemma_positions_enumerate(id: BetId)
    ensures
        0 <= id.spec_position() < 104,
        BetId::spec_at(id.spec_position()) == id,
{
}

/// Each registry position holds the identifier at that position.
pub proof fn lemma_positions_of_rows(i: int)
    requires
        0 <= i < 104,
    ensures
        BetId::spec_at(i).spec_position() == i,
{
}

/// The registry has 104 rows with distinct identifiers.
pub proof fn lemma_registry_rows_distinct(i: int, j: int)
    requires
        0 <= i < j < spec_bet_definitions().len(),
    ensures
        spec_bet_definitions().len() == 104,
        spec_bet_definitions()[i].id != spec_bet_definitions()[j].id,
{
    lemma_positions_of_rows(i);
    lemma_positions_of_rows(j);
}

/// The shape of every registry row: a variant row is exactly a row that is
/// not public, aggregate rows have no variant, and the suit-dependent rows
/// are those of the perfect-pair, tiger-pair, fortune-4-pair and colour
/// bets.
pub proof fn lemma_registry_row_shape(id: BetId)
    ensures
        id.spec_variant() is Some <==> !id.spec_is_public(),
        id.spec_class() == BetClass::AggregateBet ==> id.spec_variant() is None,
        id.spec_suit_dependent() <==> (id.spec_bet_type() == BetType::PerfectPair || id.spec_bet_type()
            == BetType::TigerPair || id.spec_bet_type() == BetType::BankerFortune4Pair || id.spec_bet_type()
            == BetType::PlayerFortune4Pair || id.spec_bet_type() == BetType::PlayerRed || id.spec_bet_type()
            == BetType::BankerRed || id.spec_bet_type() == BetType::PlayerBlack || id.spec_bet_type()
            == BetType::BankerBlack),
{
}

/// Every bet type has exactly one public row: the public rows have pairwise
/// distinct bet types, and each bet type's public row is in the registry
/// and among the public rows.
pub proof fn lemma_public_rows_cover_bet_types(bet_type: BetType)
    ensures
        spec_public_definitions().contains(spec_public_bet_id_for_type(bet_type).spec_definition()),
        forall|i: int, j: int|
            0 <= i < j < spec_public_definitions().len() ==> (#[trigger] spec_public_definitions()[i]).id.spec_bet_type()
                != (#[trigger] spec_public_definitions()[j]).id.spec_bet_type(),
{
    let id = spec_public_bet_id_for_type(bet_type);
    let all = spec_bet_definitions();
    let pred = |d: BetDefinition| is_public_definition(d);
    lemma_positions_enumerate(id);
    lemma_public_bet_id_round_trip(bet_type);
    let k = id.spec_position();
    assert(all[k] == id.spec_definition());
    all.lemma_filter_contains(pred, k);
    assert forall|i: int, j: int|
        0 <= i < j < spec_public_definitions().len() implies (#[trigger] spec_public_definitions()[i]).id.spec_bet_type()
            != (#[trigger] spec_public_definitions()[j]).id.spec_bet_type() by {
        let pub_defs = spec_public_definitions();
        let a = pub_defs[i];
        let b = pub_defs[j];
        all.lemma_filter_pred(pred, i);
        all.lemma_filter_pred(pred, j);
        lemma_public_rows_are_canonical(a.id);
        lemma_public_rows_are_canonical(b.id);
        if a.id.spec_bet_type() == b.id.spec_bet_type() {
            lemma_public_filter_distinct(i, j);
        }
    }
}

/// Two positions of the public rows hold distinct identifiers.
proof fn lemma_public_filter_distinct(i: int, j: int)
    requires
        0 <= i < j < spec_public_definitions().len(),
    ensures
        spec_public_definitions()[i].id != spec_public_definitions()[j].id,
{
    let pred = |d: BetDefinition| is_public_definition(d);
    lemma_filter_keeps_order(spec_bet_definitions(), pred, i, j);
}

/// Positions in a filtered registry prefix come from increasing registry
/// positions, so distinct positions of the public rows hold rows of
/// distinct registry positions.
proof fn lemma_filter_keeps_order(s: Seq<BetDefinition>, pred: spec_fn(BetDefinition) -> bool, i: int, j: int)
    requires
        s == spec_bet_definitions(),
        pred == (|d: BetDefinition| is_public_definition(d)),
        0 <= i < j < s.filter(pred).len(),
    ensures
        s.filter(pred)[i].id != s.filter(pred)[j].id,
{
    let n = s.len() as int;
    lemma_filter_positions(s, pred, n);
    assert(s.take(n) =~= s);
    let f = s.take(n).filter(pred);
    assert(f == s.filter(pred));
    assert(exists|p: int| 0 <= p < n && s[p] == f[i] && filter_index(s, pred, p) == i);
    assert(exists|p: int| 0 <= p < n && s[p] == f[j] && filter_index(s, pred, p) == j);
    let pi = choose|p: int| 0 <= p < n && s[p] == f[i] && filter_index(s, pred, p) == i;
    let pj = choose|p: int| 0 <= p < n && s[p] == f[j] && filter_index(s, pred, p) == j;
    assert(pi != pj);
    lemma_positions_of_rows(pi);
    lemma_positions_of_rows(pj);
}

/// How many rows before position `p` pass the filter.
pub open spec fn filter_index(s: Seq<BetDefinition>, pred: spec_fn(BetDefinition) -> bool, p: int) -> int {
    s.take(p).filter(pred).len() as int
}

proof fn lemma_filter_positions(s: Seq<BetDefinition>, pred: spec_fn(BetDefinition) -> bool, m: int)
    requires
        s == spec_bet_definitions(),
        0 <= m <= s.len(),
    ensures
        forall|i: int|
            0 <= i < s.take(m).filter(pred).len() ==> exists|p: int|
                0 <= p < m && s[p] == #[trigger] s.take(m).filter(pred)[i] && filter_index(s, pred, p) == i,
    decreases m,
{
    reveal(Seq::filter);
    if m > 0 {
        lemma_filter_positions(s, pred, m - 1);
        let t = s.take(m);
        assert(t.drop_last() =~= s.take(m - 1));
        assert forall|i: int| 0 <= i < t.filter(pred).len() implies exists|p: int|
            0 <= p < m && s[p] == #[trigger] t.filter(pred)[i] && filter_index(s, pred, p) == i by {
            if i < s.take(m - 1).filter(pred).len() {
                let p = choose|p: int|
                    0 <= p < m - 1 && s[p] == #[trigger] s.take(m - 1).filter(pred)[i] && filter_index(s, pred, p)
                        == i;
                assert(s.take(p) =~= s.take(p));
            } else {
                assert(s.take(m - 1) =~= s.take(m - 1));
                assert(filter_index(s, pred, m - 1) == i);
            }
        }
    }
    assert(s.take(s.len() as int) =~= s);
}

/// Public rows among the first `m` registry positions.
spec fn public_count_to(m: int) -> int {
    sum_to(|k: int| if BetId::spec_at(k).spec_is_public() { 1int } else { 0int }, m)
}

proof fn lemma_public_prefix_count(m: int)
    requires
        0 <= m <= 104,
    ensures
        spec_bet_definitions().take(m).filter(|d: BetDefinition| is_public_definition(d)).len() == public_count_to(m),
    decreases m,
{
    reveal(Seq::filter);
    if m > 0 {
        lemma_public_prefix_count(m - 1);
        let s = spec_bet_definitions();
        assert(s.take(m).drop_last() =~= s.take(m - 1));
    }
}

/// The registry has 54 public rows, one per bet type.
pub proof fn lemma_public_row_count()
    ensures
        spec_public_definitions().len() == 54,
{
    lemma_public_prefix_count(104);
    assert(spec_bet_definitions().take(104) =~= spec_bet_definitions());
    assert(public_count_to(0) == 0);
    assert(public_count_to(8) == 8) by {
        reveal_with_fuel(sum_to, 9);
    }
    assert(public_count_to(16) == 8) by {
        reveal_with_fuel(sum_to, 9);
    }
    assert(public_count_to(24) == 9) by {
        reveal_with_fuel(sum_to, 9);
    }
    assert(public_count_to(32) == 12) by {
        reveal_with_fuel(sum_to, 9);
    }
    assert(public_count_to(40) == 16) by {
        reveal_with_fuel(sum_to, 9);
    }
    assert(public_count_to(48) == 20) by {
        reveal_with_fuel(sum_to, 9);
    }
    assert(public_count_to(56) == 21) by {
        reveal_with_fuel(sum_to, 9);
    }
    assert(public_count_to(64) == 29) by {
        reveal_with_fuel(sum_to, 9);
    }
    assert(public_count_to(72) == 31) by {
        reveal_with_fuel(sum_to, 9);
    }
    assert(public_count_to(80) == 39) by {
        reveal_with_fuel(sum_to, 9);
    }
    assert(public_count_to(88) == 47) by {
        reveal_with_fuel(sum_to, 9);
    }
    assert(public_count_to(96) == 50) by {
        reveal_with_fuel(sum_to, 9);
    }
    assert(public_count_to(104) == 54) by {
        reveal_with_fuel(sum_to, 9);
    }
}

} // verus!
