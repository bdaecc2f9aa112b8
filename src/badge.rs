use vstd::prelude::*;

verus! {

/// Milestones for which a tipper can earn a badge.
#[derive(Clone, Copy, Debug, PartialEq, Eq, Structural)]
pub enum BadgeType {
    FirstTip,
    TenTips,
    HundredTips,
    WhaleTipper,
    EarlySupporter,
    GenreSupporter,
}

/// What is counted of a tipper to decide which badges it has earned.
#[derive(Clone, Copy, Debug, PartialEq, Eq, Structural)]
pub struct UserStats {
    pub tip_count: u64,
    pub total_amount: i128,
    /// Timestamp of the first tip; 0 before any tip.
    pub first_tip_time: u64,
    pub genre_tips: u64,
}

/// Badge rules: the total that makes a whale, and the last timestamp at which a first tip
/// still counts as early.
#[derive(Clone, Copy, Debug, PartialEq, Eq, Structural)]
pub struct TipNftBadgeContract {
    pub whale_threshold: i128,
    pub early_adopter_cutoff: u64,
}

/// The position of `badge_type` in the declaration of `BadgeType`.
pub open spec fn ordinal(badge_type: BadgeType) -> u32 {
    match badge_type {
        BadgeType::FirstTip => 0,
        BadgeType::TenTips => 1,
        BadgeType::HundredTips => 2,
        BadgeType::WhaleTipper => 3,
        BadgeType::EarlySupporter => 4,
        BadgeType::GenreSupporter => 5,
    }
}

/// The statistics of a tipper that has never tipped.
pub open spec fn no_tips() -> UserStats {
    UserStats { tip_count: 0, total_amount: 0, first_tip_time: 0, genre_tips: 0 }
}

impl TipNftBadgeContract {
    /// Whether `stats` earn the badge `badge_type` under these rules.
    pub open spec fn earns(self, stats: UserStats, badge_type: BadgeType) -> bool {
        match badge_type {
            BadgeType::FirstTip => stats.tip_count >= 1,
            BadgeType::TenTips => stats.tip_count >= 10,
            BadgeType::HundredTips => stats.tip_count >= 100,
            BadgeType::WhaleTipper => stats.total_amount >= self.whale_threshold,
            BadgeType::EarlySupporter => stats.first_tip_time > 0 && stats.first_tip_time
                <= self.early_adopter_cutoff,
            BadgeType::GenreSupporter => stats.genre_tips >= 5,
        }
    }

    /// The ordinal under which a minted badge of `badge_type` is recorded.
    pub fn badge_type_ordinal(badge_type: &BadgeType) -> (r: u32)
        ensures
            r == ordinal(*badge_type),
            r <= 5,
    {
        match badge_type {
            BadgeType::FirstTip => 0,
            BadgeType::TenTips => 1,
            BadgeType::HundredTips => 2,
            BadgeType::WhaleTipper => 3,
            BadgeType::EarlySupporter => 4,
            BadgeType::GenreSupporter => 5,
        }
    }

    /// The statistics of a tipper that has never tipped.
    pub fn empty_stats() -> (r: UserStats)
        ensures
            r == no_tips(),
    {
        UserStats { tip_count: 0, total_amount: 0, first_tip_time: 0, genre_tips: 0 }
    }

    /// Counts a tip of `amount` made at `timestamp`; the first tip fixes `first_tip_time`.
    pub fn record_tip(stats: &mut UserStats, amount: i128, is_genre_tip: bool, timestamp: u64)
        requires
            old(stats).tip_count < u64::MAX,
            i128::MIN <= old(stats).total_amount + amount <= i128::MAX,
            is_genre_tip ==> old(stats).genre_tips < u64::MAX,
        ensures
            final(stats).tip_count == old(stats).tip_count + 1,
            final(stats).total_amount == old(stats).total_amount + amount,
            final(stats).first_tip_time == if old(stats).first_tip_time == 0 {
                timestamp
            } else {
                old(stats).first_tip_time
            },
            final(stats).genre_tips == old(stats).genre_tips + if is_genre_tip {
                1int
            } else {
                0
            },
    {
        stats.tip_count = stats.tip_count + 1;
        stats.total_amount = stats.total_amount + amount;
        if stats.first_tip_time == 0 {
            stats.first_tip_time = timestamp;
        }
        if is_genre_tip {
            stats.genre_tips = stats.genre_tips + 1;
        }
    }

    /// Whether `stats` earn the badge `badge_type`; a badge already minted is checked
    /// by the caller.
    pub fn check_badge_eligibility(&self, stats: &UserStats, badge_type: BadgeType) -> (r: bool)
        ensures
            r == self.earns(*stats, badge_type),
    {
        match badge_type {
            BadgeType::FirstTip => stats.tip_count >= 1,
            BadgeType::TenTips => stats.tip_count >= 10,
            BadgeType::HundredTips => stats.tip_count >= 100,
            BadgeType::WhaleTipper => stats.total_amount >= self.whale_threshold,
            BadgeType::EarlySupporter => stats.first_tip_time > 0 && stats.first_tip_time
                <= self.early_adopter_cutoff,
            BadgeType::GenreSupporter => stats.genre_tips >= 5,
        }
    }
}

} // verus!
