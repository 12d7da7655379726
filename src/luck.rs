//! Luck categories, the score normalisation and the rank classifier.
use vstd::prelude::*;

verus! {

/// A qualitative bucket for a score in 0 ..= 100.
#[derive(Debug, Clone, Copy, PartialEq, Eq, Structural)]
pub enum Rank {
    Excellent,
    Good,
    Normal,
    Bad,
    Terrible,
}

/// The rank of a score: at least 90 Excellent, at least 70 Good, at least 40
/// Normal, at least 10 Bad, else Terrible.
pub open spec fn rank_of(score: nat) -> Rank {
    if score >= 90 {
        Rank::Excellent
    } else if score >= 70 {
        Rank::Good
    } else if score >= 40 {
        Rank::Normal
    } else if score >= 10 {
        Rank::Bad
    } else {
        Rank::Terrible
    }
}

/// The display name of a rank.
pub open spec fn rank_name(r: Rank) -> Seq<char> {
    match r {
        Rank::Excellent => "Excellent"@,
        Rank::Good => "Good"@,
        Rank::Normal => "Normal"@,
        Rank::Bad => "Bad"@,
        Rank::Terrible => "Terrible"@,
    }
}

impl Rank {
    pub fn from_score(score: u8) -> (r: Rank)
        ensures
            r == rank_of(score as nat),
    {
        if score >= 90 {
            Rank::Excellent
        } else if score >= 70 {
            Rank::Good
        } else if score >= 40 {
            Rank::Normal
        } else if score >= 10 {
            Rank::Bad
        } else {
            Rank::Terrible
        }
    }

    pub fn as_str(&self) -> (r: &'static str)
        ensures
            r@ == rank_name(*self),
    {
        match self {
            Rank::Excellent => "Excellent",
            Rank::Good => "Good",
            Rank::Normal => "Normal",
            Rank::Bad => "Bad",
            Rank::Terrible => "Terrible",
        }
    }
}

/// One of the sixteen luck categories.
#[derive(Debug, Clone, Copy, PartialEq, Eq, Structural)]
pub enum LuckType {
    Life,
    Health,
    Wealth,
    Career,
    Love,
    Marriage,
    Family,
    Friendship,
    Study,
    Challenge,
    Opportunity,
    Motivation,
    Debug,
    WiFi,
    Windfall,
    Chaos,
}

/// The stable index of a category: its display position and its bit in the
/// flag set.
pub open spec fn type_index(t: LuckType) -> nat {
    match t {
        LuckType::Life => 0,
        LuckType::Health => 1,
        LuckType::Wealth => 2,
        LuckType::Career => 3,
        LuckType::Love => 4,
        LuckType::Marriage => 5,
        LuckType::Family => 6,
        LuckType::Friendship => 7,
        LuckType::Study => 8,
        LuckType::Challenge => 9,
        LuckType::Opportunity => 10,
        LuckType::Motivation => 11,
        LuckType::Debug => 12,
        LuckType::WiFi => 13,
        LuckType::Windfall => 14,
        LuckType::Chaos => 15,
    }
}

/// The category whose index is `i < 16`.
pub open spec fn type_at(i: nat) -> LuckType {
    if i == 0 {
        LuckType::Life
    } else if i == 1 {
        LuckType::Health
    } else if i == 2 {
        LuckType::Wealth
    } else if i == 3 {
        LuckType::Career
    } else if i == 4 {
        LuckType::Love
    } else if i == 5 {
        LuckType::Marriage
    } else if i == 6 {
        LuckType::Family
    } else if i == 7 {
        LuckType::Friendship
    } else if i == 8 {
        LuckType::Study
    } else if i == 9 {
        LuckType::Challenge
    } else if i == 10 {
        LuckType::Opportunity
    } else if i == 11 {
        LuckType::Motivation
    } else if i == 12 {
        LuckType::Debug
    } else if i == 13 {
        LuckType::WiFi
    } else if i == 14 {
        LuckType::Windfall
    } else {
        LuckType::Chaos
    }
}

/// The category's short name, without the " Luck" suffix.
pub open spec fn short_name_of(t: LuckType) -> Seq<char> {
    match t {
        LuckType::Life => "Life"@,
        LuckType::Health => "Health"@,
        LuckType::Wealth => "Wealth"@,
        LuckType::Career => "Career"@,
        LuckType::Love => "Love"@,
        LuckType::Marriage => "Marriage"@,
        LuckType::Family => "Family"@,
        LuckType::Friendship => "Friendship"@,
        LuckType::Study => "Study"@,
        LuckType::Challenge => "Challenge"@,
        LuckType::Opportunity => "Opportunity"@,
        LuckType::Motivation => "Motivation"@,
        LuckType::Debug => "Debug"@,
        LuckType::WiFi => "WiFi"@,
        LuckType::Windfall => "Windfall"@,
        LuckType::Chaos => "Chaos"@,
    }
}

/// The category's display name: its short name followed by " Luck".
pub open spec fn name_of(t: LuckType) -> Seq<char> {
    match t {
        LuckType::Life => "Life Luck"@,
        LuckType::Health => "Health Luck"@,
        LuckType::Wealth => "Wealth Luck"@,
        LuckType::Career => "Career Luck"@,
        LuckType::Love => "Love Luck"@,
        LuckType::Marriage => "Marriage Luck"@,
        LuckType::Family => "Family Luck"@,
        LuckType::Friendship => "Friendship Luck"@,
        LuckType::Study => "Study Luck"@,
        LuckType::Challenge => "Challenge Luck"@,
        LuckType::Opportunity => "Opportunity Luck"@,
        LuckType::Motivation => "Motivation Luck"@,
        LuckType::Debug => "Debug Luck"@,
        LuckType::WiFi => "WiFi Luck"@,
        LuckType::Windfall => "Windfall Luck"@,
        LuckType::Chaos => "Chaos Luck"@,
    }
}

/// Every index below 16 names exactly one category, and back.
pub proof fn lemma_index_round_trip(t: LuckType, i: nat)
    requires
        i < 16,
    ensures
        type_index(t) < 16,
        type_at(type_index(t)) == t,
        type_index(type_at(i)) == i,
{
}

impl LuckType {
    /// All categories in index order.
    pub const ALL: [LuckType; 16] = [
        LuckType::Life,
        LuckType::Health,
        LuckType::Wealth,
        LuckType::Career,
        LuckType::Love,
        LuckType::Marriage,
        LuckType::Family,
        LuckType::Friendship,
        LuckType::Study,
        LuckType::Challenge,
        LuckType::Opportunity,
        LuckType::Motivation,
        LuckType::Debug,
        LuckType::WiFi,
        LuckType::Windfall,
        LuckType::Chaos,
    ];

    /// The category with index `i`.
    pub fn from_index(i: usize) -> (r: LuckType)
        requires
            i < 16,
        ensures
            r == type_at(i as nat),
    {
        match i {
            0 => LuckType::Life,
            1 => LuckType::Health,
            2 => LuckType::Wealth,
            3 => LuckType::Career,
            4 => LuckType::Love,
            5 => LuckType::Marriage,
            6 => LuckType::Family,
            7 => LuckType::Friendship,
            8 => LuckType::Study,
            9 => LuckType::Challenge,
            10 => LuckType::Opportunity,
            11 => LuckType::Motivation,
            12 => LuckType::Debug,
            13 => LuckType::WiFi,
            14 => LuckType::Windfall,
            _ => LuckType::Chaos,
        }
    }

    pub fn name(&self) -> (r: &'static str)
        ensures
            r@ == name_of(*self),
    {
        match self {
            LuckType::Life => "Life Luck",
            LuckType::Health => "Health Luck",
            LuckType::Wealth => "Wealth Luck",
            LuckType::Career => "Career Luck",
            LuckType::Love => "Love Luck",
            LuckType::Marriage => "Marriage Luck",
            LuckType::Family => "Family Luck",
            LuckType::Friendship => "Friendship Luck",
            LuckType::Study => "Study Luck",
            LuckType::Challenge => "Challenge Luck",
            LuckType::Opportunity => "Opportunity Luck",
            LuckType::Motivation => "Motivation Luck",
            LuckType::Debug => "Debug Luck",
            LuckType::WiFi => "WiFi Luck",
            LuckType::Windfall => "Windfall Luck",
            LuckType::Chaos => "Chaos Luck",
        }
    }

    /// The name without the " Luck" suffix.
    pub fn short_name(&self) -> (r: &'static str)
        ensures
            r@ == short_name_of(*self),
    {
        match self {
            LuckType::Life => "Life",
            LuckType::Health => "Health",
            LuckType::Wealth => "Wealth",
            LuckType::Career => "Career",
            LuckType::Love => "Love",
            LuckType::Marriage => "Marriage",
            LuckType::Family => "Family",
            LuckType::Friendship => "Friendship",
            LuckType::Study => "Study",
            LuckType::Challenge => "Challenge",
            LuckType::Opportunity => "Opportunity",
            LuckType::Motivation => "Motivation",
            LuckType::Debug => "Debug",
            LuckType::WiFi => "WiFi",
            LuckType::Windfall => "Windfall",
            LuckType::Chaos => "Chaos",
        }
    }

    pub fn index(&self) -> (r: usize)
        ensures
            r == type_index(*self),
            r < 16,
    {
        match self {
            LuckType::Life => 0,
            LuckType::Health => 1,
            LuckType::Wealth => 2,
            LuckType::Career => 3,
            LuckType::Love => 4,
            LuckType::Marriage => 5,
            LuckType::Family => 6,
            LuckType::Friendship => 7,
            LuckType::Study => 8,
            LuckType::Challenge => 9,
            LuckType::Opportunity => 10,
            LuckType::Motivation => 11,
            LuckType::Debug => 12,
            LuckType::WiFi => 13,
            LuckType::Windfall => 14,
            LuckType::Chaos => 15,
        }
    }
}

/// The normalised score of a raw byte: `raw * 100 / 255`, truncated.
pub open spec fn normalized(raw: nat) -> nat {
    raw * 100 / 255
}

/// Every raw byte normalises to a score in 0 ..= 100, and its rank is the
/// rank of that score.
pub proof fn lemma_normalized_range(raw: u8)
    ensures
        normalized(raw as nat) <= 100,
        score_record(LuckType::Life, raw as nat, true).score as nat == normalized(raw as nat),
{
    assert(raw as nat * 100 <= 25500);
}

/// Whether bit `i` (from the least significant end) of `flags` is set.
pub open spec fn flag_set(flags: u64, i: nat) -> bool {
    (flags >> (i as u64)) & 1u64 == 1u64
}

/// One category's score record.
#[derive(Debug, Clone, Copy, PartialEq, Eq, Structural)]
pub struct LuckScore {
    pub luck_type: LuckType,
    pub raw_value: u8,
    pub score: u8,
    pub rank: Rank,
    pub active: bool,
}

/// The record that a category, a raw byte and an activity flag determine.
pub open spec fn score_record(luck_type: LuckType, raw: nat, active: bool) -> LuckScore {
    LuckScore {
        luck_type,
        raw_value: raw as u8,
        score: normalized(raw) as u8,
        rank: rank_of(normalized(raw)),
        active,
    }
}

impl LuckScore {
    pub fn new(luck_type: LuckType, raw_value: u8, active: bool) -> (r: LuckScore)
        ensures
            r == score_record(luck_type, raw_value as nat, active),
            r.score <= 100,
    {
        let score = ((raw_value as u32) * 100 / 255) as u8;
        let rank = Rank::from_score(score);
        LuckScore { luck_type, raw_value, score, rank, active }
    }
}

/// The sixteen records, in category order: record `i` has category `i`, raw
/// byte `scores[i]`, and is active exactly when bit `i` of `flags` is set.
pub fn calculate_luck_scores(scores: &[u8; 16], flags: u64) -> (r: Vec<LuckScore>)
    ensures
        r@.len() == 16,
        forall|i: int|
            0 <= i < 16 ==> #[trigger] r@[i] == score_record(
                type_at(i as nat),
                scores[i] as nat,
                flag_set(flags, i as nat),
            ),
{
    let mut out: Vec<LuckScore> = Vec::new();
    let mut i: usize = 0;
    while i < 16
        invariant
            i <= 16,
            out@.len() == i,
            forall|j: int|
                0 <= j < i ==> #[trigger] out@[j] == score_record(
                    type_at(j as nat),
                    scores[j] as nat,
                    flag_set(flags, j as nat),
                ),
        decreases 16 - i,
    {
        let active = (flags >> (i as u64)) & 1 == 1;
        out.push(LuckScore::new(LuckType::from_index(i), scores[i], active));
        i = i + 1;
    }
    out
}

} // verus!
