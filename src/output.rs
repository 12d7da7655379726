//! The assembled fortune slip and its text rendering.
use vstd::prelude::*;
use crate::art::{bar_art, bar_art_text};
use crate::hash::{
    bits_value, hex_text, lucky_day_of, lucky_hour_of, lucky_minute_of, score_byte_of, HashBits,
};
use crate::luck::{
    calculate_luck_scores, flag_set, name_of, rank_name, score_record, short_name_of, type_at,
    LuckScore, LuckType,
};
use crate::text::{
    binary, decimal, push_binary, push_char, push_decimal, push_str, push_upper_hex,
    push_zero_padded, upper_hex, zero_padded,
};

verus! {

/// The calendar date `offset` days after January 1st of `year`, written as
/// `%Y-%m-%d`.
pub uninterp spec fn iso_date_of(year: nat, offset: nat) -> Seq<char>;

/// Relies on `chrono::NaiveDate::from_ymd_opt`, `NaiveDate + TimeDelta` and
/// `NaiveDate::format("%Y-%m-%d")`: the date `offset` days after January 1st
/// of `year`. The bounds keep every date within chrono's range (its last
/// year is 262142), so neither the construction nor the addition fails.
#[verifier::external_body]
fn calendar_date(year: u32, offset: u16) -> (r: String)
    requires
        year <= 262142,
        offset <= 364,
    ensures
        r@ == iso_date_of(year as nat, offset as nat),
{
    let start = chrono::NaiveDate::from_ymd_opt(year as i32, 1, 1).unwrap();
    let date = start + chrono::TimeDelta::days(offset as i64);
    date.format("%Y-%m-%d").to_string()
}

/// `0x` and two uppercase hexadecimal digits.
pub open spec fn hex_byte_text(v: nat) -> Seq<char> {
    "0x"@ + upper_hex(v, 2)
}

/// `#RRGGBB` from the lucky hex byte, the lucky number, and their sum
/// (wrapping at 256) halved.
pub open spec fn color_text(hex: nat, number: nat) -> Seq<char> {
    "#"@ + upper_hex(hex, 2) + upper_hex(number, 2) + upper_hex(((hex + number) % 256) / 2, 2)
}

/// The 16 bits of `v` as four space-separated groups of four binary digits.
pub open spec fn bit_quad_text(v: nat) -> Seq<char> {
    binary(v / 4096, 4) + " "@ + binary(v / 256, 4) + " "@ + binary(v / 16, 4) + " "@ + binary(v, 4)
}

/// The lucky day: its date, then `(n / 365)`.
pub open spec fn day_text(year: nat, day: nat) -> Seq<char> {
    iso_date_of(year, (day - 1) as nat) + " ("@ + decimal(day) + " / 365)"@
}

/// `HH:MM`, both zero-padded to two digits.
pub open spec fn time_text(hour: nat, minute: nat) -> Seq<char> {
    zero_padded(hour, 2) + ":"@ + zero_padded(minute, 2)
}

/// `0x` and three uppercase hexadecimal digits.
pub open spec fn entropy_text(v: nat) -> Seq<char> {
    "0x"@ + upper_hex(v, 3)
}

/// The first record of category `t`, if any.
pub open spec fn find_type(s: Seq<LuckScore>, t: LuckType) -> Option<LuckScore>
    decreases s.len(),
{
    if s.len() == 0 {
        None
    } else if s[0].luck_type == t {
        Some(s[0])
    } else {
        find_type(s.drop_first(), t)
    }
}

/// One entry of the flag line: a check or a cross, then the short name.
pub open spec fn flag_item(s: Seq<LuckScore>, k: nat) -> Seq<char> {
    let mark = if find_type(s, type_at(k)).unwrap().active {
        "\u{2714}"@
    } else {
        "\u{2716}"@
    };
    mark + " "@ + short_name_of(type_at(k))
}

/// The entries of the first `n` categories, separated by two spaces.
pub open spec fn flag_line(s: Seq<LuckScore>, n: nat) -> Seq<char>
    decreases n,
{
    if n == 0 {
        Seq::empty()
    } else if n == 1 {
        flag_item(s, 0)
    } else {
        flag_line(s, (n - 1) as nat) + "  "@ + flag_item(s, (n - 1) as nat)
    }
}

/// The active records whose score is `v`, in their order in `s`.
pub open spec fn active_with_score(s: Seq<LuckScore>, v: nat) -> Seq<LuckScore>
    decreases s.len(),
{
    if s.len() == 0 {
        Seq::empty()
    } else {
        let rest = active_with_score(s.drop_last(), v);
        if s.last().active && s.last().score == v {
            rest.push(s.last())
        } else {
            rest
        }
    }
}

/// The active records with a score of at least `lo`, highest score first and
/// equal scores in their order in `s`.
pub open spec fn ranked_from(s: Seq<LuckScore>, lo: nat) -> Seq<LuckScore>
    decreases 256 - lo,
{
    if lo >= 256 {
        Seq::empty()
    } else {
        ranked_from(s, lo + 1) + active_with_score(s, lo)
    }
}

proof fn lemma_active_with_score(s: Seq<LuckScore>, v: nat)
    ensures
        forall|k: int|
            0 <= k < active_with_score(s, v).len() ==> (#[trigger] active_with_score(s, v)[k]).active
                && active_with_score(s, v)[k].score == v,
    decreases s.len(),
{
    if s.len() > 0 {
        lemma_active_with_score(s.drop_last(), v);
    }
}

/// The ranked records are active, have a score of at least `lo`, and run from
/// the highest score to the lowest.
pub proof fn lemma_ranked_sorted(s: Seq<LuckScore>, lo: nat)
    ensures
        forall|k: int|
            0 <= k < ranked_from(s, lo).len() ==> (#[trigger] ranked_from(s, lo)[k]).active
                && ranked_from(s, lo)[k].score >= lo,
        forall|i: int, j: int|
            0 <= i < j < ranked_from(s, lo).len() ==> (#[trigger] ranked_from(s, lo)[i]).score
                >= (#[trigger] ranked_from(s, lo)[j]).score,
    decreases 256 - lo,
{
    if lo < 256 {
        lemma_ranked_sorted(s, lo + 1);
        lemma_active_with_score(s, lo);
        let hi = ranked_from(s, lo + 1);
        let here = active_with_score(s, lo);
        let r = ranked_from(s, lo);
        assert(r == hi + here);
        assert forall|k: int| 0 <= k < r.len() implies (#[trigger] r[k]).active && r[k].score >= lo by {
            if k < hi.len() {
                assert(r[k] == hi[k]);
            } else {
                assert(r[k] == here[k - hi.len()]);
            }
        }
        assert forall|i: int, j: int| 0 <= i < j < r.len() implies (#[trigger] r[i]).score
            >= (#[trigger] r[j]).score by {
            if j < hi.len() {
                assert(r[i] == hi[i] && r[j] == hi[j]);
            } else if i < hi.len() {
                assert(r[i] == hi[i] && r[j] == here[j - hi.len()]);
            } else {
                assert(r[i] == here[i - hi.len()] && r[j] == here[j - hi.len()]);
            }
        }
    }
}

/// `t` followed by spaces up to `w` characters.
pub open spec fn pad_right(t: Seq<char>, w: nat) -> Seq<char> {
    if t.len() >= w {
        t
    } else {
        t + Seq::new((w - t.len()) as nat, |i: int| ' ')
    }
}

/// `t` preceded by spaces up to `w` characters.
pub open spec fn pad_left(t: Seq<char>, w: nat) -> Seq<char> {
    if t.len() >= w {
        t
    } else {
        Seq::new((w - t.len()) as nat, |i: int| ' ') + t
    }
}

/// One line of the score table: name, score and rank.
pub open spec fn score_line(x: LuckScore) -> Seq<char> {
    pad_right(name_of(x.luck_type), 18) + ": "@ + pad_left(decimal(x.score as nat), 3) + " ("@
        + rank_name(x.rank) + ")\n"@
}

/// The score lines of `items`, in order.
pub open spec fn score_lines(items: Seq<LuckScore>) -> Seq<char>
    decreases items.len(),
{
    if items.len() == 0 {
        Seq::empty()
    } else {
        score_lines(items.drop_last()) + score_line(items.last())
    }
}

/// The header and the single-valued fields.
pub open spec fn fields_text(r: OmikujiResult) -> Seq<char> {
    "\u{1F38D} SHA-Omikuji "@ + decimal(r.year as nat) + " \u{1F38D}\n\n"@
        + "Lucky Number      : "@ + decimal(r.lucky_number as nat) + "\n"@
        + "Lucky Hex         : "@ + r.lucky_hex@ + "\n"@
        + "Lucky Color       : "@ + r.lucky_color@ + "\n"@
        + "Lucky Bits        : "@ + r.lucky_bits@ + "\n"@ + "\n"@
        + "Lucky Day         : "@ + r.lucky_day@ + "\n"@
        + "Lucky Time        : "@ + r.lucky_time@ + "\n"@ + "\n"@
}

/// The flag block: the first five categories in short mode, else all.
pub open spec fn flags_text(r: OmikujiResult, short: bool) -> Seq<char> {
    "Active Luck Flags :\n"@ + flag_line(r.luck_scores@, if short { 5 } else { 16 }) + "\n\n"@
}

/// The score block: the active records ranked by score, at most five in short
/// mode.
pub open spec fn scores_text(r: OmikujiResult, short: bool) -> Seq<char> {
    let ranked = ranked_from(r.luck_scores@, 0);
    let count = if short && ranked.len() > 5 { 5 } else { ranked.len() };
    "Luck Scores :\n"@ + score_lines(ranked.take(count as int)) + "\n"@
}

/// The entropy check, the art, and on request the seed and fingerprint.
pub open spec fn tail_text(r: OmikujiResult, show_seed: bool) -> Seq<char> {
    let base = "Entropy Check     : OK ("@ + r.entropy_check@ + ")\n"@ + "\n[ Omikuji Art ]\n"@
        + r.omikuji_art@ + "\n"@;
    if show_seed {
        base + "\nSeed              : "@ + r.seed@ + "\n"@ + "Fingerprint       : "@
            + r.fingerprint@ + "\n"@
    } else {
        base
    }
}

/// The complete text rendering of a slip.
pub open spec fn report_text(r: OmikujiResult, short: bool, show_seed: bool) -> Seq<char> {
    fields_text(r) + flags_text(r, short) + scores_text(r, short) + tail_text(r, show_seed)
}

/// Whether each of the first `n` categories has a record.
pub open spec fn covers_types(s: Seq<LuckScore>, n: nat) -> bool {
    forall|k: nat| k < n ==> (#[trigger] find_type(s, type_at(k))) is Some
}

/// A record of category `t` at any position makes the search succeed.
proof fn lemma_find_type_some(s: Seq<LuckScore>, t: LuckType, j: int)
    requires
        0 <= j < s.len(),
        s[j].luck_type == t,
    ensures
        find_type(s, t) is Some,
    decreases s.len(),
{
    if s[0].luck_type != t {
        lemma_find_type_some(s.drop_first(), t, j - 1);
    }
}

fn find_record(s: &Vec<LuckScore>, t: LuckType) -> (r: Option<LuckScore>)
    ensures
        r == find_type(s@, t),
{
    let mut j: usize = 0;
    assert(s@.subrange(0, s@.len() as int) =~= s@);
    while j < s.len()
        invariant
            j <= s@.len(),
            find_type(s@, t) == find_type(s@.subrange(j as int, s@.len() as int), t),
        decreases s@.len() - j,
    {
        let x = s[j];
        proof {
            let rest = s@.subrange(j as int, s@.len() as int);
            assert(rest[0] == x);
            assert(rest.drop_first() =~= s@.subrange(j + 1, s@.len() as int));
        }
        if x.luck_type == t {
            return Some(x);
        }
        j = j + 1;
    }
    proof {
        assert(s@.subrange(j as int, s@.len() as int).len() == 0);
    }
    None
}

fn push_padded_right(out: &mut String, t: &str, w: usize)
    ensures
        final(out)@ == old(out)@ + pad_right(t@, w as nat),
{
    push_str(out, t);
    let ghost mid = out@;
    let mut n = t.unicode_len();
    while n < w
        invariant
            t@.len() <= n <= w || (w < t@.len() && n == t@.len()),
            out@ == mid + Seq::new((n - t@.len()) as nat, |i: int| ' '),
        decreases w - n,
    {
        push_char(out, ' ');
        n = n + 1;
        assert(out@ =~= mid + Seq::new((n - t@.len()) as nat, |i: int| ' '));
    }
    assert(out@ =~= old(out)@ + pad_right(t@, w as nat));
}

fn push_flag_line(out: &mut String, s: &Vec<LuckScore>, n: usize)
    requires
        n <= 16,
        covers_types(s@, n as nat),
    ensures
        final(out)@ == old(out)@ + flag_line(s@, n as nat),
{
    let ghost start = out@;
    let mut k: usize = 0;
    while k < n
        invariant
            k <= n <= 16,
            covers_types(s@, n as nat),
            out@ == start + flag_line(s@, k as nat),
        decreases n - k,
    {
        let lt = LuckType::from_index(k);
        let found = find_record(s, lt);
        assert(find_type(s@, type_at(k as nat)) is Some);
        let rec = found.unwrap();
        if k > 0 {
            push_str(out, "  ");
        }
        if rec.active {
            push_str(out, "\u{2714}");
        } else {
            push_str(out, "\u{2716}");
        }
        push_str(out, " ");
        push_str(out, lt.short_name());
        k = k + 1;
        assert(out@ =~= start + flag_line(s@, k as nat));
    }
}

fn active_in_score_order(s: &Vec<LuckScore>) -> (r: Vec<LuckScore>)
    ensures
        r@ == ranked_from(s@, 0),
{
    let mut acc: Vec<LuckScore> = Vec::new();
    let mut lo: u32 = 256;
    while lo > 0
        invariant
            lo <= 256,
            acc@ == ranked_from(s@, lo as nat),
        decreases lo,
    {
        lo = lo - 1;
        let ghost prefix = acc@;
        let mut j: usize = 0;
        while j < s.len()
            invariant
                lo < 256,
                j <= s@.len(),
                prefix == ranked_from(s@, (lo + 1) as nat),
                acc@ == prefix + active_with_score(s@.subrange(0, j as int), lo as nat),
            decreases s@.len() - j,
        {
            let x = s[j];
            if x.active && x.score as u32 == lo {
                acc.push(x);
            }
            j = j + 1;
            proof {
                let sub = s@.subrange(0, j as int);
                assert(sub.drop_last() =~= s@.subrange(0, j - 1));
                assert(sub.last() == x);
                assert(acc@ =~= prefix + active_with_score(sub, lo as nat));
            }
        }
        assert(s@.subrange(0, s@.len() as int) =~= s@);
    }
    acc
}

fn push_padded_left(out: &mut String, t: &str, w: usize)
    ensures
        final(out)@ == old(out)@ + pad_left(t@, w as nat),
{
    let ghost start = out@;
    let mut n = t.unicode_len();
    while n < w
        invariant
            t@.len() <= n <= w || (w < t@.len() && n == t@.len()),
            out@ == start + Seq::new((n - t@.len()) as nat, |i: int| ' '),
        decreases w - n,
    {
        push_char(out, ' ');
        n = n + 1;
        assert(out@ =~= start + Seq::new((n - t@.len()) as nat, |i: int| ' '));
    }
    push_str(out, t);
    assert(out@ =~= start + pad_left(t@, w as nat));
}

fn push_score_line(out: &mut String, x: LuckScore)
    ensures
        final(out)@ == old(out)@ + score_line(x),
{
    push_padded_right(out, x.luck_type.name(), 18);
    push_str(out, ": ");
    let mut num = String::new();
    push_decimal(&mut num, x.score as u32);
    push_padded_left(out, num.as_str(), 3);
    push_str(out, " (");
    push_str(out, x.rank.as_str());
    push_str(out, ")\n");
    assert(final(out)@ =~= old(out)@ + score_line(x));
}

fn push_score_lines(out: &mut String, items: &Vec<LuckScore>, count: usize)
    requires
        count <= items@.len(),
    ensures
        final(out)@ == old(out)@ + score_lines(items@.take(count as int)),
{
    let ghost start = out@;
    let mut k: usize = 0;
    assert(items@.take(0) =~= Seq::<LuckScore>::empty());
    while k < count
        invariant
            k <= count <= items@.len(),
            out@ == start + score_lines(items@.take(k as int)),
        decreases count - k,
    {
        let x = items[k];
        push_score_line(out, x);
        k = k + 1;
        proof {
            let t = items@.take(k as int);
            assert(t.drop_last() =~= items@.take(k - 1));
            assert(t.last() == x);
            assert(out@ =~= start + score_lines(t));
        }
    }
}

/// Every decoded and derived field of one slip.
pub struct OmikujiResult {
    pub year: u32,
    pub seed: String,
    pub lucky_number: u8,
    pub lucky_hex: String,
    pub lucky_color: String,
    pub lucky_bits: String,
    pub lucky_day: String,
    pub lucky_day_number: u16,
    pub lucky_time: String,
    pub luck_scores: Vec<LuckScore>,
    pub entropy_check: String,
    pub fingerprint: String,
    pub omikuji_art: String,
}

fn push_hex_byte(s: &mut String, v: u8)
    ensures
        final(s)@ == old(s)@ + upper_hex(v as nat, 2),
{
    push_upper_hex(s, v as u32, 2);
}

/// Renders `v` as `0xXX`.
pub fn format_hex_byte(v: u8) -> (r: String)
    ensures
        r@ == hex_byte_text(v as nat),
{
    let mut out = String::new();
    push_str(&mut out, "0x");
    push_hex_byte(&mut out, v);
    assert(out@ =~= hex_byte_text(v as nat));
    out
}

/// Renders the lucky color `#RRGGBB`.
pub fn format_color(hex: u8, number: u8) -> (r: String)
    ensures
        r@ == color_text(hex as nat, number as nat),
{
    let mut out = String::new();
    push_str(&mut out, "#");
    push_hex_byte(&mut out, hex);
    push_hex_byte(&mut out, number);
    push_hex_byte(&mut out, hex.wrapping_add(number) / 2);
    assert(out@ =~= color_text(hex as nat, number as nat));
    out
}

/// Renders 16 bits as four groups of four binary digits.
pub fn format_bit_quad(v: u16) -> (r: String)
    ensures
        r@ == bit_quad_text(v as nat),
{
    let mut out = String::new();
    let v = v as u32;
    push_binary(&mut out, v / 4096, 4);
    push_str(&mut out, " ");
    push_binary(&mut out, v / 256, 4);
    push_str(&mut out, " ");
    push_binary(&mut out, v / 16, 4);
    push_str(&mut out, " ");
    push_binary(&mut out, v, 4);
    assert(out@ =~= bit_quad_text(v as nat));
    out
}

/// Renders the lucky day as its date followed by `(n / 365)`.
pub fn format_day(year: u32, day: u16) -> (r: String)
    requires
        year <= 262142,
        1 <= day <= 365,
    ensures
        r@ == day_text(year as nat, day as nat),
{
    let mut out = calendar_date(year, day - 1);
    push_str(&mut out, " (");
    push_decimal(&mut out, day as u32);
    push_str(&mut out, " / 365)");
    assert(out@ =~= day_text(year as nat, day as nat));
    out
}

/// Renders `HH:MM`.
pub fn format_time(hour: u8, minute: u8) -> (r: String)
    ensures
        r@ == time_text(hour as nat, minute as nat),
{
    let mut out = String::new();
    push_zero_padded(&mut out, hour as u32, 2);
    push_str(&mut out, ":");
    push_zero_padded(&mut out, minute as u32, 2);
    assert(out@ =~= time_text(hour as nat, minute as nat));
    out
}

/// Renders the entropy check as `0x` and three hexadecimal digits.
pub fn format_entropy(v: u16) -> (r: String)
    ensures
        r@ == entropy_text(v as nat),
{
    let mut out = String::new();
    push_str(&mut out, "0x");
    push_upper_hex(&mut out, v as u32, 3);
    assert(out@ =~= entropy_text(v as nat));
    out
}

impl OmikujiResult {
    /// Decodes every field of `hash` and renders it in its display format.
    pub fn from_hash(hash: &HashBits, year: u32, seed: &str) -> (r: OmikujiResult)
        requires
            year <= 262142,
        ensures
            r.year == year,
            r.seed@ == seed@,
            r.lucky_number == bits_value(hash@, 0, 8),
            r.lucky_hex@ == hex_byte_text(bits_value(hash@, 8, 8)),
            r.lucky_color@ == color_text(bits_value(hash@, 8, 8), bits_value(hash@, 0, 8)),
            r.lucky_bits@ == bit_quad_text(bits_value(hash@, 16, 16)),
            r.lucky_day@ == day_text(year as nat, lucky_day_of(hash@)),
            r.lucky_day_number == lucky_day_of(hash@),
            r.lucky_time@ == time_text(lucky_hour_of(hash@), lucky_minute_of(hash@)),
            r.luck_scores@.len() == 16,
            forall|i: int|
                0 <= i < 16 ==> #[trigger] r.luck_scores@[i] == score_record(
                    type_at(i as nat),
                    score_byte_of(hash@, i as nat),
                    flag_set(bits_value(hash@, 52, 64) as u64, i as nat),
                ),
            r.entropy_check@ == entropy_text(bits_value(hash@, 244, 12)),
            r.fingerprint@ == hex_text(hash@),
            r.omikuji_art@ == bar_art_text(hash@),
            covers_types(r.luck_scores@, 16),
    {
        let lucky_number = hash.lucky_number();
        let lucky_hex_val = hash.lucky_hex();
        let lucky_bits_val = hash.lucky_bits();
        let lucky_day_num = hash.lucky_day();
        let lucky_hour = hash.lucky_hour();
        let lucky_minute = hash.lucky_minute();
        let flags = hash.luck_flags();
        let scores = hash.luck_scores();
        let entropy = hash.entropy_check();

        let lucky_hex = format_hex_byte(lucky_hex_val);
        let lucky_color = format_color(lucky_hex_val, lucky_number);
        let lucky_bits = format_bit_quad(lucky_bits_val);
        let lucky_day = format_day(year, lucky_day_num);
        let lucky_time = format_time(lucky_hour, lucky_minute);
        let luck_scores = calculate_luck_scores(&scores, flags);
        let entropy_check = format_entropy(entropy);
        let fingerprint = hash.hex_string();
        let omikuji_art = bar_art(hash.raw_bytes());
        let mut seed_text = String::new();
        push_str(&mut seed_text, seed);
        assert(seed_text@ =~= seed@);
        proof {
            assert forall|k: nat| k < 16 implies (#[trigger] find_type(
                luck_scores@,
                type_at(k),
            )) is Some by {
                lemma_find_type_some(luck_scores@, type_at(k), k as int);
            }
        }

        OmikujiResult {
            year,
            seed: seed_text,
            lucky_number,
            lucky_hex,
            lucky_color,
            lucky_bits,
            lucky_day,
            lucky_day_number: lucky_day_num,
            lucky_time,
            luck_scores,
            entropy_check,
            fingerprint,
            omikuji_art,
        }
    }

    fn push_fields(&self, out: &mut String)
        ensures
            final(out)@ == old(out)@ + fields_text(*self),
    {
        push_str(out, "\u{1F38D} SHA-Omikuji ");
        push_decimal(out, self.year);
        push_str(out, " \u{1F38D}\n\n");
        push_str(out, "Lucky Number      : ");
        push_decimal(out, self.lucky_number as u32);
        push_str(out, "\n");
        push_str(out, "Lucky Hex         : ");
        push_str(out, self.lucky_hex.as_str());
        push_str(out, "\n");
        push_str(out, "Lucky Color       : ");
        push_str(out, self.lucky_color.as_str());
        push_str(out, "\n");
        push_str(out, "Lucky Bits        : ");
        push_str(out, self.lucky_bits.as_str());
        push_str(out, "\n");
        push_str(out, "\n");
        push_str(out, "Lucky Day         : ");
        push_str(out, self.lucky_day.as_str());
        push_str(out, "\n");
        push_str(out, "Lucky Time        : ");
        push_str(out, self.lucky_time.as_str());
        push_str(out, "\n");
        push_str(out, "\n");
        assert(final(out)@ =~= old(out)@ + fields_text(*self));
    }

    fn push_tail(&self, out: &mut String, show_seed: bool)
        ensures
            final(out)@ == old(out)@ + tail_text(*self, show_seed),
    {
        push_str(out, "Entropy Check     : OK (");
        push_str(out, self.entropy_check.as_str());
        push_str(out, ")\n");
        push_str(out, "\n[ Omikuji Art ]\n");
        push_str(out, self.omikuji_art.as_str());
        push_str(out, "\n");
        if show_seed {
            push_str(out, "\nSeed              : ");
            push_str(out, self.seed.as_str());
            push_str(out, "\n");
            push_str(out, "Fingerprint       : ");
            push_str(out, self.fingerprint.as_str());
            push_str(out, "\n");
        }
        assert(final(out)@ =~= old(out)@ + tail_text(*self, show_seed));
    }

    /// Renders the slip as text: the fields, the flag line (five categories in
    /// short mode), the active scores from highest to lowest (at most five in
    /// short mode), the entropy check and the art, and on request the seed
    /// and the fingerprint. Each category shown in the flag line must have a
    /// record.
    pub fn format_text(&self, short: bool, show_seed: bool) -> (r: String)
        requires
            covers_types(self.luck_scores@, if short { 5 } else { 16 }),
        ensures
            r@ == report_text(*self, short, show_seed),
    {
        let mut output = String::new();
        self.push_fields(&mut output);
        let ghost after_fields = output@;

        push_str(&mut output, "Active Luck Flags :\n");
        let shown: usize = if short { 5 } else { 16 };
        push_flag_line(&mut output, &self.luck_scores, shown);
        push_str(&mut output, "\n\n");
        assert(output@ =~= after_fields + flags_text(*self, short));
        let ghost after_flags = output@;

        push_str(&mut output, "Luck Scores :\n");
        let ranked = active_in_score_order(&self.luck_scores);
        let count: usize = if short && ranked.len() > 5 { 5 } else { ranked.len() };
        push_score_lines(&mut output, &ranked, count);
        push_str(&mut output, "\n");
        assert(output@ =~= after_flags + scores_text(*self, short));

        self.push_tail(&mut output, show_seed);
        assert(output@ =~= report_text(*self, short, show_seed));
        output
    }
}

} // verus!
