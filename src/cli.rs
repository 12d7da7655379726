//! Run options and the rule that gates a run to January 1st.
use vstd::prelude::*;
use crate::text::{push_char, push_str};

verus! {

/// The options of one run.
pub struct Args {
    /// Target year.
    pub year: u32,
    /// Custom seed; the default is `user@host`.
    pub seed: Option<String>,
    /// Render as JSON.
    pub json: bool,
    /// Show only the first five flags and the top five scores.
    pub short: bool,
    /// Show the seed and the fingerprint.
    pub show_seed: bool,
    /// Run even when it is not January 1st.
    pub force: bool,
    /// A date `YYYY-MM-DD` that stands for today.
    pub date: Option<String>,
}

/// The default seed: the user name (`anonymous` when there is none), `'@'`,
/// and the host name.
pub open spec fn default_seed_text(user: Option<Seq<char>>, host: Seq<char>) -> Seq<char> {
    match user {
        Some(u) => u + seq!['@'] + host,
        None => "anonymous"@ + seq!['@'] + host,
    }
}

/// The first index at or after `from` where `s` holds `c`.
pub open spec fn index_from(s: Seq<char>, c: char, from: nat) -> Option<nat>
    decreases s.len() - from,
{
    if from >= s.len() {
        None
    } else if s[from as int] == c {
        Some(from)
    } else {
        index_from(s, c, from + 1)
    }
}

/// Whether a date text names January 1st: split at the first `'-'`, split the
/// rest at its first `'-'`, and both parts read `01`.
pub open spec fn names_january_first(s: Seq<char>) -> bool {
    match index_from(s, '-', 0) {
        None => false,
        Some(i) => match index_from(s, '-', i + 1) {
            None => false,
            Some(j) => s.subrange(i + 1 as int, j as int) =~= seq!['0', '1'] && s.subrange(
                j + 1 as int,
                s.len() as int,
            ) =~= seq!['0', '1'],
        },
    }
}

/// The message of a refused run.
pub open spec fn refusal_text() -> Seq<char> {
    "This command can only be executed on January 1st.\nUse --force to override."@
}

fn find_char(s: &str, c: char, from: usize) -> (r: Option<usize>)
    requires
        from <= s@.len(),
    ensures
        r is None ==> index_from(s@, c, from as nat) is None,
        r matches Some(i) ==> from <= i < s@.len() && index_from(s@, c, from as nat) == Some(
            i as nat,
        ),
{
    let n = s.unicode_len();
    let mut k = from;
    while k < n
        invariant
            from <= k <= n,
            n == s@.len(),
            index_from(s@, c, from as nat) == index_from(s@, c, k as nat),
        decreases n - k,
    {
        if s.get_char(k) == c {
            return Some(k);
        }
        k = k + 1;
    }
    None
}

fn reads_01(s: &str, from: usize, to: usize) -> (r: bool)
    requires
        from <= to <= s@.len(),
    ensures
        r == (s@.subrange(from as int, to as int) =~= seq!['0', '1']),
{
    if to - from != 2 {
        return false;
    }
    let r = s.get_char(from) == '0' && s.get_char(from + 1) == '1';
    proof {
        let sub = s@.subrange(from as int, to as int);
        if r {
            assert(sub =~= seq!['0', '1']);
        } else {
            assert(!(sub =~= seq!['0', '1']) || sub[0] != '0' || sub[1] != '1');
        }
    }
    r
}

/// Whether a date text names January 1st.
pub fn is_january_first_text(s: &str) -> (r: bool)
    ensures
        r == names_january_first(s@),
{
    let n = s.unicode_len();
    match find_char(s, '-', 0) {
        None => false,
        Some(i) => match find_char(s, '-', i + 1) {
            None => false,
            Some(j) => reads_01(s, i + 1, j) && reads_01(s, j + 1, n),
        },
    }
}

/// Builds the default seed from the user name, if any, and the host name.
pub fn default_seed(user: Option<String>, host: &str) -> (r: String)
    ensures
        r@ == default_seed_text(
            match user {
                Some(u) => Some(u@),
                None => None,
            },
            host@,
        ),
{
    let mut out = String::new();
    match user {
        Some(u) => push_str(&mut out, u.as_str()),
        None => push_str(&mut out, "anonymous"),
    }
    push_char(&mut out, '@');
    push_str(&mut out, host);
    assert(out@ =~= default_seed_text(
        match user {
            Some(u) => Some(u@),
            None => None,
        },
        host@,
    ));
    out
}

impl Args {
    /// The custom seed if there is one, else the default seed built from the
    /// user name (if any) and the host name.
    pub fn get_seed(&self, user: Option<String>, host: &str) -> (r: String)
        ensures
            r@ == (match self.seed {
                Some(s) => s@,
                None => default_seed_text(
                    match user {
                        Some(u) => Some(u@),
                        None => None,
                    },
                    host@,
                ),
            }),
    {
        match &self.seed {
            Some(s) => s.clone(),
            None => default_seed(user, host),
        }
    }

    /// Whether today is January 1st: the date option when it is given, else
    /// today's month and day.
    pub fn is_january_first(&self, today_month: u32, today_day: u32) -> (r: bool)
        ensures
            r == (match self.date {
                Some(d) => names_january_first(d@),
                None => today_month == 1 && today_day == 1,
            }),
    {
        match &self.date {
            Some(d) => is_january_first_text(d.as_str()),
            None => today_month == 1 && today_day == 1,
        }
    }

    /// `Ok(false)` on January 1st, `Ok(true)` (run with a warning) when
    /// forced on another day, and the refusal otherwise.
    pub fn can_execute(&self, today_month: u32, today_day: u32) -> (r: Result<bool, &'static str>)
        ensures
            (match self.date {
                Some(d) => names_january_first(d@),
                None => today_month == 1 && today_day == 1,
            }) ==> r == Ok::<bool, &'static str>(false),
            !(match self.date {
                Some(d) => names_january_first(d@),
                None => today_month == 1 && today_day == 1,
            }) ==> (if self.force {
                r == Ok::<bool, &'static str>(true)
            } else {
                r is Err && r->Err_0@ == refusal_text()
            }),
    {
        if self.is_january_first(today_month, today_day) {
            Ok(false)
        } else if self.force {
            Ok(true)
        } else {
            Err("This command can only be executed on January 1st.\nUse --force to override.")
        }
    }
}

} // verus!
