//! Dynamic tokens in the watermark text: `{user}`, `{hostname}`, `{date}`,
//! `{time}`, `{date:FORMAT}` and `{time:FORMAT}`.
use crate::text::{
    chars_of, count_char, find_from, has_seq, find_seq, lemma_absent_first_char, lemma_count_zero,
    lemma_find_from, lemma_replace_absent, lemma_replace_count, occurs_at, replace_all,
    replace_seq, string_of,
};
use std::fmt::Write;
use crate::clock::{clock_since_epoch, raw_reading, ClockReading};
use vstd::prelude::*;

verus! {

/// An instant, with the offset from UTC (in seconds) of the zone it is shown in.
#[derive(Clone, Copy, Debug)]
pub struct Moment {
    pub unix_secs: i64,
    pub nanos: u32,
    pub utc_offset_secs: i32,
}

/// What token resolution reads from the machine: the user name, the host
/// name and the current time.
pub struct TokenEnv {
    pub user: String,
    pub host: String,
    pub now: Moment,
}

/// What chrono writes for `fmt` (strftime syntax) at the instant given by the
/// first three arguments, or `None` where it reports a formatting error.
pub uninterp spec fn chrono_rendering(
    unix_secs: i64,
    nanos: u32,
    utc_offset_secs: i32,
    fmt: Seq<char>,
) -> Option<Seq<char>>;

/// Whether chrono's `DateTime::from_timestamp` accepts an instant (seconds and
/// nanoseconds since the Unix epoch).
pub uninterp spec fn chrono_accepts_timestamp(unix_secs: i64, nanos: u32) -> bool;

/// A moment chrono can show: its offset is less than a day either way (what
/// `FixedOffset::east_opt` accepts) and `from_timestamp` accepts its instant.
pub open spec fn moment_in_range(m: Moment) -> bool {
    -86400 < m.utc_offset_secs < 86400 && chrono_accepts_timestamp(m.unix_secs, m.nanos)
}

/// The rendering of `fmt` at `m`.
pub open spec fn rendering_at(m: Moment, fmt: Seq<char>) -> Option<Seq<char>> {
    chrono_rendering(m.unix_secs, m.nanos, m.utc_offset_secs, fmt)
}

/// The view of an optional character vector.
pub open spec fn chars_opt_view(r: Option<Vec<char>>) -> Option<Seq<char>> {
    match r {
        Some(v) => Some(v@),
        None => None,
    }
}

/// The view of an optional string.
pub open spec fn string_opt_view(r: Option<String>) -> Option<Seq<char>> {
    match r {
        Some(s) => Some(s@),
        None => None,
    }
}

/// Formats `m` with chrono's `DateTime::<FixedOffset>::format`, written into a
/// `String` with `write!`. The result is `None` where the offset or the instant is
/// out of chrono's range or where chrono's `Display` reports an error (an unknown
/// `%` specifier). Chrono copies every character of the pattern that is not part
/// of a specifier and no specifier writes `}`, so a pattern without `}` renders
/// without `}`.
/// `east_opt` accepts exactly the offsets strictly inside a day either way;
/// `with_timezone` cannot fail; `%Y-%m-%d` and `%H:%M:%S` hold only year, month,
/// day, hour, minute and second specifiers, which every date and time render.
#[verifier::external_body]
fn render_moment(m: &Moment, fmt: &Vec<char>) -> (r: Option<Vec<char>>)
    ensures
        chars_opt_view(r) == chrono_rendering(m.unix_secs, m.nanos, m.utc_offset_secs, fmt@),
        r matches Some(out) ==> (!fmt@.contains('}') ==> !out@.contains('}')),
        r is Some ==> -86400 < m.utc_offset_secs < 86400 && chrono_accepts_timestamp(
            m.unix_secs,
            m.nanos,
        ),
        -86400 < m.utc_offset_secs < 86400 && chrono_accepts_timestamp(m.unix_secs, m.nanos) && (
        fmt@ == "%Y-%m-%d"@ || fmt@ == "%H:%M:%S"@) ==> r is Some,
{
    let pattern: String = fmt.iter().collect();
    let offset = chrono::FixedOffset::east_opt(m.utc_offset_secs)?;
    let instant = chrono::DateTime::from_timestamp(m.unix_secs, m.nanos)?;
    let mut out = String::new();
    write!(out, "{}", instant.with_timezone(&offset).format(&pattern)).ok()?;
    Some(out.chars().collect())
}

/// Whether chrono's `DateTime::from_timestamp` accepts the instant `secs`/`nanos`
/// (it returns `None` for an out-of-range date or a nanosecond count it rejects).
#[verifier::external_body]
fn timestamp_accepted(secs: i64, nanos: u32) -> (b: bool)
    ensures
        b == chrono_accepts_timestamp(secs, nanos),
{
    chrono::DateTime::from_timestamp(secs, nanos).is_some()
}

/// The moment a clock reading (seconds and nanoseconds since the Unix epoch)
/// stands for in a zone `utc_offset_secs` east of UTC, where chrono can show it.
pub open spec fn moment_of_reading(reading: Option<(u64, u32)>, utc_offset_secs: i32) -> Option<
    Moment,
> {
    match reading {
        Some((secs, nanos)) => if secs <= i64::MAX && chrono_accepts_timestamp(secs as i64, nanos)
            && -86400 < utc_offset_secs < 86400 {
            Some(Moment { unix_secs: secs as i64, nanos, utc_offset_secs })
        } else {
            None
        },
        None => None,
    }
}

/// The moment of a clock reading in a zone `utc_offset_secs` east of UTC; `None`
/// where there is no reading or chrono cannot show it.
pub fn moment_from_reading(reading: Option<(u64, u32)>, utc_offset_secs: i32) -> (r: Option<Moment>)
    ensures
        r == moment_of_reading(reading, utc_offset_secs),
        r matches Some(m) ==> moment_in_range(m),
{
    match reading {
        Some((secs, nanos)) => {
            if secs > i64::MAX as u64 || utc_offset_secs <= -86400 || utc_offset_secs >= 86400 {
                return None;
            }
            if timestamp_accepted(secs as i64, nanos) {
                Some(Moment { unix_secs: secs as i64, nanos, utc_offset_secs })
            } else {
                None
            }
        },
        None => None,
    }
}

/// The machine's host name from `hostname::get()`, converted lossily to UTF-8;
/// `None` where the system call fails. Nothing is stated of it: it is the machine's.
#[verifier::external_body]
fn system_hostname() -> (r: Option<String>) {
    match hostname::get() {
        Ok(h) => Some(h.to_string_lossy().to_string()),
        Err(_) => None,
    }
}

/// The user name that token resolution shows: `$USER` where it is set, else `user`.
pub open spec fn user_or_default(user_var: Option<String>) -> Seq<char> {
    match user_var {
        Some(u) => u@,
        None => "user"@,
    }
}

/// The host name that token resolution shows: the system's where it can be read,
/// else `localhost`.
pub open spec fn host_or_default(host: Option<String>) -> Seq<char> {
    match host {
        Some(h) => h@,
        None => "localhost"@,
    }
}

/// Builds the environment of token resolution from what was read.
pub fn token_env(user_var: Option<String>, host: Option<String>, now: Moment) -> (env: TokenEnv)
    ensures
        env.user@ == user_or_default(user_var),
        env.host@ == host_or_default(host),
        env.now == now,
{
    let user = match user_var {
        Some(u) => u,
        None => String::from_str("user"),
    };
    let host = match host {
        Some(h) => h,
        None => String::from_str("localhost"),
    };
    TokenEnv { user, host, now }
}

/// The environment of token resolution from what was read: `$USER` (where it is
/// set), the host name (where it could be read) and the clock's reading, in a
/// zone `utc_offset_secs` east of UTC; `None` where the reading gives no moment
/// chrono can show.
pub fn env_from_readings(
    user_var: Option<String>,
    host: Option<String>,
    reading: Option<(u64, u32)>,
    utc_offset_secs: i32,
) -> (r: Option<TokenEnv>)
    ensures
        (r is Some) == (moment_of_reading(reading, utc_offset_secs) is Some),
        r matches Some(env) ==> env.user@ == user_or_default(user_var) && env.host@
            == host_or_default(host) && Some(env.now) == moment_of_reading(reading, utc_offset_secs),
{
    match moment_from_reading(reading, utc_offset_secs) {
        Some(now) => Some(token_env(user_var, host, now)),
        None => None,
    }
}

/// Reads the host name and the clock and builds the environment of token
/// resolution, as `env_from_readings` does with those readings: its moment is
/// the moment of what the clock read; `user_var` is the
/// value of `$USER`, where it is set, and `utc_offset_secs` the local zone's offset
/// east of UTC. `None` where the clock cannot be read as a moment chrono can show.
pub fn current_token_env(user_var: Option<String>, utc_offset_secs: i32) -> (r: Option<TokenEnv>)
    ensures
        r matches Some(env) ==> env.user@ == user_or_default(user_var) && env.now.utc_offset_secs
            == utc_offset_secs && moment_in_range(env.now),
        exists|c: Option<ClockReading>|
            match r {
                Some(env) => Some(env.now) == moment_of_reading(#[trigger] raw_reading(c), utc_offset_secs),
                None => moment_of_reading(#[trigger] raw_reading(c), utc_offset_secs) is None,
            },
{
    let host = system_hostname();
    let clock = clock_since_epoch();
    let reading = match &clock {
        Some(c) => Some((c.secs(), c.nanos())),
        None => None,
    };
    let r = env_from_readings(user_var, host, reading, utc_offset_secs);
    assert(reading == raw_reading(clock));
    r
}

/// The outcome of one round of custom-format expansion.
pub enum Expansion {
    /// No `prefix ... }` token is left.
    Done,
    /// chrono could not render the format of the first token.
    Failed,
    /// The text after every occurrence of the first token was replaced.
    Next(Seq<char>),
}

/// One round of expansion of `{date:FORMAT}` / `{time:FORMAT}` tokens (`prefix` is
/// `{date:` or `{time:`): the first occurrence of `prefix` and the first `}` after
/// it delimit a token; every occurrence of that token's text is replaced by the
/// rendering of FORMAT.
pub open spec fn custom_token_step(s: Seq<char>, prefix: Seq<char>, m: Moment) -> Expansion {
    match find_from(s, prefix, 0) {
        None => Expansion::Done,
        Some(start) => match find_from(s, seq!['}'], start) {
            None => Expansion::Done,
            Some(close) => match rendering_at(m, s.subrange(start + prefix.len(), close)) {
                None => Expansion::Failed,
                Some(out) => Expansion::Next(replace_all(s, s.subrange(start, close + 1), out)),
            },
        },
    }
}

/// Repeats `custom_token_step` at most `rounds` times, until no token is left
/// (`Some`) or a format cannot be rendered (`None`).
pub open spec fn expand_rounds(s: Seq<char>, prefix: Seq<char>, m: Moment, rounds: nat) -> Option<
    Seq<char>,
>
    decreases rounds,
{
    if rounds == 0 {
        None
    } else {
        match custom_token_step(s, prefix, m) {
            Expansion::Done => Some(s),
            Expansion::Failed => None,
            Expansion::Next(t) => expand_rounds(t, prefix, m, (rounds - 1) as nat),
        }
    }
}

/// Expands every `prefix ... }` token of `s`. Each round removes the closing `}`
/// of the token it expands and renderings of brace-free formats hold no `}`, so
/// one round more than the number of `}` in `s` always reaches the end.
pub open spec fn expand_custom_tokens(s: Seq<char>, prefix: Seq<char>, m: Moment) -> Option<
    Seq<char>,
> {
    expand_rounds(s, prefix, m, count_char(s, '}') + 1)
}

/// The resolved text of `template`: `{user}` and `{hostname}` replaced by `user`
/// and `host`, `{date}` and `{time}` by the renderings of `%Y-%m-%d` and
/// `%H:%M:%S` at `m`, then `{date:FORMAT}` and `{time:FORMAT}` tokens expanded;
/// `None` where chrono cannot render one of the formats.
pub open spec fn resolve_spec(template: Seq<char>, user: Seq<char>, host: Seq<char>, m: Moment) -> Option<
    Seq<char>,
> {
    match (rendering_at(m, "%Y-%m-%d"@), rendering_at(m, "%H:%M:%S"@)) {
        (Some(d), Some(t)) => {
            let fixed = with_fixed_tokens(template, user, host, d, t);
            match expand_custom_tokens(fixed, "{date:"@, m) {
                Some(dated) => expand_custom_tokens(dated, "{time:"@, m),
                None => None,
            }
        },
        _ => None,
    }
}

/// `template` with `{user}`, `{hostname}`, `{date}` and `{time}` replaced, in
/// that order.
pub open spec fn with_fixed_tokens(
    template: Seq<char>,
    user: Seq<char>,
    host: Seq<char>,
    date: Seq<char>,
    time: Seq<char>,
) -> Seq<char> {
    replace_all(
        replace_all(
            replace_all(replace_all(template, "{user}"@, user), "{hostname}"@, host),
            "{date}"@,
            date,
        ),
        "{time}"@,
        time,
    )
}

/// The text after `k` rounds of expansion that each replaced a token, where
/// there were that many.
pub open spec fn rounds_text(s: Seq<char>, prefix: Seq<char>, m: Moment, k: nat) -> Option<
    Seq<char>,
>
    decreases k,
{
    if k == 0 {
        Some(s)
    } else {
        match rounds_text(s, prefix, m, (k - 1) as nat) {
            Some(t) => match custom_token_step(t, prefix, m) {
                Expansion::Next(u) => Some(u),
                _ => None,
            },
            None => None,
        }
    }
}

/// Some round of expansion meets a token whose format chrono cannot render.
pub open spec fn round_fails(s: Seq<char>, prefix: Seq<char>, m: Moment) -> bool {
    exists|k: nat|
        #[trigger] rounds_text(s, prefix, m, k) matches Some(t) && custom_token_step(t, prefix, m)
            is Failed
}

/// Resolution fails on a custom format: the `{date:FORMAT}` expansion meets a
/// format chrono cannot render, or it succeeds and the `{time:FORMAT}` expansion
/// does.
pub open spec fn custom_format_fails(
    template: Seq<char>,
    user: Seq<char>,
    host: Seq<char>,
    m: Moment,
) -> bool {
    match (rendering_at(m, "%Y-%m-%d"@), rendering_at(m, "%H:%M:%S"@)) {
        (Some(d), Some(t)) => {
            let fixed = with_fixed_tokens(template, user, host, d, t);
            round_fails(fixed, "{date:"@, m) || (expand_custom_tokens(fixed, "{date:"@, m) matches Some(
                dated,
            ) && round_fails(dated, "{time:"@, m))
        },
        _ => false,
    }
}

/// Text where `prefix` does not occur has no token to fail on.
pub proof fn lemma_no_token_no_failure(s: Seq<char>, prefix: Seq<char>, m: Moment)
    requires
        !has_seq(s, prefix),
    ensures
        !round_fails(s, prefix, m),
{
    lemma_find_from(s, prefix, 0);
    assert(custom_token_step(s, prefix, m) is Done);
    assert forall|k: nat| !(#[trigger] rounds_text(s, prefix, m, k) matches Some(t) && custom_token_step(
        t,
        prefix,
        m,
    ) is Failed) by {
        lemma_no_token_rounds(s, prefix, m, k);
    }
}

/// Where the first round finds no token, only round zero leaves a text.
proof fn lemma_no_token_rounds(s: Seq<char>, prefix: Seq<char>, m: Moment, k: nat)
    requires
        custom_token_step(s, prefix, m) is Done,
    ensures
        rounds_text(s, prefix, m, k) == if k == 0 {
            Some(s)
        } else {
            None::<Seq<char>>
        },
    decreases k,
{
    if k > 0 {
        lemma_no_token_rounds(s, prefix, m, (k - 1) as nat);
    }
}

/// Text without `{` holds no token: wherever chrono renders the two fixed
/// formats, it resolves to itself, whatever the user, host and time.
pub proof fn lemma_plain_text_resolves_to_itself(
    template: Seq<char>,
    user: Seq<char>,
    host: Seq<char>,
    m: Moment,
)
    requires
        !template.contains('{'),
        rendering_at(m, "%Y-%m-%d"@) is Some,
        rendering_at(m, "%H:%M:%S"@) is Some,
    ensures
        resolve_spec(template, user, host, m) == Some(template),
{
    reveal_strlit("{user}");
    reveal_strlit("{hostname}");
    reveal_strlit("{date}");
    reveal_strlit("{time}");
    reveal_strlit("{date:");
    reveal_strlit("{time:");
    let d = rendering_at(m, "%Y-%m-%d"@).unwrap();
    let t = rendering_at(m, "%H:%M:%S"@).unwrap();
    lemma_absent_first_char(template, "{user}"@);
    lemma_replace_absent(template, "{user}"@, user);
    lemma_absent_first_char(template, "{hostname}"@);
    lemma_replace_absent(template, "{hostname}"@, host);
    lemma_absent_first_char(template, "{date}"@);
    lemma_replace_absent(template, "{date}"@, d);
    lemma_absent_first_char(template, "{time}"@);
    lemma_replace_absent(template, "{time}"@, t);
    lemma_absent_first_char(template, "{date:"@);
    lemma_find_from(template, "{date:"@, 0);
    lemma_absent_first_char(template, "{time:"@);
    lemma_find_from(template, "{time:"@, 0);
}

/// The characters of `v` from `lo` up to `hi`.
fn sub_chars(v: &Vec<char>, lo: usize, hi: usize) -> (r: Vec<char>)
    requires
        lo <= hi <= v.len(),
    ensures
        r@ == v@.subrange(lo as int, hi as int),
{
    let mut r: Vec<char> = Vec::new();
    let mut i = lo;
    while i < hi
        invariant
            lo <= i <= hi <= v.len(),
            r@ == v@.subrange(lo as int, i as int),
        decreases hi - i,
    {
        r.push(v[i]);
        assert(v@.subrange(lo as int, i + 1) =~= v@.subrange(lo as int, i as int).push(v@[i as int]));
        i = i + 1;
    }
    r
}

/// `occurs_at` for a one-character pattern is a comparison of that character.
proof fn lemma_occurs_single(s: Seq<char>, c: char, j: int)
    ensures
        occurs_at(s, seq![c], j) == (0 <= j < s.len() && s[j] == c),
{
    if 0 <= j < s.len() && s[j] == c {
        assert(s.subrange(j, j + 1) =~= seq![c]);
    }
    if occurs_at(s, seq![c], j) {
        assert(s.subrange(j, j + 1)[0] == s[j]);
    }
}

/// Expands every `prefix ... }` token of `s`, as `expand_custom_tokens` says.
fn expand_custom(s: Vec<char>, prefix: &Vec<char>, m: &Moment) -> (r: Option<Vec<char>>)
    requires
        prefix@.len() > 0,
        !prefix@.contains('}'),
    ensures
        chars_opt_view(r) == expand_custom_tokens(s@, prefix@, *m),
        r matches Some(o) ==> custom_token_step(o@, prefix@, *m) is Done,
        r is None ==> round_fails(s@, prefix@, *m),
{
    let mut cur = s;
    let close_pat: Vec<char> = vec!['}'];
    let ghost mut rounds: nat = count_char(s@, '}') + 1;
    let ghost mut done: nat = 0;
    loop
        invariant
            prefix@.len() > 0,
            !prefix@.contains('}'),
            close_pat@ == seq!['}'],
            rounds_text(s@, prefix@, *m, done) == Some(cur@),
            rounds >= count_char(cur@, '}') + 1,
            expand_rounds(cur@, prefix@, *m, rounds) == expand_custom_tokens(s@, prefix@, *m),
        decreases count_char(cur@, '}'),
    {
        let ghost c = cur@;
        proof {
            lemma_find_from(c, prefix@, 0);
        }
        let start = match find_seq(&cur, prefix, 0) {
            None => {
                return Some(cur);
            },
            Some(i) => i,
        };
        proof {
            lemma_find_from(c, seq!['}'], start as int);
        }
        let close = match find_seq(&cur, &close_pat, start) {
            None => {
                return Some(cur);
            },
            Some(j) => j,
        };
        proof {
            lemma_occurs_single(c, '}', close as int);
            assert forall|j: int| start <= j < close implies c[j] != '}' by {
                lemma_occurs_single(c, '}', j);
            }
            if close < start + prefix.len() {
                assert(c.subrange(start as int, start + prefix@.len())[close - start] == c[close as int]);
                assert(prefix@[close - start] == '}');
            }
        }
        let fmt = sub_chars(&cur, start + prefix.len(), close);
        proof {
            assert forall|k: int| 0 <= k < fmt@.len() implies fmt@[k] != '}' by {
                assert(fmt@[k] == c[start + prefix@.len() + k]);
            }
        }
        let out = match render_moment(m, &fmt) {
            None => {
                proof {
                    assert(custom_token_step(c, prefix@, *m) is Failed);
                    assert(rounds_text(s@, prefix@, *m, done) matches Some(t) && custom_token_step(
                        t,
                        prefix@,
                        *m,
                    ) is Failed);
                }
                return None;
            },
            Some(o) => o,
        };
        let full = sub_chars(&cur, start, close + 1);
        let next = replace_seq(&cur, &full, &out);
        proof {
            lemma_count_zero(out@, '}');
            assert(full@[full@.len() - 1] == '}');
            lemma_count_zero(full@, '}');
            assert(occurs_at(c, full@, start as int));
            lemma_replace_count(c, full@, out@, '}');
            assert(custom_token_step(c, prefix@, *m) == Expansion::Next(next@));
            rounds = (rounds - 1) as nat;
            done = done + 1;
            assert(rounds_text(s@, prefix@, *m, done) == Some(next@));
        }
        cur = next;
    }
}

/// Resolves the tokens of `template` in `env`; `None` where chrono cannot render
/// one of the formats (a `{date:FORMAT}` or `{time:FORMAT}` with an unknown
/// specifier).
pub fn resolve_tokens_with(template: &str, env: &TokenEnv) -> (r: Option<String>)
    ensures
        string_opt_view(r) == resolve_spec(template@, env.user@, env.host@, env.now),
        r matches Some(s) ==> custom_token_step(s@, "{time:"@, env.now) is Done,
        r is None && moment_in_range(env.now) ==> custom_format_fails(
            template@,
            env.user@,
            env.host@,
            env.now,
        ),
        moment_in_range(env.now) && !template@.contains('{') ==> (r matches Some(s) && s@
            == template@),
{
    proof {
        reveal_strlit("{user}");
        reveal_strlit("{hostname}");
        reveal_strlit("{date}");
        reveal_strlit("{time}");
        reveal_strlit("{date:");
        reveal_strlit("{time:");
    }
    let text = chars_of(template);
    let user = chars_of(env.user.as_str());
    let host = chars_of(env.host.as_str());
    let text = replace_seq(&text, &chars_of("{user}"), &user);
    let text = replace_seq(&text, &chars_of("{hostname}"), &host);
    let date = match render_moment(&env.now, &chars_of("%Y-%m-%d")) {
        Some(d) => d,
        None => {
            return None;
        },
    };
    let time = match render_moment(&env.now, &chars_of("%H:%M:%S")) {
        Some(t) => t,
        None => {
            return None;
        },
    };
    proof {
        if !template@.contains('{') {
            lemma_plain_text_resolves_to_itself(template@, env.user@, env.host@, env.now);
        }
    }
    let text = replace_seq(&text, &chars_of("{date}"), &date);
    let text = replace_seq(&text, &chars_of("{time}"), &time);
    let date_prefix = chars_of("{date:");
    let time_prefix = chars_of("{time:");
    proof {
        assert(!date_prefix@.contains('}'));
        assert(!time_prefix@.contains('}'));
    }
    let text = match expand_custom(text, &date_prefix, &env.now) {
        Some(t) => t,
        None => {
            return None;
        },
    };
    match expand_custom(text, &time_prefix, &env.now) {
        Some(t) => Some(string_of(&t)),
        None => None,
    }
}

/// `out` is the resolution of `template` at the moment of the clock reading `c`,
/// shown `utc_offset_secs` east of UTC.
pub open spec fn resolved_at_reading(
    template: Seq<char>,
    user: Seq<char>,
    host: Seq<char>,
    c: ClockReading,
    utc_offset_secs: i32,
    out: Seq<char>,
) -> bool {
    match moment_of_reading(raw_reading(Some(c)), utc_offset_secs) {
        Some(now) => resolve_spec(template, user, host, now) == Some(out),
        None => false,
    }
}

/// A custom format of `template` fails at the moment of the clock reading `c`,
/// shown `utc_offset_secs` east of UTC.
pub open spec fn fails_at_reading(
    template: Seq<char>,
    user: Seq<char>,
    host: Seq<char>,
    c: ClockReading,
    utc_offset_secs: i32,
) -> bool {
    match moment_of_reading(raw_reading(Some(c)), utc_offset_secs) {
        Some(now) => custom_format_fails(template, user, host, now),
        None => false,
    }
}

/// Why token resolution gave no text.
#[derive(Clone, Copy, Debug, PartialEq, Eq, Structural)]
pub enum TokenError {
    /// The zone offset is a day or more either way.
    OffsetOutOfRange,
    /// The clock could not be read as a moment chrono can show.
    ClockUnreadable,
    /// A `{date:FORMAT}` or `{time:FORMAT}` token holds a format chrono cannot render.
    UnrenderableFormat,
}

/// Resolves the tokens of `template` with the host name and the current time of
/// this machine, shown in a zone `utc_offset_secs` east of UTC; `user_var` is the
/// value of `$USER`, where it is set. The host name and the clock's reading are
/// the machine's: the result is `resolve_spec` at some host name and at the moment
/// of what the clock read, shown with that offset, and a failure is an offset of a day or more,
/// an unreadable clock, or a custom format that fails there.
pub fn resolve_tokens(template: &str, user_var: Option<String>, utc_offset_secs: i32) -> (r: Result<
    String,
    TokenError,
>)
    ensures
        (r == Err::<String, TokenError>(TokenError::OffsetOutOfRange)) == !(-86400 < utc_offset_secs
            < 86400),
        r matches Ok(s) ==> exists|host: Seq<char>, now: Moment|
            moment_in_range(now) && now.utc_offset_secs == utc_offset_secs && resolve_spec(
                template@,
                user_or_default(user_var),
                host,
                now,
            ) == Some(s@),
        r == Err::<String, TokenError>(TokenError::UnrenderableFormat) ==> exists|
            host: Seq<char>,
            now: Moment,
        |
            moment_in_range(now) && now.utc_offset_secs == utc_offset_secs && custom_format_fails(
                template@,
                user_or_default(user_var),
                host,
                now,
            ),
        !template@.contains('{') ==> r != Err::<String, TokenError>(TokenError::UnrenderableFormat),
        r matches Ok(s) ==> (!template@.contains('{') ==> s@ == template@),
        r matches Ok(s) ==> exists|host: Seq<char>, c: ClockReading|
            #[trigger] resolved_at_reading(
                template@,
                user_or_default(user_var),
                host,
                c,
                utc_offset_secs,
                s@,
            ),
        r == Err::<String, TokenError>(TokenError::UnrenderableFormat) ==> exists|
            host: Seq<char>,
            c: ClockReading,
        | #[trigger] fails_at_reading(template@, user_or_default(user_var), host, c, utc_offset_secs),
        r == Err::<String, TokenError>(TokenError::ClockUnreadable) ==> exists|c: Option<ClockReading>|
            moment_of_reading(#[trigger] raw_reading(c), utc_offset_secs) is None,
{
    let ghost user = user_or_default(user_var);
    if utc_offset_secs <= -86400 || utc_offset_secs >= 86400 {
        return Err(TokenError::OffsetOutOfRange);
    }
    let env = match current_token_env(user_var, utc_offset_secs) {
        Some(env) => env,
        None => {
            return Err(TokenError::ClockUnreadable);
        },
    };
    let ghost c = choose|c: Option<ClockReading>|
        Some(env.now) == moment_of_reading(#[trigger] raw_reading(c), utc_offset_secs);
    let ghost read = c->Some_0;
    assert(raw_reading(Some(read)) == raw_reading(c));
    let host_view = Ghost(env.host@);
    let out = resolve_tokens_with(template, &env);
    proof {
        lemma_reading_witness(template@, user, host_view@, read, utc_offset_secs, env.now, out);
    }
    match out {
        Some(s) => {
            let ghost sv = s@;
            assert(exists|host: Seq<char>, c: ClockReading|
                #[trigger] resolved_at_reading(template@, user, host, c, utc_offset_secs, sv));
            let r: Result<String, TokenError> = Ok(s);
            assert(r->Ok_0@ == sv);
            r
        },
        None => Err(TokenError::UnrenderableFormat),
    }
}

/// What resolution at the moment of a clock reading gave, as a witness of the
/// reading.
proof fn lemma_reading_witness(
    template: Seq<char>,
    user: Seq<char>,
    host: Seq<char>,
    read: ClockReading,
    utc_offset_secs: i32,
    now: Moment,
    out: Option<String>,
)
    requires
        Some(now) == moment_of_reading(raw_reading(Some(read)), utc_offset_secs),
        string_opt_view(out) == resolve_spec(template, user, host, now),
        out is None && moment_in_range(now) ==> custom_format_fails(template, user, host, now),
    ensures
        out matches Some(s) ==> exists|h: Seq<char>, c: ClockReading|
            #[trigger] resolved_at_reading(template, user, h, c, utc_offset_secs, s@),
        out is None ==> exists|h: Seq<char>, c: ClockReading|
            #[trigger] fails_at_reading(template, user, h, c, utc_offset_secs),
{
    if let Some(s) = out {
        assert(resolved_at_reading(template, user, host, read, utc_offset_secs, s@));
    } else {
        assert(fails_at_reading(template, user, host, read, utc_offset_secs));
    }
}

} // verus!
