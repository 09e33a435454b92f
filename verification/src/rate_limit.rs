use vstd::prelude::*;
use vstd::hash_map::StringHashMap;
use crate::domain::ModelEndpoint;
use crate::numfmt::{
    dec, lemma_dec_digits, append_chars, parse_u64, parse_unsigned_spec, unsigned_body,
};
use crate::text::{
    chars_of, contains, find_chars, is_ws, lemma_trim_around, lower, lower_chars, string_of, trim,
    trim_chars,
    trim_end_char, trim_end_char_chars,
};

verus! {

/// Error text that marks a request whose rate-limit retries ran out.
pub open spec fn rate_limit_retry_exhausted() -> Seq<char> {
    "服务商限流重试已耗尽"@
}

/// How often a rate-limited request is retried.
pub const MAX_RATE_LIMIT_RETRIES: usize = 5;

/// Identifies one rate-limited endpoint: profile id, provider, base URL and model.
#[derive(Debug)]
pub struct RateLimitScope(pub String);

impl View for RateLimitScope {
    type V = Seq<char>;

    open spec fn view(&self) -> Seq<char> {
        self.0@
    }
}

/// The scope key of a profile: its trimmed id, then provider, base URL without trailing
/// slashes, and model, each trimmed and lower-cased, separated by `|`.
pub open spec fn scope_key(id: Seq<char>, provider: Seq<char>, base_url: Seq<char>, model: Seq<char>) -> Seq<char> {
    trim(id) + seq!['|'] + lower(trim(provider)) + seq!['|'] + lower(
        trim_end_char(trim(base_url), '/'),
    ) + seq!['|'] + lower(trim(model))
}

impl RateLimitScope {
    pub fn for_profile(profile: &ModelEndpoint) -> (r: Self)
        ensures
            r@ == scope_key(profile.id@, profile.provider@, profile.base_url@, profile.model@),
    {
        let id = trim_chars(&chars_of(profile.id.as_str()));
        let provider = lower_chars(&trim_chars(&chars_of(profile.provider.as_str())));
        let base = lower_chars(
            &trim_end_char_chars(&trim_chars(&chars_of(profile.base_url.as_str())), '/'),
        );
        let model = lower_chars(&trim_chars(&chars_of(profile.model.as_str())));
        let mut key: Vec<char> = Vec::new();
        append_chars(&mut key, id.as_slice());
        key.push('|');
        append_chars(&mut key, provider.as_slice());
        key.push('|');
        append_chars(&mut key, base.as_slice());
        key.push('|');
        append_chars(&mut key, model.as_slice());
        assert(key@ =~= scope_key(
            profile.id@,
            profile.provider@,
            profile.base_url@,
            profile.model@,
        ));
        RateLimitScope(string_of(key.as_slice()))
    }
}

/// The cooldown of one scope: until when requests wait (milliseconds on the caller's clock)
/// and how many rate limits came in a row.
#[derive(Clone, Copy, Debug)]
pub struct RateLimitState {
    pub cooldown_until: u64,
    pub consecutive_limits: usize,
}

/// The backoff in milliseconds before retry number `attempt` when the provider gives none.
pub open spec fn backoff_ms(attempt: nat) -> u64 {
    if attempt <= 1 {
        45_000
    } else if attempt == 2 {
        90_000
    } else if attempt == 3 {
        180_000
    } else {
        300_000
    }
}

/// What `cooldown_delay` leaves and returns at time `now`.
pub open spec fn cooldown_step(m: Map<Seq<char>, RateLimitState>, key: Seq<char>, now: u64) -> (
    Map<Seq<char>, RateLimitState>,
    Option<u64>,
) {
    if !m.contains_key(key) {
        (m, None)
    } else if m[key].cooldown_until <= now {
        (m.remove(key), None)
    } else {
        (m, Some((m[key].cooldown_until - now) as u64))
    }
}

/// The delay that `record_rate_limit` applies.
pub open spec fn limit_delay(retry_after: Option<u64>, attempt: nat) -> u64 {
    match retry_after {
        Some(d) => d,
        None => backoff_ms(attempt),
    }
}

/// What `record_rate_limit` leaves at time `now`.
pub open spec fn record_step(
    m: Map<Seq<char>, RateLimitState>,
    key: Seq<char>,
    retry_after: Option<u64>,
    attempt: nat,
    now: u64,
) -> Map<Seq<char>, RateLimitState> {
    let prior: usize = if m.contains_key(key) { m[key].consecutive_limits } else { 0 };
    let count: usize = if prior == usize::MAX { prior } else { (prior + 1) as usize };
    m.insert(
        key,
        RateLimitState {
            cooldown_until: (now + limit_delay(retry_after, attempt)) as u64,
            consecutive_limits: count,
        },
    )
}

/// Shared cooldowns of rate-limited endpoints.
pub struct RateLimitCoordinator {
    states: StringHashMap<RateLimitState>,
}

impl View for RateLimitCoordinator {
    type V = Map<Seq<char>, RateLimitState>;

    closed spec fn view(&self) -> Map<Seq<char>, RateLimitState> {
        self.states@
    }
}

impl RateLimitCoordinator {
    pub fn new() -> (r: Self)
        ensures
            r@ == Map::<Seq<char>, RateLimitState>::empty(),
    {
        RateLimitCoordinator { states: StringHashMap::new() }
    }

    /// How long a request on `scope` must still wait at time `now`; an expired cooldown is
    /// dropped.
    pub fn cooldown_delay(&mut self, scope: &RateLimitScope, now: u64) -> (r: Option<u64>)
        ensures
            (final(self)@, r) == cooldown_step(old(self)@, scope@, now),
    {
        let key = scope.0.as_str();
        let until = match self.states.get(key) {
            None => return None,
            Some(state) => state.cooldown_until,
        };
        if until <= now {
            self.states.remove(key);
            None
        } else {
            Some(until - now)
        }
    }

    /// Records a rate limit on `scope` at time `now`: the cooldown lasts the provider's
    /// `retry_after` when given, else the backoff for `attempt`; returns that delay.
    pub fn record_rate_limit(
        &mut self,
        scope: &RateLimitScope,
        retry_after: Option<u64>,
        attempt: usize,
        now: u64,
    ) -> (r: u64)
        requires
            now + limit_delay(retry_after, attempt as nat) <= u64::MAX,
        ensures
            r == limit_delay(retry_after, attempt as nat),
            final(self)@ == record_step(old(self)@, scope@, retry_after, attempt as nat, now),
    {
        let delay = match retry_after {
            Some(d) => d,
            None => default_backoff_delay(attempt),
        };
        let key = scope.0.as_str();
        let prior: usize = match self.states.get(key) {
            None => 0,
            Some(state) => state.consecutive_limits,
        };
        let count = prior.saturating_add(1);
        self.states.insert(
            scope.0.clone(),
            RateLimitState { cooldown_until: now + delay, consecutive_limits: count },
        );
        delay
    }

    /// Clears the cooldown of `scope` after a successful request.
    pub fn record_success(&mut self, scope: &RateLimitScope)
        ensures
            final(self)@ == old(self)@.remove(scope@),
    {
        self.states.remove(scope.0.as_str());
    }
}

/// Whether an error text reports that the rate-limit retries ran out.
pub fn is_rate_limit_retry_exhausted(error: &str) -> (r: bool)
    ensures
        r == contains(error@, rate_limit_retry_exhausted()),
{
    let marker = chars_of("服务商限流重试已耗尽");
    find_chars(&chars_of(error), &marker).is_some()
}

/// The delay a `Retry-After` value asks for, in milliseconds: whole seconds, kept between one
/// second and ten minutes; `None` when the value is absent or not a number.
pub open spec fn retry_after_spec(value: Option<Seq<char>>) -> Option<u64> {
    match value {
        None => None,
        Some(v) => match parse_unsigned_spec(trim(v), u64::MAX as nat) {
            None => None,
            Some(secs) => Some(
                (if secs < 1 {
                    1000
                } else if secs > 600 {
                    600_000
                } else {
                    secs * 1000
                }) as u64,
            ),
        },
    }
}

pub fn parse_retry_after(value: Option<&str>) -> (r: Option<u64>)
    ensures
        r == retry_after_spec(
            match value {
                Some(v) => Some(v@),
                None => None,
            },
        ),
{
    let v = match value {
        Some(v) => v,
        None => return None,
    };
    let trimmed = string_of(trim_chars(&chars_of(v)).as_slice());
    let secs = match parse_u64(trimmed.as_str()) {
        Some(s) => s,
        None => return None,
    };
    let clamped: u64 = if secs < 1 {
        1
    } else if secs > 600 {
        600
    } else {
        secs
    };
    Some(clamped * 1000)
}

/// The backoff in milliseconds before retry number `attempt`.
pub fn default_backoff_delay(attempt: usize) -> (r: u64)
    ensures
        r == backoff_ms(attempt as nat),
{
    match attempt {
        0 | 1 => 45_000,
        2 => 90_000,
        3 => 180_000,
        _ => 300_000,
    }
}

// ---------------------------------------------------------------------------
// Laws
// ---------------------------------------------------------------------------

/// After a rate limit is recorded at `now`, a request on the same scope at `t` waits exactly
/// the rest of the delay, and none once the delay has passed (the entry is then dropped).
pub proof fn law_cooldown_after_limit(
    m: Map<Seq<char>, RateLimitState>,
    key: Seq<char>,
    retry_after: Option<u64>,
    attempt: nat,
    now: u64,
    t: u64,
)
    requires
        now + limit_delay(retry_after, attempt) <= u64::MAX,
        now <= t,
    ensures
        ({
            let m1 = record_step(m, key, retry_after, attempt, now);
            let d = limit_delay(retry_after, attempt);
            &&& t < now + d ==> cooldown_step(m1, key, t) == (m1, Some((now + d - t) as u64))
            &&& t >= now + d ==> cooldown_step(m1, key, t) == (m1.remove(key), None::<u64>)
        }),
{
}

/// A scope with no recorded rate limit does not wait and is left as it was; a new
/// coordinator therefore lets every request through.
pub proof fn law_unlimited_scope_does_not_wait(
    m: Map<Seq<char>, RateLimitState>,
    key: Seq<char>,
    t: u64,
)
    requires
        !m.contains_key(key),
    ensures
        cooldown_step(m, key, t) == (m, None::<u64>),
        cooldown_step(Map::<Seq<char>, RateLimitState>::empty(), key, t).1 is None,
{
}

/// After a rate limit recorded at `now`, any wait reported at a later time `t` is positive and
/// no longer than the recorded delay.
pub proof fn law_wait_within_delay(
    m: Map<Seq<char>, RateLimitState>,
    key: Seq<char>,
    retry_after: Option<u64>,
    attempt: nat,
    now: u64,
    t: u64,
)
    requires
        now + limit_delay(retry_after, attempt) <= u64::MAX,
        now <= t,
    ensures
        cooldown_step(record_step(m, key, retry_after, attempt, now), key, t).1 matches Some(x)
            ==> 0 < x <= limit_delay(retry_after, attempt),
{
}

/// A success clears the scope: the next request does not wait, and the next rate limit
/// counts as the first in a row.
pub proof fn law_success_resets(
    m: Map<Seq<char>, RateLimitState>,
    key: Seq<char>,
    now: u64,
    retry_after: Option<u64>,
    attempt: nat,
)
    requires
        now + limit_delay(retry_after, attempt) <= u64::MAX,
    ensures
        cooldown_step(m.remove(key), key, now).1 is None,
        record_step(m.remove(key), key, retry_after, attempt, now)[key].consecutive_limits == 1,
{
}

/// Consecutive rate limits on one scope are counted one by one.
pub proof fn law_limits_count_up(
    m: Map<Seq<char>, RateLimitState>,
    key: Seq<char>,
    retry_after: Option<u64>,
    attempt: nat,
    now: u64,
)
    requires
        now + limit_delay(retry_after, attempt) <= u64::MAX,
        m.contains_key(key),
        m[key].consecutive_limits < usize::MAX,
    ensures
        record_step(m, key, retry_after, attempt, now)[key].consecutive_limits
            == m[key].consecutive_limits + 1,
{
}

/// Each operation on one scope leaves every other scope as it was.
pub proof fn law_scopes_are_independent(
    m: Map<Seq<char>, RateLimitState>,
    key: Seq<char>,
    other: Seq<char>,
    retry_after: Option<u64>,
    attempt: nat,
    now: u64,
)
    requires
        key != other,
    ensures
        record_step(m, key, retry_after, attempt, now).contains_key(other) == m.contains_key(
            other,
        ),
        m.contains_key(other) ==> record_step(m, key, retry_after, attempt, now)[other]
            == m[other],
        cooldown_step(m, key, now).0.contains_key(other) == m.contains_key(other),
        m.contains_key(other) ==> cooldown_step(m, key, now).0[other] == m[other],
        m.remove(key).contains_key(other) == m.contains_key(other),
{
}

/// The backoff never shrinks as attempts go up, and is never longer than five minutes.
pub proof fn law_backoff_grows(a: nat, b: nat)
    requires
        a <= b,
    ensures
        backoff_ms(a) <= backoff_ms(b),
        backoff_ms(b) <= 300_000,
{
}

} // verus!

verus! {

/// A `Retry-After` of `secs` whole seconds, written in decimal (with any surrounding blanks),
/// asks for exactly that wait when it lies between one second and ten minutes, for one
/// second below that and for ten minutes above.
pub proof fn law_retry_after_seconds(secs: nat, pad_before: Seq<char>, pad_after: Seq<char>)
    requires
        secs <= u64::MAX,
        forall|k: int| 0 <= k < pad_before.len() ==> is_ws(#[trigger] pad_before[k]),
        forall|k: int| 0 <= k < pad_after.len() ==> is_ws(#[trigger] pad_after[k]),
    ensures
        1 <= secs <= 600 ==> retry_after_spec(Some(pad_before + dec(secs) + pad_after)) == Some(
            (secs * 1000) as u64,
        ),
        secs > 600 ==> retry_after_spec(Some(pad_before + dec(secs) + pad_after)) == Some(600_000u64),
        secs == 0 ==> retry_after_spec(Some(pad_before + dec(secs) + pad_after)) == Some(1000u64),
{
    lemma_dec_digits(secs);
    let d = dec(secs);
    assert(!is_ws(d[0]) && !is_ws(d.last()));
    lemma_trim_around(pad_before, d, pad_after);
    assert(unsigned_body(d) == d);
}

} // verus!
