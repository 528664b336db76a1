//! The quality-of-service controller: per-viewer sessions, per-display
//! bookkeeping, and the two coupled decision policies that derive the
//! shared target frame rate and bitrate ratio from network health.
//!
//! The controller never reads a clock or a configuration store: callers
//! pass monotonic timestamps in milliseconds and the adaptive-bitrate
//! configuration flag into the methods that need them.

use vstd::prelude::*;
use crate::delay::{UserDelay, spec_smoothed, spec_trend};
use crate::fifo::{spec_fifo_push, fifo_push, lemma_fifo_push_len};
use crate::health::{NetworkHealth, DelayTrend};
use crate::quality::{
    Quality, FPS, MIN_FPS, MAX_FPS, INIT_FPS, BR_MAX, BR_MIN, BR_MIN_HIGH_RESOLUTION, BR_BEST,
    BR_BALANCED,
};

verus! {

/// Minimum interval between two adaptive bitrate-ratio adjustments,
/// in milliseconds.
pub const ADJUST_RATIO_INTERVAL_MS: u64 = 3000;

/// A display whose frame counter reaches this many frames per
/// adjustment interval is classified as showing dynamic content.
pub const DYNAMIC_SCREEN_FRAMES: usize = 6;

/// A viewer whose response took longer than this many milliseconds is
/// marked response-delayed.
pub const RESPONSE_DELAY_MS: u128 = 2000;

/// Ramp-up window after a viewer joins, in milliseconds, during which
/// the shared frame rate is capped.
pub const NEW_USER_RAMP_MS: u64 = 1000;

/// Reference delay of the proportional slowdown policy, in milliseconds.
pub const DELAY_THRESHOLD_MS: u32 = 150;

/// Achieved bitrate, in kilobits per second, above which the adaptive
/// ratio floors tighten.
pub const HIGH_BITRATE_KBPS: u32 = 1000;

/// Capacity of the diagnostic frame-rate and ratio histories.
pub const DIAG_HISTORY_CAP: usize = 5;

/// Per-viewer session state.
pub struct UserData {
    /// Client-suggested upper frame-rate bound.
    pub auto_adjust_fps: Option<u32>,
    /// Fixed frame-rate cap requested by the viewer.
    pub custom_fps: Option<u32>,
    /// Most recent image-quality preference with the wall-clock
    /// timestamp at which it was set.
    pub quality: Option<(i64, Quality)>,
    /// Delay tracking for this viewer.
    pub delay: UserDelay,
    /// Whether this viewer is recording the session.
    pub record: bool,
}

/// Per-display bookkeeping.
#[derive(Clone, Copy, Debug)]
pub struct DisplayData {
    /// Frames sent since the counter was last reset.
    pub send_counter: usize,
    /// Whether the stream supports changing quality at run time.
    pub support_changing_quality: bool,
}

impl UserData {
    /// Validity: stored frame-rate bounds are in range and a custom
    /// quality preference carries a ratio in range.
    pub open spec fn wf(self) -> bool {
        &&& self.delay.wf()
        &&& (match self.custom_fps {
            Some(f) => MIN_FPS <= f <= MAX_FPS,
            None => true,
        })
        &&& (match self.auto_adjust_fps {
            Some(f) => MIN_FPS <= f <= MAX_FPS,
            None => true,
        })
        &&& (match self.quality {
            Some((_, Quality::Custom(v))) => BR_MIN <= v <= BR_MAX,
            _ => true,
        })
    }

    /// A freshly connected viewer: no preferences, no samples.
    pub open spec fn is_init(self) -> bool {
        &&& self.auto_adjust_fps is None
        &&& self.custom_fps is None
        &&& self.quality is None
        &&& self.delay.is_init()
        &&& !self.record
    }

    /// Session state of a freshly connected viewer.
    pub fn new() -> (r: Self)
        ensures
            r.is_init(),
            r.wf(),
    {
        UserData {
            auto_adjust_fps: None,
            custom_fps: None,
            quality: None,
            delay: UserDelay::new(),
            record: false,
        }
    }
}

impl DisplayData {
    /// Bookkeeping for a freshly added display.
    pub fn new() -> (r: Self)
        ensures
            r.send_counter == 0,
            !r.support_changing_quality,
    {
        DisplayData { send_counter: 0, support_changing_quality: false }
    }
}

// ---------------------------------------------------------------------
// Viewer lookup
// ---------------------------------------------------------------------

/// The session of viewer `id` in a session list, if present. When ids
/// are unique this is the session stored for `id`.
pub open spec fn spec_user_of(s: Seq<(i32, UserData)>, id: i32) -> Option<UserData>
    decreases s.len(),
{
    if s.len() == 0 {
        None
    } else if s.last().0 == id {
        Some(s.last().1)
    } else {
        spec_user_of(s.drop_last(), id)
    }
}

/// Each viewer id appears at most once.
pub open spec fn unique_user_ids(s: Seq<(i32, UserData)>) -> bool {
    forall|i: int, j: int| 0 <= i < j < s.len() ==> s[i].0 != s[j].0
}

/// With unique ids, the lookup returns the entry at any index holding
/// the looked-up id.
pub proof fn lemma_user_of_index(s: Seq<(i32, UserData)>, j: int)
    requires
        unique_user_ids(s),
        0 <= j < s.len(),
    ensures
        spec_user_of(s, s[j].0) == Some(s[j].1),
    decreases s.len(),
{
    if j == s.len() - 1 {
    } else {
        assert(s.last().0 != s[j].0);
        assert(s.drop_last()[j] == s[j]);
        lemma_user_of_index(s.drop_last(), j);
    }
}

/// An id held by no entry is not found.
pub proof fn lemma_user_of_absent(s: Seq<(i32, UserData)>, id: i32)
    requires
        forall|i: int| 0 <= i < s.len() ==> s[i].0 != id,
    ensures
        spec_user_of(s, id) is None,
    decreases s.len(),
{
    if s.len() > 0 {
        lemma_user_of_absent(s.drop_last(), id);
    }
}

/// Replacing the session at one index (keeping its id) changes exactly
/// that id's lookup and keeps ids unique.
pub proof fn lemma_user_of_update(s: Seq<(i32, UserData)>, j: int, d: UserData)
    requires
        unique_user_ids(s),
        0 <= j < s.len(),
    ensures
        unique_user_ids(s.update(j, (s[j].0, d))),
        spec_user_of(s.update(j, (s[j].0, d)), s[j].0) == Some(d),
        forall|k: i32|
            k != s[j].0 ==> spec_user_of(s.update(j, (s[j].0, d)), k) == spec_user_of(s, k),
    decreases s.len(),
{
    let t = s.update(j, (s[j].0, d));
    assert(forall|i: int| 0 <= i < s.len() && i != j ==> t[i] == s[i]);
    assert(forall|i: int| 0 <= i < s.len() ==> t[i].0 == s[i].0);
    lemma_user_of_index(t, j);
    if j == s.len() - 1 {
        assert(t.drop_last() =~= s.drop_last());
        assert forall|k: i32| k != s[j].0 implies spec_user_of(t, k) == spec_user_of(s, k) by {
            assert(spec_user_of(t, k) == spec_user_of(t.drop_last(), k));
            assert(spec_user_of(s, k) == spec_user_of(s.drop_last(), k));
        }
    } else {
        assert(t.drop_last() =~= s.drop_last().update(j, (s[j].0, d)));
        assert(s.drop_last()[j] == s[j]);
        lemma_user_of_update(s.drop_last(), j, d);
        assert(t.last() == s.last());
        assert forall|k: i32| k != s[j].0 implies spec_user_of(t, k) == spec_user_of(s, k) by {
            if t.last().0 != k {
                assert(spec_user_of(t, k) == spec_user_of(t.drop_last(), k));
                assert(spec_user_of(s, k) == spec_user_of(s.drop_last(), k));
            }
        }
    }
}

/// Appending a session for a new id makes it found and leaves every
/// other lookup unchanged.
pub proof fn lemma_user_of_push(s: Seq<(i32, UserData)>, id: i32, d: UserData)
    ensures
        spec_user_of(s.push((id, d)), id) == Some(d),
        forall|k: i32| k != id ==> spec_user_of(s.push((id, d)), k) == spec_user_of(s, k),
{
    let t = s.push((id, d));
    assert(t.last() == (id, d));
    assert(t.drop_last() =~= s);
}

/// Removing the entry at one index removes exactly that id's lookup and
/// keeps ids unique.
pub proof fn lemma_user_of_remove(s: Seq<(i32, UserData)>, j: int)
    requires
        unique_user_ids(s),
        0 <= j < s.len(),
    ensures
        unique_user_ids(s.remove(j)),
        spec_user_of(s.remove(j), s[j].0) is None,
        forall|k: i32| k != s[j].0 ==> spec_user_of(s.remove(j), k) == spec_user_of(s, k),
    decreases s.len(),
{
    let t = s.remove(j);
    assert(forall|i: int| 0 <= i < j ==> t[i] == s[i]);
    assert(forall|i: int| j <= i < t.len() ==> t[i] == s[i + 1]);
    if j == s.len() - 1 {
        assert(t =~= s.drop_last());
        assert(forall|i: int| 0 <= i < t.len() ==> t[i].0 != s[j].0);
        lemma_user_of_absent(t, s[j].0);
        assert forall|k: i32| k != s[j].0 implies spec_user_of(t, k) == spec_user_of(s, k) by {
            assert(spec_user_of(s, k) == spec_user_of(s.drop_last(), k));
        }
    } else {
        assert(t.drop_last() =~= s.drop_last().remove(j));
        assert(s.drop_last()[j] == s[j]);
        lemma_user_of_remove(s.drop_last(), j);
        assert(t.last() == s.last());
        assert(s.last().0 != s[j].0);
        assert(spec_user_of(t, s[j].0) == spec_user_of(t.drop_last(), s[j].0));
        assert forall|k: i32| k != s[j].0 implies spec_user_of(t, k) == spec_user_of(s, k) by {
            if t.last().0 != k {
                assert(spec_user_of(t, k) == spec_user_of(t.drop_last(), k));
                assert(spec_user_of(s, k) == spec_user_of(s.drop_last(), k));
            }
        }
    }
}

/// Index of the session of viewer `id`, if one is stored.
fn find_user_index(users: &Vec<(i32, UserData)>, id: i32) -> (r: Option<usize>)
    ensures
        match r {
            Some(j) => j < users@.len() && users@[j as int].0 == id,
            None => forall|i: int| 0 <= i < users@.len() ==> users@[i].0 != id,
        },
{
    let mut i: usize = 0;
    while i < users.len()
        invariant
            i <= users@.len(),
            forall|k: int| 0 <= k < i ==> users@[k].0 != id,
        decreases users@.len() - i,
    {
        if users[i].0 == id {
            return Some(i);
        }
        i = i + 1;
    }
    None
}

// ---------------------------------------------------------------------
// Display lookup
// ---------------------------------------------------------------------

/// The bookkeeping of the display called `name`, if present.
pub open spec fn spec_display_of(s: Seq<(String, DisplayData)>, name: Seq<char>) -> Option<
    DisplayData,
>
    decreases s.len(),
{
    if s.len() == 0 {
        None
    } else if s.last().0@ == name {
        Some(s.last().1)
    } else {
        spec_display_of(s.drop_last(), name)
    }
}

/// Each display name appears at most once.
pub open spec fn unique_display_names(s: Seq<(String, DisplayData)>) -> bool {
    forall|i: int, j: int| 0 <= i < j < s.len() ==> s[i].0@ != s[j].0@
}

/// Index of the display called `name`, if one is stored.
fn find_display_index(displays: &Vec<(String, DisplayData)>, name: &String) -> (r: Option<usize>)
    ensures
        match r {
            Some(j) => j < displays@.len() && displays@[j as int].0@ == name@,
            None => forall|i: int| 0 <= i < displays@.len() ==> displays@[i].0@ != name@,
        },
{
    let mut i: usize = 0;
    while i < displays.len()
        invariant
            i <= displays@.len(),
            forall|k: int| 0 <= k < i ==> displays@[k].0@ != name@,
        decreases displays@.len() - i,
    {
        if displays[i].0.eq(name) {
            return Some(i);
        }
        i = i + 1;
    }
    None
}

// ---------------------------------------------------------------------
// Aggregations over the viewer set
// ---------------------------------------------------------------------

/// Effective frame-rate cap contributed by one viewer: the custom cap
/// (the nominal rate when unset), further reduced by the
/// client-suggested bound when that is smaller.
pub open spec fn spec_user_fps(u: UserData) -> u32 {
    let base = match u.custom_fps {
        Some(c) => c,
        None => FPS,
    };
    match u.auto_adjust_fps {
        Some(a) => if base == 0 || a < base {
            a
        } else {
            base
        },
        None => base,
    }
}

/// Minimum of the viewers' frame-rate contributions, ignoring
/// contributions below the global floor; nothing when no viewer
/// contributes.
pub open spec fn spec_min_contrib(s: Seq<(i32, UserData)>) -> Option<u32>
    decreases s.len(),
{
    if s.len() == 0 {
        None
    } else {
        let rest = spec_min_contrib(s.drop_last());
        let f = spec_user_fps(s.last().1);
        if f < MIN_FPS {
            rest
        } else {
            match rest {
                None => Some(f),
                Some(m) => Some(if f < m { f } else { m }),
            }
        }
    }
}

/// Highest frame rate any viewer accepts: the minimum contribution
/// (the nominal rate when there is none), clamped to the global range.
pub open spec fn spec_highest_fps(s: Seq<(i32, UserData)>) -> u32 {
    let m = match spec_min_contrib(s) {
        None => FPS,
        Some(v) => v,
    };
    if m < MIN_FPS {
        MIN_FPS
    } else if m > MAX_FPS {
        MAX_FPS
    } else {
        m
    }
}

/// The most recently timestamped quality preference across all viewers;
/// on equal timestamps the viewer stored later wins.
pub open spec fn spec_latest_entry(s: Seq<(i32, UserData)>) -> Option<(i64, Quality)>
    decreases s.len(),
{
    if s.len() == 0 {
        None
    } else {
        let rest = spec_latest_entry(s.drop_last());
        match s.last().1.quality {
            None => rest,
            Some(c) => match rest {
                None => Some(c),
                Some(p) => if c.0 >= p.0 {
                    Some(c)
                } else {
                    Some(p)
                },
            },
        }
    }
}

/// The effective quality preference: the most recently set one, or the
/// balanced tier while none is set.
pub open spec fn spec_latest_quality(s: Seq<(i32, UserData)>) -> Quality {
    match spec_latest_entry(s) {
        None => Quality::Balanced,
        Some(e) => e.1,
    }
}

/// Minimum of the viewers' stored frame-rate suggestions, an unset
/// suggestion counting as the initial rate; nothing without viewers.
pub open spec fn spec_min_suggestion(s: Seq<(i32, UserData)>) -> Option<u32>
    decreases s.len(),
{
    if s.len() == 0 {
        None
    } else {
        let rest = spec_min_suggestion(s.drop_last());
        let f = match s.last().1.delay.fps {
            Some(v) => v,
            None => INIT_FPS,
        };
        match rest {
            None => Some(f),
            Some(m) => Some(if f < m { f } else { m }),
        }
    }
}

/// Whether any viewer is currently marked response-delayed.
pub open spec fn spec_any_response_delayed(s: Seq<(i32, UserData)>) -> bool {
    exists|i: int| 0 <= i < s.len() && s[i].1.delay.response_delayed
}

/// Whether any viewer is recording.
pub open spec fn spec_any_record(s: Seq<(i32, UserData)>) -> bool {
    exists|i: int| 0 <= i < s.len() && s[i].1.record
}

/// The worst (most severe) health tier across all viewers, if any.
pub open spec fn spec_worst_health_opt(s: Seq<(i32, UserData)>) -> Option<NetworkHealth>
    decreases s.len(),
{
    if s.len() == 0 {
        None
    } else {
        let rest = spec_worst_health_opt(s.drop_last());
        let h = s.last().1.delay.spec_network_health();
        match rest {
            None => Some(h),
            Some(w) => Some(
                if h.severity() > w.severity() {
                    h
                } else {
                    w
                },
            ),
        }
    }
}

/// The worst health tier across all viewers, fair when there are none.
pub open spec fn spec_worst_health(s: Seq<(i32, UserData)>) -> NetworkHealth {
    match spec_worst_health_opt(s) {
        None => NetworkHealth::Fair,
        Some(h) => h,
    }
}

/// Minimum of the viewers' frame-rate contributions, computed by one
/// pass over the session list.
fn min_contrib(users: &Vec<(i32, UserData)>) -> (r: Option<u32>)
    ensures
        r == spec_min_contrib(users@),
{
    let ghost s = users@;
    let mut acc: Option<u32> = None;
    let mut i: usize = 0;
    while i < users.len()
        invariant
            i <= s.len(),
            users@ == s,
            acc == spec_min_contrib(s.take(i as int)),
        decreases s.len() - i,
    {
        proof {
            assert(s.take(i as int + 1).drop_last() =~= s.take(i as int));
            assert(s.take(i as int + 1).last() == s[i as int]);
        }
        let u = &users[i].1;
        let base = match u.custom_fps {
            Some(c) => c,
            None => FPS,
        };
        let f = match u.auto_adjust_fps {
            Some(a) => if base == 0 || a < base {
                a
            } else {
                base
            },
            None => base,
        };
        if f >= MIN_FPS {
            acc = match acc {
                None => Some(f),
                Some(m) => Some(if f < m { f } else { m }),
            };
        }
        i = i + 1;
    }
    proof {
        assert(s.take(s.len() as int) =~= s);
    }
    acc
}

/// The most recently timestamped quality preference, by one pass over
/// the session list.
fn latest_entry(users: &Vec<(i32, UserData)>) -> (r: Option<(i64, Quality)>)
    ensures
        r == spec_latest_entry(users@),
{
    let ghost s = users@;
    let mut acc: Option<(i64, Quality)> = None;
    let mut i: usize = 0;
    while i < users.len()
        invariant
            i <= s.len(),
            users@ == s,
            acc == spec_latest_entry(s.take(i as int)),
        decreases s.len() - i,
    {
        proof {
            assert(s.take(i as int + 1).drop_last() =~= s.take(i as int));
            assert(s.take(i as int + 1).last() == s[i as int]);
        }
        match users[i].1.quality {
            None => {},
            Some(c) => {
                acc = match acc {
                    None => Some(c),
                    Some(p) => if c.0 >= p.0 {
                        Some(c)
                    } else {
                        Some(p)
                    },
                };
            },
        }
        i = i + 1;
    }
    proof {
        assert(s.take(s.len() as int) =~= s);
    }
    acc
}

/// Minimum of the viewers' stored frame-rate suggestions, by one pass
/// over the session list.
fn min_suggestion(users: &Vec<(i32, UserData)>) -> (r: Option<u32>)
    ensures
        r == spec_min_suggestion(users@),
{
    let ghost s = users@;
    let mut acc: Option<u32> = None;
    let mut i: usize = 0;
    while i < users.len()
        invariant
            i <= s.len(),
            users@ == s,
            acc == spec_min_suggestion(s.take(i as int)),
        decreases s.len() - i,
    {
        proof {
            assert(s.take(i as int + 1).drop_last() =~= s.take(i as int));
            assert(s.take(i as int + 1).last() == s[i as int]);
        }
        let f = match users[i].1.delay.fps {
            Some(v) => v,
            None => INIT_FPS,
        };
        acc = match acc {
            None => Some(f),
            Some(m) => Some(if f < m { f } else { m }),
        };
        i = i + 1;
    }
    proof {
        assert(s.take(s.len() as int) =~= s);
    }
    acc
}

/// Whether any viewer is marked response-delayed, by one pass.
fn any_response_delayed(users: &Vec<(i32, UserData)>) -> (r: bool)
    ensures
        r == spec_any_response_delayed(users@),
{
    let mut i: usize = 0;
    while i < users.len()
        invariant
            i <= users@.len(),
            forall|k: int| 0 <= k < i ==> !users@[k].1.delay.response_delayed,
        decreases users@.len() - i,
    {
        if users[i].1.delay.response_delayed {
            return true;
        }
        i = i + 1;
    }
    false
}

/// The worst health tier across all viewers, by one pass.
fn worst_health(users: &Vec<(i32, UserData)>) -> (r: NetworkHealth)
    ensures
        r == spec_worst_health(users@),
{
    let ghost s = users@;
    let mut acc: Option<NetworkHealth> = None;
    let mut i: usize = 0;
    while i < users.len()
        invariant
            i <= s.len(),
            users@ == s,
            acc == spec_worst_health_opt(s.take(i as int)),
        decreases s.len() - i,
    {
        proof {
            assert(s.take(i as int + 1).drop_last() =~= s.take(i as int));
            assert(s.take(i as int + 1).last() == s[i as int]);
        }
        let h = users[i].1.delay.network_health();
        acc = match acc {
            None => Some(h),
            Some(w) => Some(
                if h.severity_level() > w.severity_level() {
                    h
                } else {
                    w
                },
            ),
        };
        i = i + 1;
    }
    proof {
        assert(s.take(s.len() as int) =~= s);
    }
    match acc {
        None => NetworkHealth::Fair,
        Some(h) => h,
    }
}

// ---------------------------------------------------------------------
// The controller
// ---------------------------------------------------------------------

/// The quality-of-service controller: owns all viewer and display state
/// and the shared frame-rate and bitrate-ratio targets.
pub struct VideoQoS {
    /// Shared target frame rate.
    pub fps: u32,
    /// Shared target bitrate ratio, in permille.
    pub ratio: u32,
    /// Connected viewers, in connection order.
    pub users: Vec<(i32, UserData)>,
    /// Known displays, in creation order.
    pub displays: Vec<(String, DisplayData)>,
    /// Most recently reported achieved bitrate, in kilobits per second.
    pub bitrate_store: u32,
    /// Monotonic timestamp of the last ratio adjustment.
    pub adjust_ratio_ms: Option<u64>,
    /// Whether adaptive bitrate is enabled by configuration.
    pub abr_config: bool,
    /// Monotonic timestamp of the most recent viewer join.
    pub new_user_ms: Option<u64>,
    /// Diagnostic history of past ratio values.
    pub ratio_history: Vec<u32>,
    /// Diagnostic history of past frame-rate values.
    pub fps_history: Vec<u32>,
}

impl VideoQoS {
    /// Validity of the controller state: targets in range, unique
    /// viewer ids and display names, valid per-viewer state, bounded
    /// diagnostic histories.
    pub open spec fn wf(self) -> bool {
        &&& MIN_FPS <= self.fps <= MAX_FPS
        &&& BR_MIN_HIGH_RESOLUTION <= self.ratio <= BR_MAX
        &&& unique_user_ids(self.users@)
        &&& (forall|i: int| 0 <= i < self.users@.len() ==> (#[trigger] self.users@[i]).1.wf())
        &&& unique_display_names(self.displays@)
        &&& self.ratio_history@.len() <= DIAG_HISTORY_CAP
        &&& self.fps_history@.len() <= DIAG_HISTORY_CAP
    }

    /// The timestamps stored so far do not lie in the future of `now`:
    /// what a monotonic clock guarantees.
    pub open spec fn times_le(self, now: u64) -> bool {
        &&& (match self.adjust_ratio_ms {
            Some(t) => t <= now,
            None => true,
        })
        &&& (match self.new_user_ms {
            Some(t) => t <= now,
            None => true,
        })
    }

    /// The default configuration: nominal frame rate, balanced ratio,
    /// no viewers, no displays, nothing reported or adjusted yet.
    pub open spec fn is_default(self) -> bool {
        &&& self.fps == FPS
        &&& self.ratio == BR_BALANCED
        &&& self.users@.len() == 0
        &&& self.displays@.len() == 0
        &&& self.bitrate_store == 0
        &&& self.adjust_ratio_ms is None
        &&& self.abr_config == true
        &&& self.new_user_ms is None
        &&& self.ratio_history@.len() == 0
        &&& self.fps_history@.len() == 0
    }

    /// The shared frame rate, falling back to the nominal rate if the
    /// stored value is out of range.
    pub open spec fn spec_fps(self) -> u32 {
        if MIN_FPS <= self.fps && self.fps <= MAX_FPS {
            self.fps
        } else {
            FPS
        }
    }

    /// Adaptive-bitrate mode is eligible: enabled by configuration and
    /// every display supports changing quality at run time.
    pub open spec fn spec_in_vbr(self) -> bool {
        &&& self.abr_config
        &&& (forall|i: int|
            0 <= i < self.displays@.len() ==> (
            #[trigger] self.displays@[i]).1.support_changing_quality)
    }

    /// The shared frame rate; always within the global range, whatever
    /// the stored state holds.
    pub fn fps(&self) -> (r: u32)
        ensures
            r == self.spec_fps(),
            MIN_FPS <= r <= MAX_FPS,
    {
        if self.fps >= MIN_FPS && self.fps <= MAX_FPS {
            self.fps
        } else {
            FPS
        }
    }

    /// Duration of one frame at the current shared frame rate, in
    /// microseconds.
    pub fn spf(&self) -> (r: u64)
        ensures
            r == 1_000_000u64 / (self.spec_fps() as u64),
    {
        1_000_000u64 / (self.fps() as u64)
    }

    /// Records the externally achieved bitrate, in kilobits per second.
    pub fn store_bitrate(&mut self, bitrate: u32)
        ensures
            final(self).bitrate_store == bitrate,
            final(self).fps == old(self).fps,
            final(self).ratio == old(self).ratio,
            final(self).users == old(self).users,
            final(self).displays == old(self).displays,
            final(self).adjust_ratio_ms == old(self).adjust_ratio_ms,
            final(self).abr_config == old(self).abr_config,
            final(self).new_user_ms == old(self).new_user_ms,
            final(self).ratio_history == old(self).ratio_history,
            final(self).fps_history == old(self).fps_history,
    {
        self.bitrate_store = bitrate;
    }

    /// The most recently reported achieved bitrate.
    pub fn bitrate(&self) -> (r: u32)
        ensures
            r == self.bitrate_store,
    {
        self.bitrate_store
    }

    /// The shared bitrate ratio, in permille; out-of-range stored state
    /// is healed to the balanced default before being returned, so the
    /// result is always within the global bounds.
    pub fn ratio(&mut self) -> (r: u32)
        ensures
            final(self).ratio == (if BR_MIN_HIGH_RESOLUTION <= old(self).ratio
                && old(self).ratio <= BR_MAX {
                old(self).ratio
            } else {
                BR_BALANCED
            }),
            r == final(self).ratio,
            BR_MIN_HIGH_RESOLUTION <= r <= BR_MAX,
            final(self).fps == old(self).fps,
            final(self).users == old(self).users,
            final(self).displays == old(self).displays,
            final(self).bitrate_store == old(self).bitrate_store,
            final(self).adjust_ratio_ms == old(self).adjust_ratio_ms,
            final(self).abr_config == old(self).abr_config,
            final(self).new_user_ms == old(self).new_user_ms,
            final(self).ratio_history == old(self).ratio_history,
            final(self).fps_history == old(self).fps_history,
    {
        if self.ratio < BR_MIN_HIGH_RESOLUTION || self.ratio > BR_MAX {
            self.ratio = BR_BALANCED;
        }
        self.ratio
    }

    /// Whether any viewer is recording.
    pub fn record(&self) -> (r: bool)
        ensures
            r == spec_any_record(self.users@),
    {
        let mut i: usize = 0;
        while i < self.users.len()
            invariant
                i <= self.users@.len(),
                forall|k: int| 0 <= k < i ==> !self.users@[k].1.record,
            decreases self.users@.len() - i,
        {
            if self.users[i].1.record {
                return true;
            }
            i = i + 1;
        }
        false
    }

    /// Whether adaptive-bitrate mode is eligible right now.
    pub fn in_vbr_state(&self) -> (r: bool)
        ensures
            r == self.spec_in_vbr(),
    {
        if !self.abr_config {
            return false;
        }
        let mut i: usize = 0;
        while i < self.displays.len()
            invariant
                i <= self.displays@.len(),
                forall|k: int| 0 <= k < i ==> self.displays@[k].1.support_changing_quality,
            decreases self.displays@.len() - i,
        {
            if !self.displays[i].1.support_changing_quality {
                return false;
            }
            i = i + 1;
        }
        true
    }

    /// Highest frame rate any viewer accepts; always within the global
    /// range.
    pub fn highest_fps(&self) -> (r: u32)
        ensures
            r == spec_highest_fps(self.users@),
            MIN_FPS <= r <= MAX_FPS,
    {
        let m = match min_contrib(&self.users) {
            None => FPS,
            Some(v) => v,
        };
        if m < MIN_FPS {
            MIN_FPS
        } else if m > MAX_FPS {
            MAX_FPS
        } else {
            m
        }
    }

    /// The effective quality preference: the most recently set one
    /// across all viewers, or the balanced tier while none is set.
    pub fn latest_quality(&self) -> (r: Quality)
        ensures
            r == spec_latest_quality(self.users@),
    {
        match latest_entry(&self.users) {
            None => Quality::Balanced,
            Some(e) => e.1,
        }
    }
}

/// Every quality preference the aggregation can pick is stored by some
/// viewer.
pub proof fn lemma_latest_entry_member(s: Seq<(i32, UserData)>)
    requires
        spec_latest_entry(s) is Some,
    ensures
        exists|j: int|
            0 <= j < s.len() && s[j].1.quality == Some(spec_latest_entry(s).unwrap()),
    decreases s.len(),
{
    let e = spec_latest_entry(s).unwrap();
    if s.last().1.quality == Some(e) {
        assert(s[s.len() - 1].1.quality == Some(e));
    } else {
        lemma_latest_entry_member(s.drop_last());
        let j = choose|j: int|
            0 <= j < s.drop_last().len() && s.drop_last()[j].1.quality == Some(
                spec_latest_entry(s.drop_last()).unwrap(),
            );
        assert(s[j].1.quality == Some(e));
    }
}

/// The nominal ratio of the effective preference lies within the global
/// ratio bounds whenever every stored preference does.
pub proof fn lemma_latest_quality_ratio_in_range(s: Seq<(i32, UserData)>)
    requires
        forall|i: int| 0 <= i < s.len() ==> (#[trigger] s[i]).1.wf(),
    ensures
        BR_MIN_HIGH_RESOLUTION <= spec_latest_quality(s).spec_ratio() <= BR_MAX,
{
    if spec_latest_entry(s) is Some {
        lemma_latest_entry_member(s);
    }
}

impl VideoQoS {
    /// Opens a session for viewer `id` with fresh state (replacing any
    /// state stored for that id), applies the configured
    /// adaptive-bitrate flag, and starts the ramp-up window.
    pub fn on_connection_open(&mut self, id: i32, abr_enabled: bool, now_ms: u64)
        requires
            old(self).wf(),
        ensures
            final(self).wf(),
            (spec_user_of(final(self).users@, id) matches Some(u) && u.is_init()),
            forall|k: i32|
                k != id ==> spec_user_of(final(self).users@, k) == spec_user_of(
                    old(self).users@,
                    k,
                ),
            final(self).abr_config == abr_enabled,
            final(self).new_user_ms == Some(now_ms),
            final(self).fps == old(self).fps,
            final(self).ratio == old(self).ratio,
            final(self).displays == old(self).displays,
            final(self).bitrate_store == old(self).bitrate_store,
            final(self).adjust_ratio_ms == old(self).adjust_ratio_ms,
            final(self).ratio_history == old(self).ratio_history,
            final(self).fps_history == old(self).fps_history,
            final(self).users@.len() >= 1,
            spec_user_of(old(self).users@, id) is Some ==> final(self).users@.len() == old(
                self,
            ).users@.len(),
            spec_user_of(old(self).users@, id) is None ==> final(self).users@.len() == old(
                self,
            ).users@.len() + 1,
    {
        let ghost s = self.users@;
        let idx = find_user_index(&self.users, id);
        match idx {
            Some(j) => {
                let _prev = self.users.remove(j);
                self.users.insert(j, (id, UserData::new()));
                proof {
                    assert(self.users@ =~= s.update(j as int, (s[j as int].0, self.users@[j as int].1)));
                    lemma_user_of_update(s, j as int, self.users@[j as int].1);
                    lemma_user_of_index(s, j as int);
                }
            },
            None => {
                self.users.push((id, UserData::new()));
                proof {
                    lemma_user_of_push(s, id, self.users@[s.len() as int].1);
                    lemma_user_of_absent(s, id);
                    assert(forall|i: int| 0 <= i < s.len() ==> self.users@[i] == s[i]);
                }
            },
        }
        self.abr_config = abr_enabled;
        self.new_user_ms = Some(now_ms);
    }

    /// Closes the session of viewer `id`; when the viewer set becomes
    /// empty the whole controller resets to its default configuration.
    pub fn on_connection_close(&mut self, id: i32)
        requires
            old(self).wf(),
        ensures
            final(self).wf(),
            spec_user_of(final(self).users@, id) is None,
            (old(self).users@.len() == 0 || (old(self).users@.len() == 1 && spec_user_of(
                old(self).users@,
                id,
            ) is Some)) <==> final(self).is_default() && final(self).users@.len() == 0,
            !(final(self).is_default() && final(self).users@.len() == 0) ==> {
                &&& (forall|k: i32|
                    k != id ==> spec_user_of(final(self).users@, k) == spec_user_of(
                        old(self).users@,
                        k,
                    ))
                &&& final(self).fps == old(self).fps
                &&& final(self).ratio == old(self).ratio
                &&& final(self).displays == old(self).displays
                &&& final(self).bitrate_store == old(self).bitrate_store
                &&& final(self).adjust_ratio_ms == old(self).adjust_ratio_ms
                &&& final(self).abr_config == old(self).abr_config
                &&& final(self).new_user_ms == old(self).new_user_ms
                &&& final(self).ratio_history == old(self).ratio_history
                &&& final(self).fps_history == old(self).fps_history
                &&& (spec_user_of(old(self).users@, id) is Some ==> final(self).users@.len()
                    == old(self).users@.len() - 1)
                &&& (spec_user_of(old(self).users@, id) is None ==> final(self).users@.len()
                    == old(self).users@.len())
            },
    {
        let ghost s = self.users@;
        let idx = find_user_index(&self.users, id);
        match idx {
            Some(j) => {
                let _prev = self.users.remove(j);
                proof {
                    lemma_user_of_remove(s, j as int);
                    lemma_user_of_index(s, j as int);
                }
            },
            None => {
                proof {
                    lemma_user_of_absent(s, id);
                }
            },
        }
        if self.users.len() == 0 {
            *self = Default::default();
        }
    }

    /// Stores a fixed frame-rate cap for viewer `id`. A request outside
    /// the global range is dropped and the prior state kept; a request
    /// for an unknown viewer is a no-op.
    pub fn user_custom_fps(&mut self, id: i32, fps: u32)
        requires
            old(self).wf(),
        ensures
            final(self).wf(),
            final(self).users@.len() == old(self).users@.len(),
            !(MIN_FPS <= fps <= MAX_FPS) ==> *final(self) == *old(self),
            (MIN_FPS <= fps <= MAX_FPS) ==> {
                &&& (match spec_user_of(old(self).users@, id) {
                    None => final(self).users@ == old(self).users@,
                    Some(u) => spec_user_of(final(self).users@, id) == Some(
                        (UserData { custom_fps: Some(fps), ..u }),
                    ),
                })
                &&& (forall|k: i32|
                    k != id ==> spec_user_of(final(self).users@, k) == spec_user_of(
                        old(self).users@,
                        k,
                    ))
            },
            final(self).fps == old(self).fps,
            final(self).ratio == old(self).ratio,
            final(self).displays == old(self).displays,
            final(self).bitrate_store == old(self).bitrate_store,
            final(self).adjust_ratio_ms == old(self).adjust_ratio_ms,
            final(self).abr_config == old(self).abr_config,
            final(self).new_user_ms == old(self).new_user_ms,
            final(self).ratio_history == old(self).ratio_history,
            final(self).fps_history == old(self).fps_history,
    {
        if fps < MIN_FPS || fps > MAX_FPS {
            return;
        }
        let ghost s = self.users@;
        let idx = find_user_index(&self.users, id);
        match idx {
            Some(j) => {
                let mut e = self.users.remove(j);
                e.1.custom_fps = Some(fps);
                let ghost d = e.1;
                self.users.insert(j, e);
                proof {
                    assert(self.users@ =~= s.update(j as int, (s[j as int].0, d)));
                    lemma_user_of_update(s, j as int, d);
                    lemma_user_of_index(s, j as int);
                }
            },
            None => {
                proof {
                    lemma_user_of_absent(s, id);
                }
            },
        }
    }

    /// Stores a client-suggested upper frame-rate bound for viewer `id`.
    /// A request outside the global range is dropped; an unknown viewer
    /// is a no-op.
    pub fn user_auto_adjust_fps(&mut self, id: i32, fps: u32)
        requires
            old(self).wf(),
        ensures
            final(self).wf(),
            final(self).users@.len() == old(self).users@.len(),
            !(MIN_FPS <= fps <= MAX_FPS) ==> *final(self) == *old(self),
            (MIN_FPS <= fps <= MAX_FPS) ==> {
                &&& (match spec_user_of(old(self).users@, id) {
                    None => final(self).users@ == old(self).users@,
                    Some(u) => spec_user_of(final(self).users@, id) == Some(
                        (UserData { auto_adjust_fps: Some(fps), ..u }),
                    ),
                })
                &&& (forall|k: i32|
                    k != id ==> spec_user_of(final(self).users@, k) == spec_user_of(
                        old(self).users@,
                        k,
                    ))
            },
            final(self).fps == old(self).fps,
            final(self).ratio == old(self).ratio,
            final(self).displays == old(self).displays,
            final(self).bitrate_store == old(self).bitrate_store,
            final(self).adjust_ratio_ms == old(self).adjust_ratio_ms,
            final(self).abr_config == old(self).abr_config,
            final(self).new_user_ms == old(self).new_user_ms,
            final(self).ratio_history == old(self).ratio_history,
            final(self).fps_history == old(self).fps_history,
    {
        if fps < MIN_FPS || fps > MAX_FPS {
            return;
        }
        let ghost s = self.users@;
        let idx = find_user_index(&self.users, id);
        match idx {
            Some(j) => {
                let mut e = self.users.remove(j);
                e.1.auto_adjust_fps = Some(fps);
                let ghost d = e.1;
                self.users.insert(j, e);
                proof {
                    assert(self.users@ =~= s.update(j as int, (s[j as int].0, d)));
                    lemma_user_of_update(s, j as int, d);
                    lemma_user_of_index(s, j as int);
                }
            },
            None => {
                proof {
                    lemma_user_of_absent(s, id);
                }
            },
        }
    }

    /// Stores viewer `id`'s image-quality preference, decoded from its
    /// wire code and timestamped with `time_ms` for most-recent-wins
    /// resolution, and snaps the shared ratio to the now-effective
    /// preference. An unknown viewer is a no-op.
    pub fn user_image_quality(&mut self, id: i32, image_quality: i32, time_ms: i64)
        requires
            old(self).wf(),
        ensures
            final(self).wf(),
            final(self).users@.len() == old(self).users@.len(),
            (match spec_user_of(old(self).users@, id) {
                None => *final(self) == *old(self),
                Some(u) => {
                    &&& spec_user_of(final(self).users@, id) == Some(
                        (UserData {
                            quality: Some((time_ms, Quality::spec_decode(image_quality))),
                            ..u
                        }),
                    )
                    &&& final(self).ratio == spec_latest_quality(final(self).users@).spec_ratio()
                },
            }),
            forall|k: i32|
                k != id ==> spec_user_of(final(self).users@, k) == spec_user_of(
                    old(self).users@,
                    k,
                ),
            final(self).fps == old(self).fps,
            final(self).displays == old(self).displays,
            final(self).bitrate_store == old(self).bitrate_store,
            final(self).adjust_ratio_ms == old(self).adjust_ratio_ms,
            final(self).abr_config == old(self).abr_config,
            final(self).new_user_ms == old(self).new_user_ms,
            final(self).ratio_history == old(self).ratio_history,
            final(self).fps_history == old(self).fps_history,
    {
        let q = Quality::decode(image_quality);
        let ghost s = self.users@;
        let idx = find_user_index(&self.users, id);
        match idx {
            Some(j) => {
                let mut e = self.users.remove(j);
                e.1.quality = Some((time_ms, q));
                let ghost d = e.1;
                self.users.insert(j, e);
                proof {
                    assert(self.users@ =~= s.update(j as int, (s[j as int].0, d)));
                    lemma_user_of_update(s, j as int, d);
                    lemma_user_of_index(s, j as int);
                    Quality::lemma_custom_ratio_in_range(image_quality);
                    lemma_latest_quality_ratio_in_range(self.users@);
                }
                self.ratio = self.latest_quality().ratio();
            },
            None => {
                proof {
                    lemma_user_of_absent(s, id);
                }
            },
        }
    }

    /// Stores viewer `id`'s recording flag; an unknown viewer is a
    /// no-op.
    pub fn user_record(&mut self, id: i32, v: bool)
        requires
            old(self).wf(),
        ensures
            final(self).wf(),
            final(self).users@.len() == old(self).users@.len(),
            (match spec_user_of(old(self).users@, id) {
                None => final(self).users@ == old(self).users@,
                Some(u) => spec_user_of(final(self).users@, id) == Some(
                    (UserData { record: v, ..u }),
                ),
            }),
            forall|k: i32|
                k != id ==> spec_user_of(final(self).users@, k) == spec_user_of(
                    old(self).users@,
                    k,
                ),
            final(self).fps == old(self).fps,
            final(self).ratio == old(self).ratio,
            final(self).displays == old(self).displays,
            final(self).bitrate_store == old(self).bitrate_store,
            final(self).adjust_ratio_ms == old(self).adjust_ratio_ms,
            final(self).abr_config == old(self).abr_config,
            final(self).new_user_ms == old(self).new_user_ms,
            final(self).ratio_history == old(self).ratio_history,
            final(self).fps_history == old(self).fps_history,
    {
        let ghost s = self.users@;
        let idx = find_user_index(&self.users, id);
        match idx {
            Some(j) => {
                let mut e = self.users.remove(j);
                e.1.record = v;
                let ghost d = e.1;
                self.users.insert(j, e);
                proof {
                    assert(self.users@ =~= s.update(j as int, (s[j as int].0, d)));
                    lemma_user_of_update(s, j as int, d);
                    lemma_user_of_index(s, j as int);
                }
            },
            None => {
                proof {
                    lemma_user_of_absent(s, id);
                }
            },
        }
    }
}

/// Whether a display called `name` is known.
pub open spec fn spec_has_display(s: Seq<(String, DisplayData)>, name: Seq<char>) -> bool {
    exists|i: int| 0 <= i < s.len() && s[i].0@ == name
}

/// Saturating addition on counters.
pub open spec fn spec_sat_add(a: usize, b: usize) -> usize {
    if a + b <= usize::MAX {
        (a + b) as usize
    } else {
        usize::MAX
    }
}

/// The frame counter of entry `i` after a tick of `sent` frames for the
/// display called `name`.
pub open spec fn spec_counter_after(
    s: Seq<(String, DisplayData)>,
    name: Seq<char>,
    sent: usize,
    i: int,
) -> usize {
    if s[i].0@ == name {
        spec_sat_add(s[i].1.send_counter, sent)
    } else {
        s[i].1.send_counter
    }
}

/// Whether any display's counter, after the tick, reaches the
/// dynamic-screen threshold.
pub open spec fn spec_any_dynamic(s: Seq<(String, DisplayData)>, name: Seq<char>, sent: usize) -> bool {
    exists|i: int| 0 <= i < s.len() && spec_counter_after(s, name, sent, i) >= DYNAMIC_SCREEN_FRAMES
}

/// Whether enough time has passed since the last ratio adjustment; a
/// controller that never adjusted is ready at once.
pub open spec fn spec_interval_ready(t: Option<u64>, now: u64) -> bool {
    match t {
        None => true,
        Some(v) => now - v >= ADJUST_RATIO_INTERVAL_MS,
    }
}

/// Whether the ramp-up window after the most recent viewer join is
/// still open.
pub open spec fn spec_ramp_active(t: Option<u64>, now: u64) -> bool {
    match t {
        Some(v) => now - v < NEW_USER_RAMP_MS,
        None => false,
    }
}

/// Frame-rate floor granted to a quality preference with the given
/// nominal ratio: richer tiers tolerate a lower floor.
pub open spec fn spec_min_fps_floor(target_ratio: u32) -> u32 {
    if target_ratio >= BR_BEST {
        8
    } else if target_ratio >= BR_BALANCED {
        10
    } else {
        12
    }
}

/// Per-viewer frame-rate suggestion from health tier and trend:
/// cautious additive growth on a healthy network unless the delay is
/// rising, holding steady when fair, a proportional slowdown against
/// the reference delay when poor, and an aggressive cap at or below the
/// tier floor when worse; the result is clamped to the global floor and
/// the viewers' shared cap.
pub open spec fn spec_suggested_fps(
    health: NetworkHealth,
    trend: DelayTrend,
    cur: u32,
    min_fps: u32,
    highest: u32,
    smoothed: u32,
) -> u32
    recommends
        smoothed >= 1,
{
    let cand: int = match health {
        NetworkHealth::Excellent => if trend == DelayTrend::Increasing {
            cur as int
        } else if cur + 5 <= highest {
            cur as int + 5
        } else {
            highest as int
        },
        NetworkHealth::Good => if trend == DelayTrend::Increasing {
            cur as int
        } else if cur + 1 <= highest {
            cur as int + 1
        } else {
            highest as int
        },
        NetworkHealth::Fair => if cur >= min_fps {
            cur as int
        } else {
            min_fps as int
        },
        NetworkHealth::Poor => {
            let d = (cur * (DELAY_THRESHOLD_MS as int) + smoothed - 1) / (smoothed as int);
            if d >= min_fps {
                d
            } else {
                min_fps as int
            }
        },
        NetworkHealth::Bad | NetworkHealth::Critical => {
            let d = ((DELAY_THRESHOLD_MS as int) * min_fps) / (smoothed as int);
            if d <= min_fps {
                d
            } else {
                min_fps as int
            }
        },
    };
    (if cand < MIN_FPS {
        MIN_FPS as int
    } else if cand > highest {
        highest as int
    } else {
        cand
    }) as u32
}

/// The shared frame rate after a recomputation: the minimum suggestion
/// across viewers (the initial rate without one), capped near the floor
/// when a viewer is response-delayed, capped at the initial rate during
/// the ramp-up window, and clamped to the viewers' shared range.
pub open spec fn spec_global_fps(
    users: Seq<(i32, UserData)>,
    new_user_ms: Option<u64>,
    now: u64,
) -> u32 {
    let base: int = match spec_min_suggestion(users) {
        None => INIT_FPS as int,
        Some(v) => v as int,
    };
    let capped: int = if spec_any_response_delayed(users) && base > MIN_FPS + 2 {
        MIN_FPS as int + 2
    } else {
        base
    };
    let ramped: int = if spec_ramp_active(new_user_ms, now) && capped > INIT_FPS {
        INIT_FPS as int
    } else {
        capped
    };
    let hi = spec_highest_fps(users);
    (if ramped < MIN_FPS {
        MIN_FPS as int
    } else if ramped > hi {
        hi as int
    } else {
        ramped
    }) as u32
}

/// Multiplicative ratio step for a health tier, in permille: growth on
/// a healthy network (more for dynamic content), decay on a degraded
/// one.
pub open spec fn spec_ratio_multiplier(h: NetworkHealth, dynamic_screen: bool) -> u32 {
    match h {
        NetworkHealth::Excellent => if dynamic_screen {
            1200
        } else {
            1100
        },
        NetworkHealth::Good => if dynamic_screen {
            1150
        } else {
            1050
        },
        NetworkHealth::Fair => if dynamic_screen {
            1020
        } else {
            1000
        },
        NetworkHealth::Poor => 920,
        NetworkHealth::Bad => 850,
        NetworkHealth::Critical => 750,
    }
}

/// Lower ratio bound for a quality preference, in permille: a fraction
/// of the tier's nominal ratio, tightened when the achieved bitrate is
/// already high, and never below the global floors.
pub open spec fn spec_ratio_min_bound(q: Quality, bitrate: u32) -> u32 {
    match q {
        Quality::Best => {
            let m0 = (BR_BEST * 2 / 5) as u32;
            let m1 = if bitrate > HIGH_BITRATE_KBPS && m0 > 1000 {
                1000u32
            } else {
                m0
            };
            if m1 < BR_MIN {
                BR_MIN
            } else {
                m1
            }
        },
        Quality::Balanced => {
            let m0 = if BR_BALANCED / 2 < 400 {
                (BR_BALANCED / 2) as u32
            } else {
                400u32
            };
            let m1 = if bitrate > HIGH_BITRATE_KBPS && m0 > 500 {
                500u32
            } else {
                m0
            };
            if m1 < BR_MIN_HIGH_RESOLUTION {
                BR_MIN_HIGH_RESOLUTION
            } else {
                m1
            }
        },
        Quality::Low => BR_MIN_HIGH_RESOLUTION,
        Quality::Custom(_) => BR_MIN_HIGH_RESOLUTION,
    }
}

/// The ratio after one adjustment pass: the current ratio stepped by
/// the worst health tier's multiplier, capped at one-and-a-half times
/// the current ratio, then clamped to the preference's bounds.
pub open spec fn spec_next_ratio(
    cur: u32,
    worst: NetworkHealth,
    dynamic_screen: bool,
    min_bound: u32,
    max_bound: u32,
) -> u32 {
    let stepped = cur * spec_ratio_multiplier(worst, dynamic_screen) / 1000;
    let guard = cur * 3 / 2;
    let v = if stepped > guard {
        guard
    } else {
        stepped
    };
    (if v < min_bound {
        min_bound as int
    } else if v > max_bound {
        max_bound as int
    } else {
        v
    }) as u32
}

impl VideoQoS {
    /// Registers a display under `name` with fresh bookkeeping,
    /// replacing any bookkeeping already stored for that name.
    pub fn new_display(&mut self, video_service_name: String)
        requires
            old(self).wf(),
        ensures
            final(self).wf(),
            spec_has_display(old(self).displays@, video_service_name@) ==> exists|j: int|
                0 <= j < old(self).displays@.len() && old(self).displays@[j].0@
                    == video_service_name@ && final(self).displays@ == old(self).displays@.update(
                    j,
                    (old(self).displays@[j].0, (DisplayData {
                        send_counter: 0,
                        support_changing_quality: false,
                    })),
                ),
            !spec_has_display(old(self).displays@, video_service_name@) ==> final(self).displays@
                == old(self).displays@.push(
                (video_service_name, (DisplayData {
                    send_counter: 0,
                    support_changing_quality: false,
                })),
            ),
            final(self).fps == old(self).fps,
            final(self).ratio == old(self).ratio,
            final(self).users == old(self).users,
            final(self).bitrate_store == old(self).bitrate_store,
            final(self).adjust_ratio_ms == old(self).adjust_ratio_ms,
            final(self).abr_config == old(self).abr_config,
            final(self).new_user_ms == old(self).new_user_ms,
            final(self).ratio_history == old(self).ratio_history,
            final(self).fps_history == old(self).fps_history,
    {
        let ghost s = self.displays@;
        let idx = find_display_index(&self.displays, &video_service_name);
        match idx {
            Some(j) => {
                let e = self.displays.remove(j);
                self.displays.insert(j, (e.0, DisplayData::new()));
                proof {
                    assert(self.displays@ =~= s.update(
                        j as int,
                        (s[j as int].0, self.displays@[j as int].1),
                    ));
                    assert(forall|i: int|
                        0 <= i < s.len() ==> self.displays@[i].0 == s[i].0);
                }
            },
            None => {
                self.displays.push((video_service_name, DisplayData::new()));
                proof {
                    assert(forall|i: int| 0 <= i < s.len() ==> self.displays@[i] == s[i]);
                }
            },
        }
    }

    /// Forgets the display called `name`; unknown names are a no-op.
    pub fn remove_display(&mut self, video_service_name: &String)
        requires
            old(self).wf(),
        ensures
            final(self).wf(),
            spec_has_display(old(self).displays@, video_service_name@) ==> exists|j: int|
                0 <= j < old(self).displays@.len() && old(self).displays@[j].0@
                    == video_service_name@ && final(self).displays@ == old(self).displays@.remove(
                    j,
                ),
            !spec_has_display(old(self).displays@, video_service_name@) ==> final(self).displays@
                == old(self).displays@,
            final(self).fps == old(self).fps,
            final(self).ratio == old(self).ratio,
            final(self).users == old(self).users,
            final(self).bitrate_store == old(self).bitrate_store,
            final(self).adjust_ratio_ms == old(self).adjust_ratio_ms,
            final(self).abr_config == old(self).abr_config,
            final(self).new_user_ms == old(self).new_user_ms,
            final(self).ratio_history == old(self).ratio_history,
            final(self).fps_history == old(self).fps_history,
    {
        let ghost s = self.displays@;
        let idx = find_display_index(&self.displays, video_service_name);
        match idx {
            Some(j) => {
                let _prev = self.displays.remove(j);
                proof {
                    let t = self.displays@;
                    assert(forall|i: int| 0 <= i < j ==> t[i] == s[i]);
                    assert(forall|i: int| j <= i < t.len() ==> t[i] == s[i + 1]);
                    assert(unique_display_names(t));
                }
            },
            None => {},
        }
    }

    /// Records whether the display called `name` supports changing
    /// quality at run time; unknown names are a no-op.
    pub fn set_support_changing_quality(&mut self, video_service_name: &String, support: bool)
        requires
            old(self).wf(),
        ensures
            final(self).wf(),
            final(self).displays@.len() == old(self).displays@.len(),
            forall|i: int|
                0 <= i < old(self).displays@.len() ==> (#[trigger] final(self).displays@[i]).0
                    == old(self).displays@[i].0,
            forall|i: int|
                0 <= i < old(self).displays@.len() && old(self).displays@[i].0@
                    != video_service_name@ ==> (#[trigger] final(self).displays@[i]).1 == old(
                    self,
                ).displays@[i].1,
            forall|i: int|
                0 <= i < old(self).displays@.len() && old(self).displays@[i].0@
                    == video_service_name@ ==> (#[trigger] final(self).displays@[i]).1 == (
                DisplayData {
                    support_changing_quality: support,
                    ..old(self).displays@[i].1
                }),
            final(self).fps == old(self).fps,
            final(self).ratio == old(self).ratio,
            final(self).users == old(self).users,
            final(self).bitrate_store == old(self).bitrate_store,
            final(self).adjust_ratio_ms == old(self).adjust_ratio_ms,
            final(self).abr_config == old(self).abr_config,
            final(self).new_user_ms == old(self).new_user_ms,
            final(self).ratio_history == old(self).ratio_history,
            final(self).fps_history == old(self).fps_history,
    {
        let ghost s = self.displays@;
        let idx = find_display_index(&self.displays, video_service_name);
        match idx {
            Some(j) => {
                let mut e = self.displays.remove(j);
                e.1.support_changing_quality = support;
                let ghost d = e.1;
                self.displays.insert(j, e);
                proof {
                    assert(self.displays@ =~= s.update(j as int, (s[j as int].0, d)));
                    assert(forall|i: int|
                        0 <= i < s.len() && i != j ==> self.displays@[i] == s[i]);
                }
            },
            None => {},
        }
    }

    /// Recomputes the shared frame rate from the viewers' suggestions,
    /// recording the previous value in the diagnostic history.
    fn adjust_fps(&mut self, now_ms: u64)
        requires
            old(self).wf(),
            old(self).times_le(now_ms),
        ensures
            final(self).wf(),
            final(self).fps == spec_global_fps(old(self).users@, old(self).new_user_ms, now_ms),
            final(self).fps_history@ == spec_fifo_push(
                old(self).fps_history@,
                old(self).fps,
                DIAG_HISTORY_CAP as int,
            ),
            final(self).ratio == old(self).ratio,
            final(self).users == old(self).users,
            final(self).displays == old(self).displays,
            final(self).bitrate_store == old(self).bitrate_store,
            final(self).adjust_ratio_ms == old(self).adjust_ratio_ms,
            final(self).abr_config == old(self).abr_config,
            final(self).new_user_ms == old(self).new_user_ms,
            final(self).ratio_history == old(self).ratio_history,
    {
        proof {
            lemma_fifo_push_len(self.fps_history@, self.fps, DIAG_HISTORY_CAP as int);
        }
        let cur = self.fps;
        fifo_push(&mut self.fps_history, cur, DIAG_HISTORY_CAP);

        let mut fps = match min_suggestion(&self.users) {
            None => INIT_FPS,
            Some(v) => v,
        };
        if any_response_delayed(&self.users) && fps > MIN_FPS + 2 {
            fps = MIN_FPS + 2;
        }
        let ramp = match self.new_user_ms {
            Some(t) => now_ms - t < NEW_USER_RAMP_MS,
            None => false,
        };
        if ramp && fps > INIT_FPS {
            fps = INIT_FPS;
        }
        let hi = self.highest_fps();
        self.fps = if fps < MIN_FPS {
            MIN_FPS
        } else if fps > hi {
            hi
        } else {
            fps
        };
    }

    /// One bitrate-ratio adjustment pass: a no-op unless adaptive
    /// bitrate is eligible; otherwise steps the ratio by the worst
    /// health tier across viewers, guards against overshooting by more
    /// than half, clamps to the effective preference's bounds, and
    /// records the adjustment time.
    fn adjust_ratio(&mut self, dynamic_screen: bool, now_ms: u64)
        requires
            old(self).wf(),
        ensures
            final(self).wf(),
            !old(self).spec_in_vbr() ==> *final(self) == *old(self),
            old(self).spec_in_vbr() ==> {
                &&& final(self).ratio == spec_next_ratio(
                    old(self).ratio,
                    spec_worst_health(old(self).users@),
                    dynamic_screen,
                    spec_ratio_min_bound(
                        spec_latest_quality(old(self).users@),
                        old(self).bitrate_store,
                    ),
                    spec_latest_quality(old(self).users@).spec_ratio(),
                )
                &&& final(self).ratio_history@ == spec_fifo_push(
                    old(self).ratio_history@,
                    old(self).ratio,
                    DIAG_HISTORY_CAP as int,
                )
                &&& final(self).adjust_ratio_ms == Some(now_ms)
            },
            final(self).fps == old(self).fps,
            final(self).users == old(self).users,
            final(self).displays == old(self).displays,
            final(self).bitrate_store == old(self).bitrate_store,
            final(self).abr_config == old(self).abr_config,
            final(self).new_user_ms == old(self).new_user_ms,
            final(self).fps_history == old(self).fps_history,
    {
        if !self.in_vbr_state() {
            return;
        }

        let worst = worst_health(&self.users);
        let tq = self.latest_quality();
        let target_ratio = tq.ratio();
        let cur = self.ratio;

        let min_bound = match tq {
            Quality::Best => {
                let mut m = BR_BEST * 2 / 5;
                if self.bitrate_store > HIGH_BITRATE_KBPS && m > 1000 {
                    m = 1000;
                }
                if m < BR_MIN {
                    m = BR_MIN;
                }
                m
            },
            Quality::Balanced => {
                let mut m = if BR_BALANCED / 2 < 400 {
                    BR_BALANCED / 2
                } else {
                    400
                };
                if self.bitrate_store > HIGH_BITRATE_KBPS && m > 500 {
                    m = 500;
                }
                if m < BR_MIN_HIGH_RESOLUTION {
                    m = BR_MIN_HIGH_RESOLUTION;
                }
                m
            },
            Quality::Low => BR_MIN_HIGH_RESOLUTION,
            Quality::Custom(_) => BR_MIN_HIGH_RESOLUTION,
        };
        let max_bound = target_ratio;

        let mult = match worst {
            NetworkHealth::Excellent => if dynamic_screen {
                1200
            } else {
                1100
            },
            NetworkHealth::Good => if dynamic_screen {
                1150
            } else {
                1050
            },
            NetworkHealth::Fair => if dynamic_screen {
                1020
            } else {
                1000
            },
            NetworkHealth::Poor => 920,
            NetworkHealth::Bad => 850,
            NetworkHealth::Critical => 750,
        };

        proof {
            assert((cur as int) * (mult as int) <= 40000 * 1200) by (nonlinear_arith)
                requires
                    cur <= 40000,
                    mult <= 1200,
            ;
        }
        let stepped = ((cur as u64) * (mult as u64) / 1000) as u32;
        let guard = cur * 3 / 2;
        let v = if stepped > guard {
            guard
        } else {
            stepped
        };

        proof {
            lemma_fifo_push_len(self.ratio_history@, cur, DIAG_HISTORY_CAP as int);
            lemma_latest_quality_ratio_in_range(self.users@);
        }
        fifo_push(&mut self.ratio_history, cur, DIAG_HISTORY_CAP);

        self.ratio = if v < min_bound {
            min_bound
        } else if v > max_bound {
            max_bound
        } else {
            v
        };
        self.adjust_ratio_ms = Some(now_ms);
    }
}

impl VideoQoS {
    /// Handles a delay report from viewer `id`: the sample (clamped to
    /// at least ten milliseconds) feeds the viewer's tracker, the
    /// viewer's frame-rate suggestion is recomputed from its new health
    /// tier and trend, and the shared frame rate is recomputed. The
    /// viewer's first-ever suggestion additionally triggers an immediate
    /// ratio adjustment when the caller allows it (some platforms do
    /// not). An unknown viewer only recomputes the shared frame rate.
    pub fn user_network_delay(&mut self, id: i32, delay: u32, now_ms: u64, allow_instant_ratio: bool)
        requires
            old(self).wf(),
            old(self).times_le(now_ms),
        ensures
            final(self).wf(),
            final(self).users@.len() == old(self).users@.len(),
            final(self).abr_config == old(self).abr_config,
            final(self).bitrate_store == old(self).bitrate_store,
            final(self).new_user_ms == old(self).new_user_ms,
            final(self).displays == old(self).displays,
            forall|k: i32|
                k != id ==> spec_user_of(final(self).users@, k) == spec_user_of(
                    old(self).users@,
                    k,
                ),
            spec_user_of(old(self).users@, id) is None ==> final(self).users@ == old(self).users@,
            (match spec_user_of(old(self).users@, id) {
                None => true,
                Some(u) => spec_user_of(final(self).users@, id) matches Some(u2) && {
                    let d = if delay < 10 { 10u32 } else { delay };
                    let hist = u.delay.spec_history_after(d);
                    let health = match spec_smoothed(hist) {
                        Some(x) => NetworkHealth::spec_from_delay(x),
                        None => NetworkHealth::Fair,
                    };
                    let sm = match spec_smoothed(hist) {
                        Some(x) => x,
                        None => d,
                    };
                    &&& u2.custom_fps == u.custom_fps
                    &&& u2.auto_adjust_fps == u.auto_adjust_fps
                    &&& u2.quality == u.quality
                    &&& u2.record == u.record
                    &&& UserDelay::spec_sampled(u.delay, u2.delay, d)
                    &&& u2.delay.response_delayed == u.delay.response_delayed
                    &&& u2.delay.fps == Some(
                        spec_suggested_fps(
                            health,
                            spec_trend(hist),
                            old(self).fps,
                            spec_min_fps_floor(spec_latest_quality(old(self).users@).spec_ratio()),
                            spec_highest_fps(old(self).users@),
                            sm,
                        ),
                    )
                },
            }),
            final(self).fps == spec_global_fps(
                final(self).users@,
                old(self).new_user_ms,
                now_ms,
            ),
            final(self).fps_history@ == spec_fifo_push(
                old(self).fps_history@,
                old(self).fps,
                DIAG_HISTORY_CAP as int,
            ),
            ({
                let first = match spec_user_of(old(self).users@, id) {
                    Some(u) => u.delay.fps is None,
                    None => false,
                };
                if first && allow_instant_ratio && old(self).spec_in_vbr() {
                    &&& final(self).ratio == spec_next_ratio(
                        old(self).ratio,
                        spec_worst_health(final(self).users@),
                        false,
                        spec_ratio_min_bound(
                            spec_latest_quality(final(self).users@),
                            old(self).bitrate_store,
                        ),
                        spec_latest_quality(final(self).users@).spec_ratio(),
                    )
                    &&& final(self).ratio_history@ == spec_fifo_push(
                        old(self).ratio_history@,
                        old(self).ratio,
                        DIAG_HISTORY_CAP as int,
                    )
                    &&& final(self).adjust_ratio_ms == Some(now_ms)
                } else {
                    &&& final(self).ratio == old(self).ratio
                    &&& final(self).ratio_history == old(self).ratio_history
                    &&& final(self).adjust_ratio_ms == old(self).adjust_ratio_ms
                }
            }),
    {
        let highest = self.highest_fps();
        let tq = self.latest_quality();
        let target_ratio = tq.ratio();
        let min_fps: u32 = if target_ratio >= BR_BEST {
            8
        } else if target_ratio >= BR_BALANCED {
            10
        } else {
            12
        };

        let mut first_decision = false;
        let ghost s = self.users@;
        let idx = find_user_index(&self.users, id);
        match idx {
            Some(j) => {
                let mut e = self.users.remove(j);
                let d = if delay < 10 { 10 } else { delay };
                e.1.delay.add_delay(d);

                let health = e.1.delay.network_health();
                let trend = e.1.delay.delay_trend;
                let sm = match e.1.delay.smoothed_delay {
                    Some(v) => v,
                    None => d,
                };
                let cur = self.fps;

                let cand: u32 = match health {
                    NetworkHealth::Excellent => {
                        if trend != DelayTrend::Increasing {
                            if cur + 5 <= highest {
                                cur + 5
                            } else {
                                highest
                            }
                        } else {
                            cur
                        }
                    },
                    NetworkHealth::Good => {
                        if trend != DelayTrend::Increasing {
                            if cur + 1 <= highest {
                                cur + 1
                            } else {
                                highest
                            }
                        } else {
                            cur
                        }
                    },
                    NetworkHealth::Fair => {
                        if cur >= min_fps {
                            cur
                        } else {
                            min_fps
                        }
                    },
                    NetworkHealth::Poor => {
                        proof {
                            // a poor tier puts the smoothed delay in the
                            // band from 150 to 300 milliseconds
                            assert(e.1.delay.smoothed_delay is Some);
                            assert(150 <= sm < 300);
                        }
                        let dv = (cur * DELAY_THRESHOLD_MS + sm - 1) / sm;
                        if dv >= min_fps {
                            dv
                        } else {
                            min_fps
                        }
                    },
                    NetworkHealth::Bad | NetworkHealth::Critical => {
                        proof {
                            assert(e.1.delay.smoothed_delay is Some);
                            assert(sm >= 300);
                        }
                        let dd = DELAY_THRESHOLD_MS * min_fps;
                        let safe = dd / sm;
                        if safe <= min_fps {
                            safe
                        } else {
                            min_fps
                        }
                    },
                };
                let c2 = if cand < MIN_FPS {
                    MIN_FPS
                } else if cand > highest {
                    highest
                } else {
                    cand
                };

                first_decision = e.1.delay.fps.is_none();
                e.1.delay.fps = Some(c2);
                let ghost dnew = e.1;
                self.users.insert(j, e);
                proof {
                    assert(self.users@ =~= s.update(j as int, (s[j as int].0, dnew)));
                    lemma_user_of_update(s, j as int, dnew);
                    lemma_user_of_index(s, j as int);
                }
            },
            None => {
                proof {
                    lemma_user_of_absent(s, id);
                }
            },
        }

        self.adjust_fps(now_ms);
        if first_decision && allow_instant_ratio {
            self.adjust_ratio(false, now_ms);
        }
    }

    /// Handles a response-time report from viewer `id`: a response over
    /// the threshold marks the viewer response-delayed, feeds the
    /// elapsed time as an extra pessimistic delay sample, and forces an
    /// immediate recomputation of the shared frame rate; a response
    /// within the threshold only clears the mark. An unknown viewer is
    /// a no-op.
    pub fn user_delay_response_elapsed(&mut self, id: i32, elapsed: u128, now_ms: u64)
        requires
            old(self).wf(),
            old(self).times_le(now_ms),
        ensures
            final(self).wf(),
            final(self).users@.len() == old(self).users@.len(),
            final(self).ratio == old(self).ratio,
            final(self).displays == old(self).displays,
            final(self).bitrate_store == old(self).bitrate_store,
            final(self).adjust_ratio_ms == old(self).adjust_ratio_ms,
            final(self).abr_config == old(self).abr_config,
            final(self).new_user_ms == old(self).new_user_ms,
            final(self).ratio_history == old(self).ratio_history,
            forall|k: i32|
                k != id ==> spec_user_of(final(self).users@, k) == spec_user_of(
                    old(self).users@,
                    k,
                ),
            spec_user_of(old(self).users@, id) is None ==> *final(self) == *old(self),
            (match spec_user_of(old(self).users@, id) {
                None => true,
                Some(u) => spec_user_of(final(self).users@, id) matches Some(u2) && {
                    let sample = if elapsed > u32::MAX as u128 {
                        u32::MAX
                    } else {
                        elapsed as u32
                    };
                    &&& u2.custom_fps == u.custom_fps
                    &&& u2.auto_adjust_fps == u.auto_adjust_fps
                    &&& u2.quality == u.quality
                    &&& u2.record == u.record
                    &&& u2.delay.response_delayed == (elapsed > RESPONSE_DELAY_MS)
                    &&& u2.delay.fps == u.delay.fps
                    &&& (if elapsed > RESPONSE_DELAY_MS {
                        UserDelay::spec_sampled(u.delay, u2.delay, sample)
                    } else {
                        u2.delay == (UserDelay { response_delayed: false, ..u.delay })
                    })
                },
            }),
            (match spec_user_of(old(self).users@, id) {
                None => true,
                Some(u) => if elapsed > RESPONSE_DELAY_MS {
                    &&& final(self).fps == spec_global_fps(
                        final(self).users@,
                        old(self).new_user_ms,
                        now_ms,
                    )
                    &&& final(self).fps_history@ == spec_fifo_push(
                        old(self).fps_history@,
                        old(self).fps,
                        DIAG_HISTORY_CAP as int,
                    )
                } else {
                    &&& final(self).fps == old(self).fps
                    &&& final(self).fps_history == old(self).fps_history
                },
            }),
    {
        let ghost s = self.users@;
        let idx = find_user_index(&self.users, id);
        match idx {
            Some(j) => {
                let mut e = self.users.remove(j);
                let delayed = elapsed > RESPONSE_DELAY_MS;
                e.1.delay.response_delayed = delayed;
                if delayed {
                    let sample = if elapsed > u32::MAX as u128 {
                        u32::MAX
                    } else {
                        elapsed as u32
                    };
                    e.1.delay.add_delay(sample);
                }
                let ghost dnew = e.1;
                self.users.insert(j, e);
                proof {
                    assert(self.users@ =~= s.update(j as int, (s[j as int].0, dnew)));
                    lemma_user_of_update(s, j as int, dnew);
                    lemma_user_of_index(s, j as int);
                }
                if delayed {
                    self.adjust_fps(now_ms);
                }
            },
            None => {
                proof {
                    lemma_user_of_absent(s, id);
                }
            },
        }
    }
}

impl VideoQoS {
    /// Handles one outbound frame batch of `send_counter` frames on the
    /// display called `name`: accumulates the counter (saturating),
    /// always recomputes the shared frame rate, and then either runs a
    /// ratio adjustment pass (when adaptive bitrate is eligible and the
    /// adjustment interval has elapsed, classifying dynamic content from
    /// the counters and resetting them) or, without adaptive bitrate,
    /// snaps the ratio to the effective preference.
    pub fn update_display_data(&mut self, video_service_name: &String, send_counter: usize, now_ms: u64)
        requires
            old(self).wf(),
            old(self).times_le(now_ms),
        ensures
            final(self).wf(),
            final(self).users == old(self).users,
            final(self).abr_config == old(self).abr_config,
            final(self).bitrate_store == old(self).bitrate_store,
            final(self).new_user_ms == old(self).new_user_ms,
            final(self).fps == spec_global_fps(old(self).users@, old(self).new_user_ms, now_ms),
            final(self).fps_history@ == spec_fifo_push(
                old(self).fps_history@,
                old(self).fps,
                DIAG_HISTORY_CAP as int,
            ),
            final(self).displays@.len() == old(self).displays@.len(),
            forall|i: int|
                0 <= i < old(self).displays@.len() ==> (#[trigger] final(self).displays@[i]).0
                    == old(self).displays@[i].0,
            forall|i: int|
                0 <= i < old(self).displays@.len() ==> (#[trigger] final(self).displays@[i]).1.support_changing_quality
                    == old(self).displays@[i].1.support_changing_quality,
            ({
                let ready = old(self).spec_in_vbr() && spec_interval_ready(
                    old(self).adjust_ratio_ms,
                    now_ms,
                );
                &&& (forall|i: int|
                    0 <= i < old(self).displays@.len() ==> (#[trigger] final(self).displays@[i]).1.send_counter == if ready {
                        0
                    } else {
                        spec_counter_after(
                            old(self).displays@,
                            video_service_name@,
                            send_counter,
                            i,
                        )
                    })
                &&& (if ready {
                    &&& final(self).ratio == spec_next_ratio(
                        old(self).ratio,
                        spec_worst_health(old(self).users@),
                        spec_any_dynamic(old(self).displays@, video_service_name@, send_counter),
                        spec_ratio_min_bound(
                            spec_latest_quality(old(self).users@),
                            old(self).bitrate_store,
                        ),
                        spec_latest_quality(old(self).users@).spec_ratio(),
                    )
                    &&& final(self).ratio_history@ == spec_fifo_push(
                        old(self).ratio_history@,
                        old(self).ratio,
                        DIAG_HISTORY_CAP as int,
                    )
                    &&& final(self).adjust_ratio_ms == Some(now_ms)
                } else if old(self).spec_in_vbr() {
                    &&& final(self).ratio == old(self).ratio
                    &&& final(self).ratio_history == old(self).ratio_history
                    &&& final(self).adjust_ratio_ms == old(self).adjust_ratio_ms
                } else {
                    &&& final(self).ratio == spec_latest_quality(old(self).users@).spec_ratio()
                    &&& final(self).ratio_history == old(self).ratio_history
                    &&& final(self).adjust_ratio_ms == old(self).adjust_ratio_ms
                })
            }),
    {
        let ghost d0 = self.displays@;
        let idx = find_display_index(&self.displays, video_service_name);
        match idx {
            Some(j) => {
                let mut e = self.displays.remove(j);
                let c = e.1.send_counter;
                e.1.send_counter = if c <= usize::MAX - send_counter {
                    c + send_counter
                } else {
                    usize::MAX
                };
                let ghost dn = e.1;
                self.displays.insert(j, e);
                proof {
                    assert(self.displays@ =~= d0.update(j as int, (d0[j as int].0, dn)));
                    assert(forall|i: int|
                        0 <= i < d0.len() && i != j ==> self.displays@[i] == d0[i]);
                    assert(forall|i: int|
                        0 <= i < d0.len() ==> (#[trigger] self.displays@[i]).1.send_counter
                            == spec_counter_after(d0, video_service_name@, send_counter, i));
                }
            },
            None => {
                proof {
                    assert(forall|i: int|
                        0 <= i < d0.len() ==> (#[trigger] self.displays@[i]).1.send_counter
                            == spec_counter_after(d0, video_service_name@, send_counter, i));
                }
            },
        }

        self.adjust_fps(now_ms);

        proof {
            // support flags were untouched, so eligibility is unchanged
            if old(self).spec_in_vbr() {
                assert forall|i: int| 0 <= i < self.displays@.len() implies (
                #[trigger] self.displays@[i]).1.support_changing_quality by {
                    assert(old(self).displays@[i].1.support_changing_quality);
                }
            }
            if self.spec_in_vbr() {
                assert forall|i: int| 0 <= i < old(self).displays@.len() implies (
                #[trigger] old(self).displays@[i]).1.support_changing_quality by {
                    assert(self.displays@[i].1.support_changing_quality);
                }
            }
            assert(self.spec_in_vbr() == old(self).spec_in_vbr());
        }

        let abr_enabled = self.in_vbr_state();
        if abr_enabled {
            let ready = match self.adjust_ratio_ms {
                None => true,
                Some(t) => now_ms - t >= ADJUST_RATIO_INTERVAL_MS,
            };
            if ready {
                // classify dynamic content from the accumulated counters
                let mut dynamic = false;
                let mut i: usize = 0;
                let ghost d1 = self.displays@;
                while i < self.displays.len()
                    invariant
                        i <= d1.len(),
                        self.displays@ == d1,
                        dynamic == exists|k: int|
                            0 <= k < i && d1[k].1.send_counter >= DYNAMIC_SCREEN_FRAMES,
                    decreases d1.len() - i,
                {
                    if self.displays[i].1.send_counter >= DYNAMIC_SCREEN_FRAMES {
                        dynamic = true;
                    }
                    i = i + 1;
                }
                proof {
                    assert(dynamic == spec_any_dynamic(d0, video_service_name@, send_counter));
                }

                // reset every counter
                let ghost pre = *self;
                let mut r: usize = 0;
                while r < self.displays.len()
                    invariant
                        r <= pre.displays@.len(),
                        self.displays@.len() == pre.displays@.len(),
                        forall|k: int|
                            0 <= k < pre.displays@.len() ==> (#[trigger] self.displays@[k]).0
                                == pre.displays@[k].0,
                        forall|k: int|
                            0 <= k < pre.displays@.len() ==> (
                            #[trigger] self.displays@[k]).1.support_changing_quality
                                == pre.displays@[k].1.support_changing_quality,
                        forall|k: int|
                            0 <= k < pre.displays@.len() ==> (
                            #[trigger] self.displays@[k]).1.send_counter == if k < r {
                                0usize
                            } else {
                                pre.displays@[k].1.send_counter
                            },
                        self.fps == pre.fps,
                        self.ratio == pre.ratio,
                        self.users == pre.users,
                        self.bitrate_store == pre.bitrate_store,
                        self.adjust_ratio_ms == pre.adjust_ratio_ms,
                        self.abr_config == pre.abr_config,
                        self.new_user_ms == pre.new_user_ms,
                        self.ratio_history == pre.ratio_history,
                        self.fps_history == pre.fps_history,
                    decreases pre.displays@.len() - r,
                {
                    let ghost dmid = self.displays@;
                    let mut e = self.displays.remove(r);
                    e.1.send_counter = 0;
                    let ghost dn = e.1;
                    self.displays.insert(r, e);
                    proof {
                        assert(self.displays@ =~= dmid.update(r as int, (dmid[r as int].0, dn)));
                    }
                    r = r + 1;
                }

                proof {
                    assert(unique_display_names(self.displays@)) by {
                        assert forall|a: int, b: int|
                            0 <= a < b < self.displays@.len() implies self.displays@[a].0@
                            != self.displays@[b].0@ by {
                            assert(self.displays@[a].0 == pre.displays@[a].0);
                            assert(self.displays@[b].0 == pre.displays@[b].0);
                        }
                    }
                    if old(self).spec_in_vbr() {
                        assert forall|i: int| 0 <= i < self.displays@.len() implies (
                        #[trigger] self.displays@[i]).1.support_changing_quality by {
                            assert(old(self).displays@[i].1.support_changing_quality);
                        }
                        assert(self.spec_in_vbr());
                    }
                }
                self.adjust_ratio(dynamic, now_ms);
            }
        } else {
            proof {
                lemma_latest_quality_ratio_in_range(self.users@);
            }
            self.ratio = self.latest_quality().ratio();
        }
    }
}

// ---------------------------------------------------------------------
// Laws
// ---------------------------------------------------------------------

/// A viewer whose contribution respects the global floor bounds the
/// minimum contribution from above.
pub proof fn lemma_min_contrib_le(s: Seq<(i32, UserData)>, j: int)
    requires
        0 <= j < s.len(),
        spec_user_fps(s[j].1) >= MIN_FPS,
    ensures
        spec_min_contrib(s) is Some,
        spec_min_contrib(s).unwrap() <= spec_user_fps(s[j].1),
    decreases s.len(),
{
    if j < s.len() - 1 {
        assert(s.drop_last()[j] == s[j]);
        lemma_min_contrib_le(s.drop_last(), j);
    }
}

/// A valid fixed frame-rate cap stored by any viewer is an effective
/// upper bound on the shared frame-rate cap, whatever the other viewers
/// request.
pub proof fn lemma_custom_fps_bounds_shared_cap(s: Seq<(i32, UserData)>, j: int, f: u32)
    requires
        forall|i: int| 0 <= i < s.len() ==> (#[trigger] s[i]).1.wf(),
        0 <= j < s.len(),
        s[j].1.custom_fps == Some(f),
        MIN_FPS <= f <= MAX_FPS,
    ensures
        spec_highest_fps(s) <= f,
{
    assert(spec_user_fps(s[j].1) >= MIN_FPS && spec_user_fps(s[j].1) <= f);
    lemma_min_contrib_le(s, j);
}

/// When every stored preference is older than `t`, the aggregation
/// cannot pick a preference timestamped `t` or later.
pub proof fn lemma_latest_entry_older(s: Seq<(i32, UserData)>, t: i64)
    requires
        forall|k: int|
            0 <= k < s.len() ==> (match (#[trigger] s[k]).1.quality {
                Some(e) => e.0 < t,
                None => true,
            }),
    ensures
        spec_latest_entry(s) is Some ==> spec_latest_entry(s).unwrap().0 < t,
{
    if spec_latest_entry(s) is Some {
        lemma_latest_entry_member(s);
    }
}

/// The effective preference is the most recently timestamped one,
/// independent of where in the session list its viewer is stored.
pub proof fn lemma_latest_quality_most_recent(s: Seq<(i32, UserData)>, j: int, t: i64, q: Quality)
    requires
        0 <= j < s.len(),
        s[j].1.quality == Some((t, q)),
        forall|k: int|
            0 <= k < s.len() && k != j ==> (match (#[trigger] s[k]).1.quality {
                Some(e) => e.0 < t,
                None => true,
            }),
    ensures
        spec_latest_entry(s) == Some((t, q)),
        spec_latest_quality(s) == q,
    decreases s.len(),
{
    if j == s.len() - 1 {
        assert(forall|k: int|
            0 <= k < s.drop_last().len() ==> (match (#[trigger] s.drop_last()[k]).1.quality {
                Some(e) => e.0 < t,
                None => true,
            }));
        lemma_latest_entry_older(s.drop_last(), t);
    } else {
        assert(s.drop_last()[j] == s[j]);
        lemma_latest_quality_most_recent(s.drop_last(), j, t, q);
    }
}

/// Once a viewer's health tier is poor or worse, its frame-rate
/// suggestion does not exceed the current shared rate, provided that
/// rate already respects the tier floor.
pub proof fn lemma_degraded_suggestion_non_increasing(
    trend: DelayTrend,
    cur: u32,
    min_fps: u32,
    highest: u32,
    smoothed: u32,
)
    requires
        NetworkHealth::spec_from_delay(smoothed).severity() >= 3,
        MIN_FPS <= min_fps <= cur,
    ensures
        spec_suggested_fps(
            NetworkHealth::spec_from_delay(smoothed),
            trend,
            cur,
            min_fps,
            highest,
            smoothed,
        ) <= cur,
{
    let h = NetworkHealth::spec_from_delay(smoothed);
    assert(smoothed >= 150);
    if h == NetworkHealth::Poor {
        let d = (cur * (DELAY_THRESHOLD_MS as int) + smoothed - 1) / (smoothed as int);
        assert(d <= cur) by (nonlinear_arith)
            requires
                smoothed >= 150,
                d == (cur * 150 + smoothed - 1) / (smoothed as int),
        ;
    } else {
        let d = ((DELAY_THRESHOLD_MS as int) * min_fps) / (smoothed as int);
        assert(d <= min_fps) by (nonlinear_arith)
            requires
                smoothed >= 150,
                d == (150 * min_fps) / (smoothed as int),
        ;
    }
}

/// The lower ratio bound granted to any preference never exceeds 600
/// permille.
pub proof fn lemma_ratio_min_bound_le(q: Quality, bitrate: u32)
    ensures
        spec_ratio_min_bound(q, bitrate) <= 600,
{
}

/// One adjustment pass never raises the ratio beyond one-and-a-half
/// times its previous value, whatever multiplier the health tier
/// prescribes, as long as the preference's lower bound does not itself
/// force more.
pub proof fn lemma_ratio_overshoot_guard(
    cur: u32,
    worst: NetworkHealth,
    dynamic_screen: bool,
    min_bound: u32,
    max_bound: u32,
)
    requires
        min_bound <= cur * 3 / 2,
    ensures
        spec_next_ratio(cur, worst, dynamic_screen, min_bound, max_bound) <= cur * 3 / 2,
{
}

/// One adjustment pass from any ratio of at least 400 permille stays
/// within one-and-a-half times the previous value; in particular a pass
/// from a ratio of one under an excellent tier's 1.20 multiplier stays
/// at or below 1.5.
pub proof fn lemma_single_pass_overshoot(
    cur: u32,
    worst: NetworkHealth,
    dynamic_screen: bool,
    q: Quality,
    bitrate: u32,
)
    requires
        cur >= 400,
    ensures
        spec_next_ratio(cur, worst, dynamic_screen, spec_ratio_min_bound(q, bitrate), q.spec_ratio())
            <= cur * 3 / 2,
{
    lemma_ratio_min_bound_le(q, bitrate);
    lemma_ratio_overshoot_guard(cur, worst, dynamic_screen, spec_ratio_min_bound(q, bitrate), q.spec_ratio());
}

impl Default for VideoQoS {
    /// A freshly constructed controller in its default configuration.
    fn default() -> (r: Self)
        ensures
            r.is_default(),
            r.wf(),
    {
        VideoQoS {
            fps: FPS,
            ratio: BR_BALANCED,
            users: Vec::new(),
            displays: Vec::new(),
            bitrate_store: 0,
            adjust_ratio_ms: None,
            abr_config: true,
            new_user_ms: None,
            ratio_history: Vec::new(),
            fps_history: Vec::new(),
        }
    }
}

} // verus!
