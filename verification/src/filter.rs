//! The build-time selection mechanism: from an event-name list and an
//! optional minimum-level token it computes the set of feature markers that
//! decide, per log call site, whether that call site is enabled at all.
//!
//! A call site is enabled only if both its event marker and its level marker
//! are present. A missing or unparseable minimum level enables no level
//! markers at all; it never fails the build.

use crate::level::spec_from_name;
use crate::level::spec_from_rank;
use crate::level::spec_rank;
use crate::level::LogLevel;
use crate::level::NUM_LEVELS;
use crate::text::str_eq;
use vstd::prelude::*;

verus! {

/// The whitespace characters stripped from the ends of an event-list entry.
pub open spec fn is_space(c: char) -> bool {
    c == ' ' || c == '\t' || c == '\n' || c == '\r'
}

/// `s` without its leading whitespace.
pub open spec fn trim_front(s: Seq<char>) -> Seq<char>
    decreases s.len(),
{
    if s.len() > 0 && is_space(s[0]) {
        trim_front(s.skip(1))
    } else {
        s
    }
}

/// `s` without its trailing whitespace.
pub open spec fn trim_back(s: Seq<char>) -> Seq<char>
    decreases s.len(),
{
    if s.len() > 0 && is_space(s.last()) {
        trim_back(s.drop_last())
    } else {
        s
    }
}

/// `s` without its surrounding whitespace.
pub open spec fn trimmed(s: Seq<char>) -> Seq<char> {
    trim_back(trim_front(s))
}

/// `[a, b)` is a maximal comma-free run of `s`: it is delimited by the ends
/// of `s` or by commas, and holds no comma itself.
pub open spec fn is_segment(s: Seq<char>, a: int, b: int) -> bool {
    &&& 0 <= a <= b <= s.len()
    &&& (a == 0 || s[a - 1] == ',')
    &&& (b == s.len() || s[b] == ',')
    &&& forall|j: int| a <= j < b ==> s[j] != ','
}

/// The event markers of a configuration: every comma-separated entry,
/// trimmed of surrounding whitespace, entries that trim to nothing dropped.
/// Order and duplicates are irrelevant; marker emission is idempotent.
pub open spec fn event_markers(cfg: Seq<char>) -> Set<Seq<char>> {
    Set::new(
        |t: Seq<char>|
            t.len() > 0 && exists|a: int, b: int|
                #[trigger] is_segment(cfg, a, b) && trimmed(cfg.subrange(a, b)) == t,
    )
}

/// A decimal digit.
pub open spec fn is_digit(c: char) -> bool {
    48 <= c as u32 <= 57
}

/// The value of a string of decimal digits.
pub open spec fn digits_val(s: Seq<char>) -> int
    decreases s.len(),
{
    if s.len() == 0 {
        0
    } else {
        digits_val(s.drop_last()) * 10 + (s.last() as u32 - 48)
    }
}

/// Whether `s` is a nonempty string of decimal digits.
pub open spec fn all_digits(s: Seq<char>) -> bool {
    s.len() > 0 && forall|i: int| 0 <= i < s.len() ==> is_digit(#[trigger] s[i])
}

/// The minimum-level token: a canonical level name, or the decimal numeric
/// rank of a level; anything else is refused.
pub open spec fn spec_parse_min_level(s: Seq<char>) -> Option<LogLevel> {
    if spec_from_name(s) is Ok {
        Some(spec_from_name(s)->Ok_0)
    } else if all_digits(s) && digits_val(s) < NUM_LEVELS {
        Some(spec_from_rank(digits_val(s)))
    } else {
        None
    }
}

/// The level-cfg input as a mathematical value: absent, or the token's
/// characters.
pub open spec fn spec_level_cfg(cfg: Option<&str>) -> Option<Seq<char>> {
    match cfg {
        None => None,
        Some(s) => Some(s@),
    }
}

/// The level markers of a configuration: one marker per real level at or
/// above the parsed minimum, up to and including the most severe level; an
/// absent or unparseable minimum enables none.
pub open spec fn level_markers(cfg: Option<Seq<char>>) -> Set<LogLevel> {
    match cfg {
        None => Set::empty(),
        Some(s) => match spec_parse_min_level(s) {
            None => Set::empty(),
            Some(min) => Set::new(
                |l: LogLevel| spec_rank(min) <= spec_rank(l) && l != LogLevel::Silent,
            ),
        },
    }
}

/// Stripping leading whitespace is skipping up to the first non-space.
proof fn lemma_trim_front_skip(s: Seq<char>, k: int)
    requires
        0 <= k <= s.len(),
        forall|j: int| 0 <= j < k ==> is_space(#[trigger] s[j]),
        k == s.len() || !is_space(s[k]),
    ensures
        trim_front(s) == s.skip(k),
    decreases k,
{
    if k == 0 {
        assert(s.skip(0) =~= s);
    } else {
        lemma_trim_front_skip(s.skip(1), k - 1);
        assert(s.skip(1).skip(k - 1) =~= s.skip(k));
    }
}

/// Stripping trailing whitespace is taking up to the last non-space.
proof fn lemma_trim_back_take(s: Seq<char>, k: int)
    requires
        0 <= k <= s.len(),
        forall|j: int| k <= j < s.len() ==> is_space(#[trigger] s[j]),
        k == 0 || !is_space(s[k - 1]),
    ensures
        trim_back(s) == s.take(k),
    decreases s.len() - k,
{
    if k == s.len() {
        assert(s.take(k) =~= s);
    } else {
        lemma_trim_back_take(s.drop_last(), k);
        assert(s.drop_last().take(k) =~= s.take(k));
    }
}

/// The index of the first non-space at or after `start`, up to `end`.
fn skip_spaces_forward(cfg: &str, start: usize, end: usize) -> (a: usize)
    requires
        start <= end,
        end as int <= cfg@.len(),
    ensures
        start <= a <= end,
        forall|j: int| start <= j < a ==> is_space(#[trigger] cfg@[j]),
        a == end || !is_space(cfg@[a as int]),
{
    let mut a: usize = start;
    while a < end
        invariant
            start <= a <= end,
            end as int <= cfg@.len(),
            forall|j: int| start <= j < a ==> is_space(#[trigger] cfg@[j]),
        decreases end - a,
    {
        if !is_space_char(cfg.get_char(a)) {
            return a;
        }
        a += 1;
    }
    end
}

/// The index one past the last non-space in `[from, end)`.
fn skip_spaces_backward(cfg: &str, from: usize, end: usize) -> (b: usize)
    requires
        from <= end,
        end as int <= cfg@.len(),
    ensures
        from <= b <= end,
        forall|j: int| b <= j < end ==> is_space(#[trigger] cfg@[j]),
        b == from || !is_space(cfg@[b as int - 1]),
{
    let mut b: usize = end;
    while b > from
        invariant
            from <= b <= end,
            end as int <= cfg@.len(),
            forall|j: int| b <= j < end ==> is_space(#[trigger] cfg@[j]),
        decreases b,
    {
        if !is_space_char(cfg.get_char(b - 1)) {
            return b;
        }
        b -= 1;
    }
    from
}

/// Whether `c` is whitespace that trimming strips.
fn is_space_char(c: char) -> (r: bool)
    ensures
        r == is_space(c),
{
    c == ' ' || c == '\t' || c == '\n' || c == '\r'
}

/// Trim the entry `cfg[start..end]` and append it to `out`, unless it trims
/// to nothing.
fn push_trimmed_entry(cfg: &str, start: usize, end: usize, out: &mut Vec<String>)
    requires
        start <= end,
        end as int <= cfg@.len(),
    ensures
        trimmed(cfg@.subrange(start as int, end as int)).len() == 0 ==> final(out)@ == old(out)@,
        trimmed(cfg@.subrange(start as int, end as int)).len() > 0 ==> {
            &&& final(out)@.len() == old(out)@.len() + 1
            &&& forall|k: int| 0 <= k < old(out)@.len() ==> final(out)@[k] == old(out)@[k]
            &&& final(out)@[old(out)@.len() as int]@ == trimmed(
                cfg@.subrange(start as int, end as int),
            )
        },
{
    let a = skip_spaces_forward(cfg, start, end);
    let b = skip_spaces_backward(cfg, a, end);
    proof {
        let seg = cfg@.subrange(start as int, end as int);
        lemma_trim_front_skip(seg, a - start);
        assert(seg.skip(a - start) =~= cfg@.subrange(a as int, end as int));
        lemma_trim_back_take(cfg@.subrange(a as int, end as int), b - a);
        assert(cfg@.subrange(a as int, end as int).take(b - a) =~= cfg@.subrange(
            a as int,
            b as int,
        ));
        assert(trimmed(seg) == cfg@.subrange(a as int, b as int));
    }
    if a < b {
        let entry = cfg.substring_char(a, b).to_owned();
        out.push(entry);
    }
}

/// The comma-separated event-name entries of `cfg`, each trimmed of
/// surrounding whitespace, entries that trim to nothing dropped. The result
/// holds exactly the event markers of `cfg`.
pub fn parse_event_list(cfg: &str) -> (r: Vec<String>)
    ensures
        forall|k: int| 0 <= k < r@.len() ==> event_markers(cfg@).contains(#[trigger] r@[k]@),
        forall|t: Seq<char>|
            #[trigger] event_markers(cfg@).contains(t) ==> exists|k: int|
                0 <= k < r@.len() && r@[k]@ == t,
{
    let len = cfg.unicode_len();
    let mut out: Vec<String> = Vec::new();
    let mut start: usize = 0;
    let mut i: usize = 0;
    while i < len
        invariant
            len == cfg@.len(),
            start <= i <= len,
            start == 0 || cfg@[start as int - 1] == ',',
            forall|j: int| start <= j < i ==> cfg@[j] != ',',
            forall|k: int| 0 <= k < out@.len() ==> event_markers(cfg@).contains(#[trigger] out@[k]@),
            forall|a: int, b: int|
                #[trigger] is_segment(cfg@, a, b) && b < i && trimmed(cfg@.subrange(a, b)).len()
                    > 0 ==> exists|k: int|
                    0 <= k < out@.len() && out@[k]@ == trimmed(cfg@.subrange(a, b)),
        decreases len - i,
    {
        if cfg.get_char(i) == ',' {
            proof {
                lemma_only_segment(cfg@, start as int, i as int);
            }
            push_trimmed_entry(cfg, start, i, &mut out);
            start = i + 1;
        }
        i += 1;
    }
    proof {
        lemma_only_segment(cfg@, start as int, len as int);
    }
    push_trimmed_entry(cfg, start, len, &mut out);
    proof {
        assert forall|t: Seq<char>| #[trigger] event_markers(cfg@).contains(t) implies exists|k: int|
            0 <= k < out@.len() && out@[k]@ == t by {
            let (a, b) = choose|a: int, b: int|
                #[trigger] is_segment(cfg@, a, b) && trimmed(cfg@.subrange(a, b)) == t;
            assert(b <= len);
        }
    }
    out
}

/// Under the scan invariants, the one segment ending at the current
/// boundary starts at the tracked segment start.
proof fn lemma_only_segment(s: Seq<char>, start: int, boundary: int)
    requires
        0 <= start <= boundary <= s.len(),
        start == 0 || s[start - 1] == ',',
        forall|j: int| start <= j < boundary ==> s[j] != ',',
        boundary == s.len() || s[boundary] == ',',
    ensures
        is_segment(s, start, boundary),
        forall|a: int, b: int| #[trigger] is_segment(s, a, b) && b == boundary ==> a == start,
{
    assert forall|a: int, b: int| #[trigger] is_segment(s, a, b) && b == boundary implies a
        == start by {
        if a < start {
            assert(s[start - 1] == ',');
            assert(a <= start - 1 < b);
            assert(false);
        }
        if a > start {
            assert(s[a - 1] == ',');
            assert(start <= a - 1 < boundary);
            assert(false);
        }
    }
}

/// The minimum-level token `cfg`: a canonical level name, or the decimal
/// numeric rank of a level; `None` on anything else.
pub fn parse_min_level(cfg: &str) -> (r: Option<LogLevel>)
    ensures
        r == spec_parse_min_level(cfg@),
{
    let by_name = LogLevel::from_name(cfg);
    match by_name {
        Ok(l) => Some(l),
        Err(_) => {
            let len = cfg.unicode_len();
            if len == 0 {
                return None;
            }
            let mut v: usize = 0;
            let mut big = false;
            let mut i: usize = 0;
            while i < len
                invariant
                    len == cfg@.len(),
                    1 <= len,
                    i <= len,
                    spec_from_name(cfg@) is Err,
                    forall|j: int| 0 <= j < i ==> is_digit(#[trigger] cfg@[j]),
                    v <= 8,
                    !big ==> v == digits_val(cfg@.take(i as int)),
                    big ==> digits_val(cfg@.take(i as int)) > 8,
                decreases len - i,
            {
                let c = cfg.get_char(i);
                let u = c as u32;
                if u < 48 || u > 57 {
                    proof {
                        assert(!is_digit(cfg@[i as int]));
                        assert(!all_digits(cfg@));
                    }
                    return None;
                }
                proof {
                    assert(cfg@.take(i as int + 1).drop_last() =~= cfg@.take(i as int));
                    assert(cfg@.take(i as int + 1).last() == cfg@[i as int]);
                }
                let d = (u - 48) as usize;
                if !big {
                    let nv = v * 10 + d;
                    if nv > 8 {
                        big = true;
                    } else {
                        v = nv;
                    }
                }
                i += 1;
            }
            proof {
                assert(cfg@.take(len as int) =~= cfg@);
            }
            if big {
                return None;
            }
            match LogLevel::from_rank(v) {
                Ok(l) => Some(l),
                Err(_) => None,
            }
        },
    }
}

/// The real levels whose rank is at least that of `min`, in ascending rank
/// order; the `Silent` sentinel is never among them.
pub fn levels_at_or_above(min: &LogLevel) -> (r: Vec<LogLevel>)
    ensures
        r@.len() == if spec_rank(*min) <= 7 {
            8 - spec_rank(*min)
        } else {
            0int
        },
        forall|k: int| 0 <= k < r@.len() ==> r@[k] == spec_from_rank(spec_rank(*min) + k),
{
    let mut out: Vec<LogLevel> = Vec::new();
    let first = min.to_rank();
    let mut k = first;
    while k < 8
        invariant
            first == spec_rank(*min),
            first <= k <= 8,
            out@.len() == k - first,
            forall|j: int| 0 <= j < out@.len() ==> out@[j] == spec_from_rank(first + j),
        decreases 8 - k,
    {
        match LogLevel::from_rank(k) {
            Ok(l) => out.push(l),
            Err(_) => (),
        }
        k += 1;
    }
    out
}

/// The compiled marker set of one build: the enabled event names and the
/// enabled levels. A call site is compiled in only if both its event marker
/// and its level marker are present.
pub struct MarkerSet {
    events: Vec<String>,
    levels: Vec<LogLevel>,
}

impl MarkerSet {
    /// The enabled event-name markers.
    pub closed spec fn event_set(&self) -> Set<Seq<char>> {
        Set::new(
            |t: Seq<char>| exists|i: int| 0 <= i < self.events@.len() && self.events@[i]@ == t,
        )
    }

    /// The enabled level markers.
    pub closed spec fn level_set(&self) -> Set<LogLevel> {
        Set::new(|l: LogLevel| exists|i: int| 0 <= i < self.levels@.len() && self.levels@[i] == l)
    }

    /// Run the build-time filter once: read the event-name list and the
    /// optional minimum-level token, and compute exactly the corresponding
    /// markers. Misconfiguration degrades to "nothing enabled by that path";
    /// it never fails.
    pub fn build(events_cfg: &str, level_cfg: Option<&str>) -> (r: MarkerSet)
        ensures
            r.event_set() == event_markers(events_cfg@),
            r.level_set() == level_markers(spec_level_cfg(level_cfg)),
    {
        let events = parse_event_list(events_cfg);
        let levels: Vec<LogLevel> = match level_cfg {
            None => Vec::new(),
            Some(s) => match parse_min_level(s) {
                None => Vec::new(),
                Some(min) => levels_at_or_above(&min),
            },
        };
        let r = MarkerSet { events, levels };
        proof {
            assert(r.event_set() =~= event_markers(events_cfg@));
            lemma_level_vec_set(&r, spec_level_cfg(level_cfg));
        }
        r
    }

    /// Whether the event marker for `event` is present.
    pub fn event_enabled(&self, event: &str) -> (r: bool)
        ensures
            r == self.event_set().contains(event@),
    {
        let n = self.events.len();
        let mut i: usize = 0;
        while i < n
            invariant
                n == self.events@.len(),
                i <= n,
                forall|j: int| 0 <= j < i ==> self.events@[j]@ != event@,
            decreases n - i,
        {
            if str_eq(self.events[i].as_str(), event) {
                return true;
            }
            i += 1;
        }
        false
    }

    /// Whether the level marker for `level` is present.
    pub fn level_enabled(&self, level: &LogLevel) -> (r: bool)
        ensures
            r == self.level_set().contains(*level),
    {
        let n = self.levels.len();
        let mut i: usize = 0;
        while i < n
            invariant
                n == self.levels@.len(),
                i <= n,
                forall|j: int| 0 <= j < i ==> self.levels@[j] != *level,
            decreases n - i,
        {
            if self.levels[i] == *level {
                return true;
            }
            i += 1;
        }
        false
    }

    /// The two-part call-site guard: a call site for `event` at `level` is
    /// compiled in only if both its event marker and its level marker are
    /// present.
    pub fn call_site_enabled(&self, event: &str, level: &LogLevel) -> (r: bool)
        ensures
            r == (self.event_set().contains(event@) && self.level_set().contains(*level)),
    {
        self.event_enabled(event) && self.level_enabled(level)
    }

    /// The enabled event names as plain values.
    pub fn events(&self) -> (r: &Vec<String>)
        ensures
            forall|k: int| 0 <= k < r@.len() ==> self.event_set().contains(#[trigger] r@[k]@),
            forall|t: Seq<char>|
                #[trigger] self.event_set().contains(t) ==> exists|k: int|
                    0 <= k < r@.len() && r@[k]@ == t,
    {
        &self.events
    }

    /// The enabled levels as plain values.
    pub fn levels(&self) -> (r: &Vec<LogLevel>)
        ensures
            forall|k: int| 0 <= k < r@.len() ==> self.level_set().contains(#[trigger] r@[k]),
            forall|l: LogLevel|
                #[trigger] self.level_set().contains(l) ==> exists|k: int|
                    0 <= k < r@.len() && r@[k] == l,
    {
        &self.levels
    }
}

/// A marker set built by `levels_at_or_above` holds exactly the level
/// markers of its configuration.
proof fn lemma_level_vec_set(m: &MarkerSet, cfg: Option<Seq<char>>)
    requires
        match cfg {
            None => m.levels@.len() == 0,
            Some(s) => match spec_parse_min_level(s) {
                None => m.levels@.len() == 0,
                Some(min) => {
                    &&& m.levels@.len() == if spec_rank(min) <= 7 {
                        8 - spec_rank(min)
                    } else {
                        0int
                    }
                    &&& forall|k: int|
                        0 <= k < m.levels@.len() ==> m.levels@[k] == spec_from_rank(
                            spec_rank(min) + k,
                        )
                },
            },
        },
    ensures
        m.level_set() == level_markers(cfg),
{
    match cfg {
        None => {
            assert(m.level_set() =~= level_markers(cfg));
        },
        Some(s) => match spec_parse_min_level(s) {
            None => {
                assert(m.level_set() =~= level_markers(cfg));
            },
            Some(min) => {
                assert forall|l: LogLevel| level_markers(cfg).contains(l) implies m.level_set()
                    .contains(l) by {
                    crate::level::lemma_level_round_trip(l);
                    let k = spec_rank(l) - spec_rank(min);
                    assert(m.levels@[k] == l);
                }
                assert forall|l: LogLevel| m.level_set().contains(l) implies level_markers(
                    cfg,
                ).contains(l) by {
                    let k = choose|k: int| 0 <= k < m.levels@.len() && m.levels@[k] == l;
                    crate::level::lemma_rank_round_trip(spec_rank(min) + k);
                }
                assert(m.level_set() =~= level_markers(cfg));
            },
        },
    }
}

} // verus!
