//! The user-controlled settings that the library reads, their defaults and
//! how they are brought into range.

use vstd::prelude::*;
use crate::avatar::{get, get_field, json_document, parse_json, u64_of, JsonValue};
use crate::text::{
    byte_prefix, char_is_whitespace, chars_of, concat_str, copy_range, decimal, decimal_string,
    first_chars, first_non_controls, lemma_byte_prefix_fits, lemma_byte_prefix_of_short,
    lemma_lex_lt_irreflexive, lemma_lex_lt_transitive, lex_lt, string_of, str_lt, utf8_len,
    take_at_most, drop_controls, trim_chars, trimmed, truncate_bytes, truncates_cleanly,
};

verus! {

/// The version of the settings layout that this library writes.
pub const CURRENT_SCHEMA_VERSION: u32 = 4;

/// The language of the user interface.
#[derive(Debug, Clone, Copy, PartialEq, Eq, Structural)]
pub enum AppLanguage {
    Chinese,
    English,
}

impl Default for AppLanguage {
    fn default() -> (r: AppLanguage)
        ensures
            r == AppLanguage::Chinese,
    {
        AppLanguage::Chinese
    }
}

/// Desktop integration settings.
#[derive(Debug, Clone, PartialEq, Eq)]
pub struct DesktopConfig {
    pub auto_start: bool,
    pub paused: bool,
    pub toggle_shortcut: String,
}

/// Settings for reaching Herdr inside WSL.
#[derive(Debug, Clone, PartialEq, Eq)]
pub struct WslConfig {
    pub enabled: bool,
    pub distribution: Option<String>,
}

/// Which agents the pet watches.
#[derive(Debug, Clone, Copy, PartialEq, Eq, Structural)]
pub enum ObservationMode {
    All,
    CurrentWorkspace,
    Selected,
    Quiet,
}

/// The scope of observation.
#[derive(Debug, Clone, PartialEq, Eq)]
pub struct ObservationConfig {
    pub mode: ObservationMode,
    pub current_workspace_id: Option<String>,
    pub workspace_ids: Vec<String>,
    pub pane_ids: Vec<String>,
}

/// How Herdr is found and observed.
#[derive(Debug, Clone, PartialEq, Eq)]
pub struct HerdrConfig {
    pub auto_discover: bool,
    pub session: Option<String>,
    pub socket_path: Option<String>,
    pub wsl: WslConfig,
    pub observation: ObservationConfig,
}

/// The avatar animation played in each mood.
#[derive(Debug, Clone, PartialEq, Eq)]
pub struct StateAnimations {
    pub sleeping: String,
    pub idle: String,
    pub working: String,
    pub needs_attention: String,
    pub offline: String,
}

/// How the pet reacts to one kind of event.
#[derive(Debug, Clone, PartialEq, Eq)]
pub struct EventRule {
    pub enabled: bool,
    pub animation: String,
    pub bubble: String,
    pub duration_ms: u64,
    pub cooldown_ms: u64,
}

/// The reaction to each kind of event.
#[derive(Debug, Clone, PartialEq, Eq)]
pub struct EventRules {
    pub agent_detected: EventRule,
    pub turn_completed: EventRule,
    pub attention_requested: EventRule,
    pub agent_started: EventRule,
    pub agent_exited: EventRule,
    pub reconnected: EventRule,
}

/// Limits of the intent scheduler.
#[derive(Debug, Clone, PartialEq, Eq)]
pub struct SchedulerConfig {
    pub max_queue: usize,
    pub completion_merge_ms: u64,
    pub event_ttl_ms: u64,
}

pub open spec fn opt_view(o: Option<String>) -> Option<Seq<char>> {
    match o {
        Some(s) => Some(s@),
        None => None,
    }
}

/// `s` with leading and trailing whitespace and all control characters
/// removed, cut to `max_chars` characters.
pub open spec fn normalized_text(s: Seq<char>, max_chars: nat) -> Seq<char> {
    take_at_most(drop_controls(trimmed(s)), max_chars)
}

/// An optional text after normalisation; a text that becomes empty is absent.
pub open spec fn normalized_optional(o: Option<Seq<char>>, max_chars: nat) -> Option<Seq<char>> {
    match o {
        Some(s) => if normalized_text(s, max_chars).len() == 0 {
            None
        } else {
            Some(normalized_text(s, max_chars))
        },
        None => None,
    }
}

/// `s`, or `"idle"` when `s` is empty.
pub open spec fn or_idle(s: Seq<char>) -> Seq<char> {
    if s.len() == 0 {
        "idle"@
    } else {
        s
    }
}

/// An animation name after normalisation: at most 64 bytes, never empty.
pub open spec fn normalized_animation(s: Seq<char>) -> Seq<char> {
    or_idle(byte_prefix(s, 64))
}

pub open spec fn clamp(v: int, lo: int, hi: int) -> int {
    if v < lo {
        lo
    } else if v > hi {
        hi
    } else {
        v
    }
}

/// Normalises an optional text: trimmed, control characters dropped, at most
/// `max_chars` characters, and absent when nothing is left.
pub fn normalize_optional_text(value: Option<String>, max_chars: usize) -> (r: Option<String>)
    ensures
        opt_view(r) == normalized_optional(opt_view(value), max_chars as nat),
{
    match value {
        Some(value) => {
            let chars = chars_of(value.as_str());
            let trimmed_chars = trim_chars(&chars);
            let kept = first_non_controls(&trimmed_chars, max_chars);
            if kept.len() == 0 {
                None
            } else {
                Some(string_of(&kept))
            }
        },
        None => None,
    }
}

/// An animation name cut to 64 bytes, or `"idle"` when empty.
fn normalize_animation(name: &String) -> (r: String)
    requires
        truncates_cleanly(name@, 64),
    ensures
        r@ == normalized_animation(name@),
{
    let cut = truncate_bytes(name, 64);
    if cut.as_str().is_empty() {
        "idle".to_owned()
    } else {
        cut
    }
}

/// Normalising an animation name twice gives what normalising it once
/// gave, and the second normalisation is accepted.
pub proof fn law_animation_normalization_is_stable(name: Seq<char>)
    ensures
        truncates_cleanly(normalized_animation(name), 64),
        normalized_animation(normalized_animation(name)) == normalized_animation(name),
{
    lemma_byte_prefix_fits(name, 64);
    let cut = byte_prefix(name, 64);
    if cut.len() == 0 {
        reveal_strlit("idle");
        assert(utf8_len("idle"@) == 4) by {
            reveal_strlit("idle");
            reveal_with_fuel(utf8_len, 5);
            let t = "idle"@;
            assert(t.drop_first().drop_first().drop_first().drop_first().len() == 0);
            assert(t.drop_first().drop_first().drop_first()[0] == 'e');
            assert(t.drop_first().drop_first()[0] == 'l');
            assert(t.drop_first()[0] == 'd');
        }
        lemma_byte_prefix_of_short("idle"@, 64);
    }
}

impl ObservationConfig {
    /// Whether an agent in `workspace_id` and `pane_id` is observed.
    pub open spec fn includes_spec(&self, workspace_id: Seq<char>, pane_id: Seq<char>) -> bool {
        match self.mode {
            ObservationMode::All | ObservationMode::Quiet => true,
            ObservationMode::CurrentWorkspace => opt_view(self.current_workspace_id) == Some(workspace_id),
            ObservationMode::Selected => {
                (exists|i: int| 0 <= i < self.workspace_ids@.len() && #[trigger] self.workspace_ids@[i]@ == workspace_id)
                    || (exists|i: int| 0 <= i < self.pane_ids@.len() && #[trigger] self.pane_ids@[i]@ == pane_id)
            },
        }
    }

    pub fn includes(&self, workspace_id: &str, pane_id: &str) -> (r: bool)
        ensures
            r == self.includes_spec(workspace_id@, pane_id@),
    {
        match self.mode {
            ObservationMode::All | ObservationMode::Quiet => true,
            ObservationMode::CurrentWorkspace => match &self.current_workspace_id {
                Some(selected) => str_equal(selected.as_str(), workspace_id),
                None => false,
            },
            ObservationMode::Selected => {
                contains_string(&self.workspace_ids, workspace_id) || contains_string(&self.pane_ids, pane_id)
            },
        }
    }

    pub fn quiet(&self) -> (r: bool)
        ensures
            r == (self.mode == ObservationMode::Quiet),
    {
        self.mode == ObservationMode::Quiet
    }

    /// Whether `normalize` accepts these settings: every id that it keeps can
    /// be cut at byte 128.
    pub open spec fn ids_truncate_cleanly(&self) -> bool {
        &&& forall|i: int| 0 <= i < self.workspace_ids@.len() ==> truncates_cleanly(#[trigger] self.workspace_ids@[i]@, 128)
        &&& forall|i: int| 0 <= i < self.pane_ids@.len() ==> truncates_cleanly(#[trigger] self.pane_ids@[i]@, 128)
    }

    /// Drops an empty current workspace and normalises both id lists.
    pub fn normalize(&mut self)
        requires
            old(self).ids_truncate_cleanly(),
        ensures
            final(self).mode == old(self).mode,
            opt_view(final(self).current_workspace_id) == match opt_view(old(self).current_workspace_id) {
                Some(id) => if id.len() > 0 { Some(id) } else { None },
                None => None,
            },
            ids_normalized(old(self).workspace_ids@, final(self).workspace_ids@),
            ids_normalized(old(self).pane_ids@, final(self).pane_ids@),
    {
        let current = self.current_workspace_id.take();
        self.current_workspace_id = match current {
            Some(id) => if id.as_str().is_empty() {
                None
            } else {
                Some(id)
            },
            None => None,
        };
        normalize_ids(&mut self.workspace_ids);
        normalize_ids(&mut self.pane_ids);
    }
}

impl Default for ObservationConfig {
    fn default() -> (r: ObservationConfig)
        ensures
            r.mode == ObservationMode::All,
            r.current_workspace_id is None,
            r.workspace_ids@.len() == 0,
            r.pane_ids@.len() == 0,
    {
        ObservationConfig {
            mode: ObservationMode::All,
            current_workspace_id: None,
            workspace_ids: Vec::new(),
            pane_ids: Vec::new(),
        }
    }
}

/// Whether `a` and `b` hold the same characters.
pub fn str_equal(a: &str, b: &str) -> (r: bool)
    ensures
        r == (a@ == b@),
{
    let av = chars_of(a);
    let bv = chars_of(b);
    crate::text::chars_eq(&av, &bv)
}

/// Whether one of `list` holds the characters of `item`.
pub fn contains_string(list: &Vec<String>, item: &str) -> (r: bool)
    ensures
        r == exists|i: int| 0 <= i < list@.len() && #[trigger] list@[i]@ == item@,
{
    for i in 0..list.len()
        invariant
            forall|j: int| 0 <= j < i ==> #[trigger] list@[j]@ != item@,
    {
        if str_equal(list[i].as_str(), item) {
            return true;
        }
    }
    false
}

/// `x` is one of `ids` once emptiness is dropped and the id is cut to 128 bytes.
pub open spec fn id_candidate(ids: Seq<String>, x: Seq<char>) -> bool {
    exists|i: int| 0 <= i < ids.len() && ids[i]@.len() > 0 && #[trigger] byte_prefix(ids[i]@, 128) == x
}

pub open spec fn listed(r: Seq<String>, x: Seq<char>) -> bool {
    exists|j: int| 0 <= j < r.len() && #[trigger] r[j]@ == x
}

pub open spec fn strictly_sorted(r: Seq<String>) -> bool {
    forall|i: int, j: int| 0 <= i < j < r.len() ==> lex_lt(#[trigger] r[i]@, #[trigger] r[j]@)
}

/// `r` is `ids` normalised: the non-empty ids cut to 128 bytes, sorted,
/// without duplicates, and at most the 256 smallest of them.
pub open spec fn ids_normalized(ids: Seq<String>, r: Seq<String>) -> bool {
    &&& strictly_sorted(r)
    &&& r.len() <= 256
    &&& forall|j: int| 0 <= j < r.len() ==> id_candidate(ids, #[trigger] r[j]@)
    &&& forall|x: Seq<char>| #[trigger] id_candidate(ids, x) ==> listed(r, x)
        || (r.len() == 256 && forall|j: int| 0 <= j < r.len() ==> lex_lt(#[trigger] r[j]@, x))
}

proof fn lemma_lex_total(a: Seq<char>, b: Seq<char>)
    ensures
        lex_lt(a, b) || lex_lt(b, a) || a == b,
    decreases a.len(),
{
    if a.len() > 0 && b.len() > 0 && a[0] == b[0] {
        lemma_lex_total(a.drop_first(), b.drop_first());
        if a.drop_first() == b.drop_first() {
            assert(a =~= seq![a[0]] + a.drop_first());
            assert(b =~= seq![b[0]] + b.drop_first());
        }
    } else if a.len() == 0 && b.len() == 0 {
        assert(a =~= b);
    } else if a.len() > 0 && b.len() > 0 {
        vstd::utf8::char_u32_cast(a[0], a[0] as u32);
        vstd::utf8::char_u32_cast(b[0], b[0] as u32);
    }
}

/// Puts `item` into the strictly sorted `r`, unless it is there already.
fn insert_sorted_unique(r: &mut Vec<String>, item: String)
    requires
        strictly_sorted(old(r)@),
    ensures
        strictly_sorted(final(r)@),
        forall|x: Seq<char>| #[trigger] listed(final(r)@, x) == (listed(old(r)@, x) || x == item@),
        final(r)@.len() <= old(r)@.len() + 1,
{
    let mut p: usize = 0;
    while p < r.len() && str_lt(r[p].as_str(), item.as_str())
        invariant
            p <= r@.len(),
            forall|j: int| 0 <= j < p ==> lex_lt(#[trigger] r@[j]@, item@),
        decreases r@.len() - p,
    {
        p += 1;
    }
    if p < r.len() && str_equal(r[p].as_str(), item.as_str()) {
        proof {
            assert forall|x: Seq<char>| #[trigger] listed(r@, x) == (listed(r@, x) || x == item@) by {
                if x == item@ {
                    assert(r@[p as int]@ == x);
                }
            }
        }
        return;
    }
    let ghost before = r@;
    proof {
        if p < before.len() {
            lemma_lex_total(before[p as int]@, item@);
        }
    }
    r.insert(p, item);
    proof {
        assert forall|i: int, j: int| 0 <= i < j < r@.len() implies lex_lt(#[trigger] r@[i]@, #[trigger] r@[j]@) by {
            if j < p {
                assert(r@[i] == before[i] && r@[j] == before[j]);
            } else if j == p {
                assert(r@[i] == before[i]);
            } else if i == p {
                assert(r@[j] == before[j - 1]);
                if j - 1 > p {
                    lemma_lex_lt_transitive(item@, before[p as int]@, before[j - 1]@);
                }
            } else if i < p {
                assert(r@[i] == before[i] && r@[j] == before[j - 1]);
            } else {
                assert(r@[i] == before[i - 1] && r@[j] == before[j - 1]);
            }
        }
        assert forall|x: Seq<char>| #[trigger] listed(r@, x) == (listed(before, x) || x == item@) by {
            if listed(before, x) {
                let j = choose|j: int| 0 <= j < before.len() && #[trigger] before[j]@ == x;
                if j < p {
                    assert(r@[j] == before[j]);
                } else {
                    assert(r@[j + 1] == before[j]);
                }
            }
            if x == item@ {
                assert(r@[p as int]@ == x);
            }
            if listed(r@, x) {
                let j = choose|j: int| 0 <= j < r@.len() && #[trigger] r@[j]@ == x;
                if j < p {
                    assert(r@[j] == before[j]);
                } else if j > p {
                    assert(r@[j] == before[j - 1]);
                }
            }
        }
    }
}

/// Drops empty ids, cuts each to 128 bytes, sorts them, drops duplicates
/// and keeps at most 256.
pub fn normalize_ids(ids: &mut Vec<String>)
    requires
        forall|i: int| 0 <= i < old(ids)@.len() ==> truncates_cleanly(#[trigger] old(ids)@[i]@, 128),
    ensures
        ids_normalized(old(ids)@, final(ids)@),
{
    let mut r: Vec<String> = Vec::new();
    let n = ids.len();
    for i in 0..n
        invariant
            n == ids@.len(),
            strictly_sorted(r@),
            r@.len() <= i,
            forall|x: Seq<char>| #[trigger] listed(r@, x) == id_candidate(ids@.take(i as int), x),
    {
        if !ids[i].as_str().is_empty() {
            let cut = truncate_bytes(&ids[i], 128);
            insert_sorted_unique(&mut r, cut);
        }
        proof {
            assert forall|x: Seq<char>| #[trigger] listed(r@, x) == id_candidate(ids@.take(i + 1), x) by {
                let t = ids@.take(i + 1);
                if id_candidate(t, x) {
                    let k = choose|k: int| 0 <= k < t.len() && t[k]@.len() > 0 && #[trigger] byte_prefix(t[k]@, 128) == x;
                    if k < i {
                        assert(ids@.take(i as int)[k] == t[k]);
                        assert(id_candidate(ids@.take(i as int), x));
                    }
                }
                if id_candidate(ids@.take(i as int), x) {
                    let k = choose|k: int| 0 <= k < i && ids@.take(i as int)[k]@.len() > 0 && #[trigger] byte_prefix(ids@.take(i as int)[k]@, 128) == x;
                    assert(t[k] == ids@.take(i as int)[k]);
                }
                if ids@[i as int]@.len() > 0 && x == byte_prefix(ids@[i as int]@, 128) {
                    assert(t[i as int] == ids@[i as int]);
                }
            }
        }
    }
    let ghost full = r@;
    r.truncate(256);
    proof {
        assert(ids@.take(n as int) =~= ids@);
        assert forall|j: int| 0 <= j < r@.len() implies id_candidate(ids@, #[trigger] r@[j]@) by {
            assert(r@[j] == full[j]);
            assert(listed(full, full[j]@));
        }
        assert forall|x: Seq<char>| #[trigger] id_candidate(ids@, x) implies listed(r@, x)
            || (r@.len() == 256 && forall|j: int| 0 <= j < r@.len() ==> lex_lt(#[trigger] r@[j]@, x)) by {
            assert(listed(full, x));
            let k = choose|k: int| 0 <= k < full.len() && #[trigger] full[k]@ == x;
            if k < 256 {
                assert(r@[k] == full[k]);
            } else {
                assert forall|j: int| 0 <= j < r@.len() implies lex_lt(#[trigger] r@[j]@, x) by {
                    assert(r@[j] == full[j]);
                }
            }
        }
    }
    *ids = r;
}


/// Where `x` stands in `b`, when it is listed there.
spec fn position_in(b: Seq<String>, x: Seq<char>) -> int {
    choose|k: int| 0 <= k < b.len() && #[trigger] b[k]@ == x
}

proof fn lemma_lex_lt_asymmetric(a: Seq<char>, b: Seq<char>)
    requires
        lex_lt(a, b),
    ensures
        !lex_lt(b, a),
        a != b,
{
    lemma_lex_lt_irreflexive(a);
    if lex_lt(b, a) {
        lemma_lex_lt_transitive(a, b, a);
    }
}

/// In a strictly sorted list, an earlier text stands before a later one.
proof fn lemma_sorted_order(b: Seq<String>, p: int, q: int)
    requires
        strictly_sorted(b),
        0 <= p < b.len(),
        0 <= q < b.len(),
        lex_lt(b[p]@, b[q]@),
    ensures
        p < q,
{
    if p == q {
        lemma_lex_lt_irreflexive(b[p]@);
    } else if q < p {
        assert(lex_lt(b[q]@, b[p]@));
        lemma_lex_lt_asymmetric(b[q]@, b[p]@);
    }
}

/// The texts of a strictly sorted `a`, all listed in the strictly sorted
/// `b`, stand in `b` at or after their own position...
proof fn lemma_positions_from_below(a: Seq<String>, b: Seq<String>, j: int)
    requires
        strictly_sorted(a),
        strictly_sorted(b),
        forall|i: int| 0 <= i < a.len() ==> listed(b, #[trigger] a[i]@),
        0 <= j < a.len(),
    ensures
        j <= position_in(b, a[j]@) < b.len(),
        b[position_in(b, a[j]@)]@ == a[j]@,
    decreases j,
{
    assert(listed(b, a[j]@));
    if j > 0 {
        lemma_positions_from_below(a, b, j - 1);
        let p = position_in(b, a[j - 1]@);
        let q = position_in(b, a[j]@);
        assert(lex_lt(a[j - 1]@, a[j]@));
        lemma_sorted_order(b, p, q);
    }
}

/// ...and at or before as many places from the end of `b` as from the end
/// of `a`.
proof fn lemma_positions_from_above(a: Seq<String>, b: Seq<String>, j: int)
    requires
        strictly_sorted(a),
        strictly_sorted(b),
        forall|i: int| 0 <= i < a.len() ==> listed(b, #[trigger] a[i]@),
        0 <= j < a.len(),
    ensures
        0 <= position_in(b, a[j]@) <= b.len() - a.len() + j,
        b[position_in(b, a[j]@)]@ == a[j]@,
    decreases a.len() - j,
{
    assert(listed(b, a[j]@));
    if j + 1 < a.len() {
        lemma_positions_from_above(a, b, j + 1);
        let p = position_in(b, a[j]@);
        let q = position_in(b, a[j + 1]@);
        assert(lex_lt(a[j]@, a[j + 1]@));
        lemma_sorted_order(b, p, q);
    }
}

/// Two strictly sorted lists that list each other's texts are the same.
proof fn lemma_same_sorted(a: Seq<String>, b: Seq<String>)
    requires
        strictly_sorted(a),
        strictly_sorted(b),
        forall|i: int| 0 <= i < a.len() ==> listed(b, #[trigger] a[i]@),
        forall|i: int| 0 <= i < b.len() ==> listed(a, #[trigger] b[i]@),
    ensures
        a.len() == b.len(),
        forall|j: int| 0 <= j < a.len() ==> #[trigger] a[j]@ == b[j]@,
{
    if a.len() > 0 {
        lemma_positions_from_below(a, b, a.len() - 1);
    }
    if b.len() > 0 {
        lemma_positions_from_below(b, a, b.len() - 1);
    }
    assert forall|j: int| 0 <= j < a.len() implies #[trigger] a[j]@ == b[j]@ by {
        lemma_positions_from_below(a, b, j);
        lemma_positions_from_above(a, b, j);
    }
}

/// Normalising id lists twice gives what normalising them once gave, and
/// the second normalisation is accepted.
pub proof fn law_id_normalization_is_stable(ids: Seq<String>, once: Seq<String>, twice: Seq<String>)
    requires
        ids_normalized(ids, once),
        ids_normalized(once, twice),
    ensures
        forall|j: int| 0 <= j < once.len() ==> truncates_cleanly(#[trigger] once[j]@, 128),
        twice.len() == once.len(),
        forall|j: int| 0 <= j < once.len() ==> #[trigger] twice[j]@ == once[j]@,
{
    assert forall|j: int| 0 <= j < once.len() implies {
        &&& (#[trigger] once[j]@).len() > 0
        &&& byte_prefix(once[j]@, 128) == once[j]@
        &&& truncates_cleanly(once[j]@, 128)
    } by {
        assert(id_candidate(ids, once[j]@));
        let i = choose|i: int| 0 <= i < ids.len() && ids[i]@.len() > 0 && #[trigger] byte_prefix(ids[i]@, 128) == once[j]@;
        lemma_byte_prefix_fits(ids[i]@, 128);
    }
    assert forall|m: int| 0 <= m < twice.len() implies listed(once, #[trigger] twice[m]@) by {
        assert(id_candidate(once, twice[m]@));
        let k = choose|k: int| 0 <= k < once.len() && once[k]@.len() > 0 && #[trigger] byte_prefix(once[k]@, 128) == twice[m]@;
        assert(once[k]@ == twice[m]@);
    }
    assert forall|j: int| 0 <= j < once.len() implies listed(twice, #[trigger] once[j]@) by {
        assert(byte_prefix(once[j]@, 128) == once[j]@);
        assert(id_candidate(once, once[j]@));
        if !listed(twice, once[j]@) {
            assert(twice.len() == 256);
            lemma_positions_from_below(twice, once, 255);
            let p = position_in(once, twice[255]@);
            assert(lex_lt(twice[255]@, once[j]@));
            lemma_sorted_order(once, p, j);
        }
    }
    lemma_same_sorted(twice, once);
}

/// The shortcut that shows or hides the pet unless the user picks another.
pub open spec fn default_shortcut() -> Seq<char> {
    "CmdOrCtrl+Shift+H"@
}

/// A shortcut after normalisation: trimmed, at most 64 characters, and the
/// default shortcut when nothing is left.
pub open spec fn normalized_shortcut(s: Seq<char>) -> Seq<char> {
    if take_at_most(trimmed(s), 64).len() == 0 {
        default_shortcut()
    } else {
        take_at_most(trimmed(s), 64)
    }
}

impl DesktopConfig {
    pub fn normalize(&mut self)
        ensures
            final(self).auto_start == old(self).auto_start,
            final(self).paused == old(self).paused,
            final(self).toggle_shortcut@ == normalized_shortcut(old(self).toggle_shortcut@),
    {
        let chars = chars_of(self.toggle_shortcut.as_str());
        let trimmed_chars = trim_chars(&chars);
        let kept = first_chars(&trimmed_chars, 64);
        if kept.len() == 0 {
            self.toggle_shortcut = "CmdOrCtrl+Shift+H".to_owned();
        } else {
            self.toggle_shortcut = string_of(&kept);
        }
    }
}

impl Default for DesktopConfig {
    fn default() -> (r: DesktopConfig)
        ensures
            !r.auto_start,
            !r.paused,
            r.toggle_shortcut@ == default_shortcut(),
    {
        DesktopConfig { auto_start: false, paused: false, toggle_shortcut: "CmdOrCtrl+Shift+H".to_owned() }
    }
}

impl Default for WslConfig {
    fn default() -> (r: WslConfig)
        ensures
            !r.enabled,
            r.distribution is None,
    {
        WslConfig { enabled: false, distribution: None }
    }
}

impl HerdrConfig {
    /// Normalises the session name (128 characters), the socket path (1024
    /// characters), the WSL distribution (128 characters) and the
    /// observation scope.
    pub fn normalize(&mut self)
        requires
            old(self).observation.ids_truncate_cleanly(),
        ensures
            final(self).auto_discover == old(self).auto_discover,
            final(self).wsl.enabled == old(self).wsl.enabled,
            opt_view(final(self).session) == normalized_optional(opt_view(old(self).session), 128),
            opt_view(final(self).socket_path) == normalized_optional(opt_view(old(self).socket_path), 1024),
            opt_view(final(self).wsl.distribution) == normalized_optional(opt_view(old(self).wsl.distribution), 128),
            final(self).observation.mode == old(self).observation.mode,
            opt_view(final(self).observation.current_workspace_id) == match opt_view(old(self).observation.current_workspace_id) {
                Some(id) => if id.len() > 0 { Some(id) } else { None },
                None => None,
            },
            ids_normalized(old(self).observation.workspace_ids@, final(self).observation.workspace_ids@),
            ids_normalized(old(self).observation.pane_ids@, final(self).observation.pane_ids@),
    {
        self.session = normalize_optional_text(self.session.take(), 128);
        self.socket_path = normalize_optional_text(self.socket_path.take(), 1024);
        self.wsl.distribution = normalize_optional_text(self.wsl.distribution.take(), 128);
        self.observation.normalize();
    }
}

impl Default for HerdrConfig {
    fn default() -> (r: HerdrConfig)
        ensures
            r.auto_discover,
            r.session is None,
            r.socket_path is None,
            !r.wsl.enabled,
            r.wsl.distribution is None,
            r.observation.mode == ObservationMode::All,
            r.observation.current_workspace_id is None,
            r.observation.workspace_ids@.len() == 0,
            r.observation.pane_ids@.len() == 0,
    {
        HerdrConfig {
            auto_discover: true,
            session: None,
            socket_path: None,
            wsl: WslConfig::default(),
            observation: ObservationConfig::default(),
        }
    }
}

impl StateAnimations {
    /// Whether `normalize` accepts these names: each can be cut at byte 64.
    pub open spec fn truncate_cleanly(&self) -> bool {
        &&& truncates_cleanly(self.sleeping@, 64)
        &&& truncates_cleanly(self.idle@, 64)
        &&& truncates_cleanly(self.working@, 64)
        &&& truncates_cleanly(self.needs_attention@, 64)
        &&& truncates_cleanly(self.offline@, 64)
    }

    /// Cuts each animation name to 64 bytes and replaces an empty one by `"idle"`.
    pub fn normalize(&mut self)
        requires
            old(self).truncate_cleanly(),
        ensures
            final(self).sleeping@ == normalized_animation(old(self).sleeping@),
            final(self).idle@ == normalized_animation(old(self).idle@),
            final(self).working@ == normalized_animation(old(self).working@),
            final(self).needs_attention@ == normalized_animation(old(self).needs_attention@),
            final(self).offline@ == normalized_animation(old(self).offline@),
    {
        self.sleeping = normalize_animation(&self.sleeping);
        self.idle = normalize_animation(&self.idle);
        self.working = normalize_animation(&self.working);
        self.needs_attention = normalize_animation(&self.needs_attention);
        self.offline = normalize_animation(&self.offline);
    }
}

impl Default for StateAnimations {
    fn default() -> (r: StateAnimations)
        ensures
            r.sleeping@ == "sleeping"@,
            r.idle@ == "idle"@,
            r.working@ == "working"@,
            r.needs_attention@ == "surprised"@,
            r.offline@ == "sad"@,
    {
        StateAnimations {
            sleeping: "sleeping".to_owned(),
            idle: "idle".to_owned(),
            working: "working".to_owned(),
            needs_attention: "surprised".to_owned(),
            offline: "sad".to_owned(),
        }
    }
}

impl EventRule {
    /// Whether `normalize` accepts this rule: the bubble can be cut at byte
    /// 120 and the animation at byte 64.
    pub open spec fn truncates_cleanly(&self) -> bool {
        truncates_cleanly(self.bubble@, 120) && truncates_cleanly(self.animation@, 64)
    }

    /// The rule after normalisation.
    pub open spec fn normalized_from(&self, old: EventRule) -> bool {
        &&& self.enabled == old.enabled
        &&& self.duration_ms == clamp(old.duration_ms as int, 100, 30_000)
        &&& self.cooldown_ms == if old.cooldown_ms < 60_000 { old.cooldown_ms } else { 60_000 }
        &&& self.bubble@ == byte_prefix(old.bubble@, 120)
        &&& self.animation@ == normalized_animation(old.animation@)
    }

    /// Clamps the duration to 100..=30000 ms and the cooldown to at most
    /// 60000 ms, cuts the bubble to 120 bytes and the animation to 64 bytes,
    /// and replaces an empty animation by `"idle"`.
    pub fn normalize(&mut self)
        requires
            old(self).truncates_cleanly(),
        ensures
            final(self).normalized_from(*old(self)),
    {
        self.duration_ms = if self.duration_ms < 100 {
            100
        } else if self.duration_ms > 30_000 {
            30_000
        } else {
            self.duration_ms
        };
        self.cooldown_ms = if self.cooldown_ms < 60_000 { self.cooldown_ms } else { 60_000 };
        self.bubble = truncate_bytes(&self.bubble, 120);
        self.animation = normalize_animation(&self.animation);
    }

    fn make(enabled: bool, animation: &str, bubble: &str, duration_ms: u64, cooldown_ms: u64) -> (r: EventRule)
        ensures
            r.enabled == enabled,
            r.animation@ == animation@,
            r.bubble@ == bubble@,
            r.duration_ms == duration_ms,
            r.cooldown_ms == cooldown_ms,
    {
        EventRule {
            enabled,
            animation: animation.to_owned(),
            bubble: bubble.to_owned(),
            duration_ms,
            cooldown_ms,
        }
    }
}

/// Normalising an event rule twice gives what normalising it once gave,
/// and the second normalisation is accepted.
pub proof fn law_event_rule_normalization_is_stable(rule: EventRule, once: EventRule, twice: EventRule)
    requires
        rule.truncates_cleanly(),
        once.normalized_from(rule),
        twice.normalized_from(once),
    ensures
        once.truncates_cleanly(),
        twice.enabled == once.enabled,
        twice.duration_ms == once.duration_ms,
        twice.cooldown_ms == once.cooldown_ms,
        twice.bubble@ == once.bubble@,
        twice.animation@ == once.animation@,
{
    lemma_byte_prefix_fits(rule.bubble@, 120);
    law_animation_normalization_is_stable(rule.animation@);
}

impl Default for EventRule {
    fn default() -> (r: EventRule)
        ensures
            r.enabled,
            r.animation@ == "idle"@,
            r.bubble@ == ""@,
            r.duration_ms == 1_000,
            r.cooldown_ms == 1_000,
    {
        EventRule::make(true, "idle", "", 1_000, 1_000)
    }
}

impl EventRules {
    /// Whether `normalize` accepts every rule.
    pub open spec fn truncate_cleanly(&self) -> bool {
        &&& self.agent_detected.truncates_cleanly()
        &&& self.turn_completed.truncates_cleanly()
        &&& self.attention_requested.truncates_cleanly()
        &&& self.agent_started.truncates_cleanly()
        &&& self.agent_exited.truncates_cleanly()
        &&& self.reconnected.truncates_cleanly()
    }

    /// Normalises every rule.
    pub fn normalize(&mut self)
        requires
            old(self).truncate_cleanly(),
        ensures
            final(self).agent_detected.normalized_from(old(self).agent_detected),
            final(self).turn_completed.normalized_from(old(self).turn_completed),
            final(self).attention_requested.normalized_from(old(self).attention_requested),
            final(self).agent_started.normalized_from(old(self).agent_started),
            final(self).agent_exited.normalized_from(old(self).agent_exited),
            final(self).reconnected.normalized_from(old(self).reconnected),
    {
        self.turn_completed.normalize();
        self.attention_requested.normalize();
        self.agent_started.normalize();
        self.agent_detected.normalize();
        self.agent_exited.normalize();
        self.reconnected.normalize();
    }
}

impl Default for EventRules {
    fn default() -> (r: EventRules)
        ensures
            r.agent_detected.enabled && r.agent_detected.animation@ == "waking"@
                && r.agent_detected.bubble@ == "{agent} 已连接"@
                && r.agent_detected.duration_ms == 1_000 && r.agent_detected.cooldown_ms == 1_000,
            r.turn_completed.enabled && r.turn_completed.animation@ == "celebrate"@
                && r.turn_completed.bubble@ == "{agent} 完成了工作"@
                && r.turn_completed.duration_ms == 2_200 && r.turn_completed.cooldown_ms == 1_000,
            r.attention_requested.enabled && r.attention_requested.animation@ == "surprised"@
                && r.attention_requested.bubble@ == "{agent} 需要你的关注"@
                && r.attention_requested.duration_ms == 3_000 && r.attention_requested.cooldown_ms == 1_000,
            r.agent_started.enabled && r.agent_started.animation@ == "excited"@
                && r.agent_started.bubble@ == "{agent} 开始工作"@
                && r.agent_started.duration_ms == 1_200 && r.agent_started.cooldown_ms == 1_000,
            r.agent_exited.enabled && r.agent_exited.animation@ == "drowsy"@
                && r.agent_exited.bubble@ == "{agent} 已退出"@
                && r.agent_exited.duration_ms == 1_000 && r.agent_exited.cooldown_ms == 1_000,
            r.reconnected.enabled && r.reconnected.animation@ == "waking"@
                && r.reconnected.bubble@ == ""@
                && r.reconnected.duration_ms == 1_000 && r.reconnected.cooldown_ms == 1_000,
    {
        EventRules {
            agent_detected: EventRule::make(true, "waking", "{agent} 已连接", 1_000, 1_000),
            turn_completed: EventRule::make(true, "celebrate", "{agent} 完成了工作", 2_200, 1_000),
            attention_requested: EventRule::make(true, "surprised", "{agent} 需要你的关注", 3_000, 1_000),
            agent_started: EventRule::make(true, "excited", "{agent} 开始工作", 1_200, 1_000),
            agent_exited: EventRule::make(true, "drowsy", "{agent} 已退出", 1_000, 1_000),
            reconnected: EventRule::make(true, "waking", "", 1_000, 1_000),
        }
    }
}

impl SchedulerConfig {
    /// Clamps the queue length to 1..=64, the completion merge window to
    /// 100..=10000 ms and the event lifetime to 1000..=300000 ms.
    pub fn normalize(&mut self)
        ensures
            final(self).max_queue == clamp(old(self).max_queue as int, 1, 64),
            final(self).completion_merge_ms == clamp(old(self).completion_merge_ms as int, 100, 10_000),
            final(self).event_ttl_ms == clamp(old(self).event_ttl_ms as int, 1_000, 300_000),
    {
        self.max_queue = if self.max_queue < 1 {
            1
        } else if self.max_queue > 64 {
            64
        } else {
            self.max_queue
        };
        self.completion_merge_ms = if self.completion_merge_ms < 100 {
            100
        } else if self.completion_merge_ms > 10_000 {
            10_000
        } else {
            self.completion_merge_ms
        };
        self.event_ttl_ms = if self.event_ttl_ms < 1_000 {
            1_000
        } else if self.event_ttl_ms > 300_000 {
            300_000
        } else {
            self.event_ttl_ms
        };
    }
}

/// Normalising the scheduler settings twice gives what normalising them
/// once gave.
pub proof fn law_scheduler_normalization_is_stable(max_queue: int, completion_merge_ms: int, event_ttl_ms: int)
    ensures
        clamp(clamp(max_queue, 1, 64), 1, 64) == clamp(max_queue, 1, 64),
        clamp(clamp(completion_merge_ms, 100, 10_000), 100, 10_000) == clamp(completion_merge_ms, 100, 10_000),
        clamp(clamp(event_ttl_ms, 1_000, 300_000), 1_000, 300_000) == clamp(event_ttl_ms, 1_000, 300_000),
{
}

impl Default for SchedulerConfig {
    fn default() -> (r: SchedulerConfig)
        ensures
            r.max_queue == 8,
            r.completion_merge_ms == 1_000,
            r.event_ttl_ms == 15_000,
    {
        SchedulerConfig { max_queue: 8, completion_merge_ms: 1_000, event_ttl_ms: 15_000 }
    }
}

/// The overlay frame rate after normalisation: 30 up to 30, 60 above.
pub fn normalized_fps(fps: u32) -> (r: u32)
    ensures
        r == if fps <= 30 { 30u32 } else { 60u32 },
{
    if fps <= 30 {
        30
    } else {
        60
    }
}

/// The message for a settings file written by a newer version.
pub open spec fn unsupported_schema_message(version: nat) -> Seq<char> {
    "unsupported config schema version "@ + decimal(version)
}

/// Accepts the schema version found in a settings file (1 when absent) if
/// this library can read it, and names it in the error otherwise.
pub fn accept_schema_version(found: Option<u64>) -> (r: Result<u64, String>)
    ensures
        ({
            let version = match found {
                Some(v) => v,
                None => 1u64,
            };
            match r {
                Ok(v) => v == version && version <= CURRENT_SCHEMA_VERSION,
                Err(message) => version > CURRENT_SCHEMA_VERSION && message@ == unsupported_schema_message(version as nat),
            }
        }),
{
    let version = match found {
        Some(v) => v,
        None => 1,
    };
    if version > CURRENT_SCHEMA_VERSION as u64 {
        let digits = decimal_string(version);
        return Err(concat_str("unsupported config schema version ", digits.as_str()));
    }
    Ok(version)
}

/// The schema version of the settings text `source`: its JSON document's
/// `schemaVersion` (1 when absent or not an unsigned integer), accepted when
/// this library can read it. Text that is not JSON gives the parser's
/// message.
pub fn settings_schema_version(source: &str) -> (r: Result<u64, String>)
    ensures
        match json_document(source@) {
            Err(message) => r matches Err(e) && e@ == message,
            Ok(document) => {
                let version = match u64_of(get(document, "schemaVersion"@)) {
                    Some(v) => v,
                    None => 1u64,
                };
                match r {
                    Ok(v) => v == version && version <= CURRENT_SCHEMA_VERSION,
                    Err(message) => version > CURRENT_SCHEMA_VERSION
                        && message@ == unsupported_schema_message(version as nat),
                }
            },
        },
{
    let document = match parse_json(source) {
        Err(e) => return Err(e),
        Ok(d) => d,
    };
    let found = match get_field(&document, "schemaVersion") {
        Some(JsonValue::Number(n)) => *n,
        _ => None,
    };
    accept_schema_version(found)
}

} // verus!
