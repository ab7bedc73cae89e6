//! Decisions of the desktop shell: display capabilities, the self-test
//! switch, tray menu commands, and overlay placement on monitors.

use vstd::prelude::*;
use crate::config::{opt_view, str_equal, DesktopConfig, HerdrConfig};
use crate::text::{chars_of, copy_range, string_of};

verus! {

/// The display backend and whether a global shortcut and absolute window
/// positions are available, on Linux: X11 (also through XWayland) has both,
/// pure Wayland and headless sessions have neither.
pub fn linux_display_capabilities(has_x11: bool, has_wayland: bool) -> (r: (&'static str, bool, bool))
    ensures
        has_x11 ==> r.0@ == "x11-compatible"@ && r.1 && r.2,
        !has_x11 && has_wayland ==> r.0@ == "wayland"@ && !r.1 && !r.2,
        !has_x11 && !has_wayland ==> r.0@ == "headless"@ && !r.1 && !r.2,
{
    if has_x11 {
        ("x11-compatible", true, true)
    } else if has_wayland {
        ("wayland", false, false)
    } else {
        ("headless", false, false)
    }
}

/// The capabilities that the runtime self-test found.
#[derive(Debug)]
pub struct RuntimeSelfTestCapabilities {
    pub display_backend: &'static str,
    pub global_shortcut_available: bool,
    pub absolute_position_available: bool,
}

/// Whether the capabilities match what the backend promises: X11 and
/// native backends have both, Wayland has neither, others fail.
pub open spec fn capabilities_pass(backend: Seq<char>, shortcut: bool, position: bool) -> bool {
    if backend == "x11-compatible"@ || backend == "native"@ {
        shortcut && position
    } else if backend == "wayland"@ {
        !shortcut && !position
    } else {
        false
    }
}

pub fn runtime_self_test_capabilities_pass(capabilities: &RuntimeSelfTestCapabilities) -> (r: bool)
    ensures
        r == capabilities_pass(
            capabilities.display_backend@,
            capabilities.global_shortcut_available,
            capabilities.absolute_position_available,
        ),
{
    let backend = capabilities.display_backend;
    if str_equal(backend, "x11-compatible") || str_equal(backend, "native") {
        capabilities.global_shortcut_available && capabilities.absolute_position_available
    } else if str_equal(backend, "wayland") {
        !capabilities.global_shortcut_available && !capabilities.absolute_position_available
    } else {
        false
    }
}

/// The index of the first argument equal to `flag`, if any.
pub open spec fn first_index_of(args: Seq<String>, flag: Seq<char>) -> Option<int>
    decreases args.len(),
{
    if args.len() == 0 {
        None
    } else if args[0]@ == flag {
        Some(0)
    } else {
        match first_index_of(args.drop_first(), flag) {
            Some(i) => Some(i + 1),
            None => None,
        }
    }
}

/// The report path that follows the first `--runtime-self-test` argument:
/// none without the flag, an error when the path is missing or empty.
pub fn parse_runtime_self_test_report_path(args: &Vec<String>) -> (r: Result<Option<String>, String>)
    ensures
        match first_index_of(args@, "--runtime-self-test"@) {
            None => r == Ok::<Option<String>, String>(None),
            Some(i) => if i + 1 >= args@.len() {
                r matches Err(m) && m@ == "--runtime-self-test requires a report path"@
            } else if args@[i + 1]@.len() == 0 {
                r matches Err(m) && m@ == "--runtime-self-test report path cannot be empty"@
            } else {
                r matches Ok(Some(p)) && p@ == args@[i + 1]@
            },
        },
{
    let mut i: usize = 0;
    assert(args@.skip(0) =~= args@);
    while i < args.len()
        invariant
            i <= args@.len(),
            first_index_of(args@, "--runtime-self-test"@) == match first_index_of(args@.skip(i as int), "--runtime-self-test"@) {
                Some(j) => Some(j + i),
                None => None,
            },
        decreases args@.len() - i,
    {
        assert(args@.skip(i as int)[0] == args@[i as int]);
        if str_equal(args[i].as_str(), "--runtime-self-test") {
            if i + 1 >= args.len() {
                return Err("--runtime-self-test requires a report path".to_owned());
            }
            if args[i + 1].as_str().is_empty() {
                return Err("--runtime-self-test report path cannot be empty".to_owned());
            }
            return Ok(Some(args[i + 1].clone()));
        }
        assert(args@.skip(i as int).drop_first() =~= args@.skip(i + 1));
        i += 1;
    }
    Ok(None)
}

/// A command of the tray menu.
#[derive(Debug, Clone, PartialEq, Eq)]
pub enum MenuCommand {
    ToggleOverlay,
    TogglePaused,
    ToggleMuted,
    OpenSettings,
    ToggleClickThrough,
    Reconnect,
    Quit,
    /// Switch to the built-in avatar.
    BuiltInAvatar,
    /// Switch to the installation with this id.
    InstalledAvatar(String),
    Ignore,
}

/// `s` without every leading copy of `prefix`, as `str::trim_start_matches`
/// gives it for a non-empty prefix.
pub open spec fn strip_all_prefixes(s: Seq<char>, prefix: Seq<char>) -> Seq<char>
    decreases s.len(),
{
    if prefix.len() > 0 && s.len() >= prefix.len() && s.take(prefix.len() as int) == prefix {
        strip_all_prefixes(s.skip(prefix.len() as int), prefix)
    } else {
        s
    }
}

pub open spec fn starts_with(s: Seq<char>, prefix: Seq<char>) -> bool {
    s.len() >= prefix.len() && s.take(prefix.len() as int) == prefix
}

/// The command behind a tray menu item id.
pub open spec fn menu_command_for(id: Seq<char>, c: MenuCommand) -> bool {
    if id == "show"@ {
        c == MenuCommand::ToggleOverlay
    } else if id == "paused"@ {
        c == MenuCommand::TogglePaused
    } else if id == "muted"@ {
        c == MenuCommand::ToggleMuted
    } else if id == "settings"@ {
        c == MenuCommand::OpenSettings
    } else if id == "click-through"@ {
        c == MenuCommand::ToggleClickThrough
    } else if id == "reconnect"@ {
        c == MenuCommand::Reconnect
    } else if id == "quit"@ {
        c == MenuCommand::Quit
    } else if starts_with(id, "avatar:"@) {
        if strip_all_prefixes(id, "avatar:"@) == "built-in"@ {
            c == MenuCommand::BuiltInAvatar
        } else {
            c matches MenuCommand::InstalledAvatar(installation) && installation@ == strip_all_prefixes(id, "avatar:"@)
        }
    } else {
        c == MenuCommand::Ignore
    }
}

fn has_prefix_at(v: &Vec<char>, at: usize, prefix: &Vec<char>) -> (r: bool)
    requires
        at <= v@.len(),
    ensures
        r == starts_with(v@.skip(at as int), prefix@),
{
    if prefix.len() > v.len() - at {
        return false;
    }
    let mut j: usize = 0;
    while j < prefix.len()
        invariant
            j <= prefix@.len(),
            at + prefix@.len() <= v@.len(),
            prefix@.len() == prefix.len(),
            v@.len() == v.len(),
            forall|k: int| 0 <= k < j ==> v@[at + k] == prefix@[k],
        decreases prefix@.len() - j,
    {
        if v[at + j] != prefix[j] {
            assert(v@.skip(at as int).take(prefix@.len() as int)[j as int] != prefix@[j as int]);
            return false;
        }
        j += 1;
    }
    assert(v@.skip(at as int).take(prefix@.len() as int) =~= prefix@);
    true
}

/// Reads a tray menu item id.
pub fn menu_command(id: &str) -> (r: MenuCommand)
    ensures
        menu_command_for(id@, r),
{
    if str_equal(id, "show") {
        return MenuCommand::ToggleOverlay;
    }
    if str_equal(id, "paused") {
        return MenuCommand::TogglePaused;
    }
    if str_equal(id, "muted") {
        return MenuCommand::ToggleMuted;
    }
    if str_equal(id, "settings") {
        return MenuCommand::OpenSettings;
    }
    if str_equal(id, "click-through") {
        return MenuCommand::ToggleClickThrough;
    }
    if str_equal(id, "reconnect") {
        return MenuCommand::Reconnect;
    }
    if str_equal(id, "quit") {
        return MenuCommand::Quit;
    }
    let v = chars_of(id);
    let prefix = chars_of("avatar:");
    proof {
        reveal_strlit("avatar:");
    }
    assert(v@.skip(0) =~= v@);
    if !has_prefix_at(&v, 0, &prefix) {
        return MenuCommand::Ignore;
    }
    let mut at: usize = 0;
    while has_prefix_at(&v, at, &prefix)
        invariant
            at <= v@.len(),
            v@.len() == v.len(),
            prefix@.len() == prefix.len(),
            prefix@ == "avatar:"@,
            prefix@.len() == 7,
            strip_all_prefixes(id@, "avatar:"@) == strip_all_prefixes(v@.skip(at as int), "avatar:"@),
            v@ == id@,
        decreases v@.len() - at,
    {
        assert(v@.skip(at as int).skip(7) =~= v@.skip(at + 7));
        at = at + prefix.len();
    }
    assert(strip_all_prefixes(v@.skip(at as int), "avatar:"@) == v@.skip(at as int));
    let rest = copy_range(&v, at, v.len());
    assert(rest@ =~= v@.skip(at as int));
    let rest = string_of(&rest);
    if str_equal(rest.as_str(), "built-in") {
        MenuCommand::BuiltInAvatar
    } else {
        MenuCommand::InstalledAvatar(rest)
    }
}

/// A monitor's rectangle in physical pixels.
#[derive(Debug, Clone)]
pub struct MonitorBounds {
    pub id: Option<String>,
    pub x: i32,
    pub y: i32,
    pub width: u32,
    pub height: u32,
}

/// Whether monitor `m` has the name `id`.
pub open spec fn named(m: MonitorBounds, id: Seq<char>) -> bool {
    m.id matches Some(n) && n@ == id
}

/// The first monitor named `id`, where a saved overlay position is
/// restored; none when that monitor is gone.
pub fn find_monitor(monitors: &Vec<MonitorBounds>, id: &str) -> (r: Option<usize>)
    ensures
        match r {
            Some(i) => i < monitors@.len() && named(monitors@[i as int], id@)
                && forall|j: int| 0 <= j < i ==> !named(#[trigger] monitors@[j], id@),
            None => forall|j: int| 0 <= j < monitors@.len() ==> !named(#[trigger] monitors@[j], id@),
        },
{
    let mut i: usize = 0;
    while i < monitors.len()
        invariant
            i <= monitors@.len(),
            forall|j: int| 0 <= j < i ==> !named(#[trigger] monitors@[j], id@),
        decreases monitors@.len() - i,
    {
        let found = match &monitors[i].id {
            Some(n) => str_equal(n.as_str(), id),
            None => false,
        };
        if found {
            return Some(i);
        }
        i += 1;
    }
    None
}

pub open spec fn min_int(a: int, b: int) -> int {
    if a < b { a } else { b }
}

pub open spec fn max_int(a: int, b: int) -> int {
    if a > b { a } else { b }
}

/// How far a span `[start, start + len)` overlaps `[other, other + other_len)`.
pub open spec fn overlap(start: int, len: int, other: int, other_len: int) -> int {
    min_int(start + len, other + other_len) - max_int(start, other)
}

/// `v` read as an `i32`, as `v as i32` does: values above `i32::MAX` wrap
/// around to negative ones.
pub open spec fn signed(v: u32) -> int {
    if v <= i32::MAX {
        v as int
    } else {
        v as int - 0x1_0000_0000
    }
}

fn to_signed(v: u32) -> (r: i32)
    ensures
        r as int == signed(v),
{
    #[verifier::truncate]
    let r = v as i32;
    assert(r as int == if v <= 0x7fff_ffff { v as int } else { v as int - 0x1_0000_0000 }) by (bit_vector)
        requires
            r == v as i32,
    ;
    r
}

/// Whether a window of `width` by `height` at (`x`, `y`) overlaps `m` by at
/// least 64 pixels in both directions, enough to grab it. Sizes are read
/// as `i32`.
pub open spec fn grabbable_on(width: u32, height: u32, x: i32, y: i32, m: MonitorBounds) -> bool {
    overlap(x as int, signed(width), m.x as int, signed(m.width)) >= 64
        && overlap(y as int, signed(height), m.y as int, signed(m.height)) >= 64
}

/// The arithmetic of placement stays within `i32` for this window and
/// monitor (it overflows, and panics, otherwise).
pub open spec fn fits_i32(width: u32, height: u32, x: i32, y: i32, m: MonitorBounds) -> bool {
    &&& i32::MIN <= x + signed(width) <= i32::MAX && i32::MIN <= y + signed(height) <= i32::MAX
    &&& i32::MIN <= m.x + signed(m.width) <= i32::MAX && i32::MIN <= m.y + signed(m.height) <= i32::MAX
}

/// The overlaps with `m` are computed within `i32` (they overflow, and
/// panic, otherwise).
pub open spec fn overlap_fits_i32(width: u32, height: u32, x: i32, y: i32, m: MonitorBounds) -> bool {
    &&& fits_i32(width, height, x, y, m)
    &&& i32::MIN <= overlap(x as int, signed(width), m.x as int, signed(m.width)) <= i32::MAX
    &&& i32::MIN <= overlap(y as int, signed(height), m.y as int, signed(m.height)) <= i32::MAX
}

/// Whether the window can be grabbed on some monitor. The monitors are
/// tried in order, up to the first one that it can be grabbed on.
pub fn position_is_visible_in(width: u32, height: u32, monitors: &Vec<MonitorBounds>, x: i32, y: i32) -> (r: bool)
    requires
        forall|i: int| 0 <= i < monitors@.len()
            && (forall|j: int| 0 <= j < i ==> !grabbable_on(width, height, x, y, #[trigger] monitors@[j]))
            ==> overlap_fits_i32(width, height, x, y, #[trigger] monitors@[i]),
    ensures
        r == exists|i: int| 0 <= i < monitors@.len() && grabbable_on(width, height, x, y, #[trigger] monitors@[i]),
{
    let w = to_signed(width);
    let h = to_signed(height);
    for i in 0..monitors.len()
        invariant
            w as int == signed(width),
            h as int == signed(height),
            forall|k: int| 0 <= k < monitors@.len()
                && (forall|j: int| 0 <= j < k ==> !grabbable_on(width, height, x, y, #[trigger] monitors@[j]))
                ==> overlap_fits_i32(width, height, x, y, #[trigger] monitors@[k]),
            forall|j: int| 0 <= j < i ==> !grabbable_on(width, height, x, y, #[trigger] monitors@[j]),
    {
        let m = &monitors[i];
        assert(overlap_fits_i32(width, height, x, y, monitors@[i as int]));
        let mw = to_signed(m.width);
        let mh = to_signed(m.height);
        let right = if x + w < m.x + mw { x + w } else { m.x + mw };
        let left = if x > m.x { x } else { m.x };
        let bottom = if y + h < m.y + mh { y + h } else { m.y + mh };
        let top = if y > m.y { y } else { m.y };
        let overlap_x: i64 = right as i64 - left as i64;
        let overlap_y: i64 = bottom as i64 - top as i64;
        if overlap_x >= 64 && overlap_y >= 64 {
            return true;
        }
    }
    false
}

pub open spec fn abs_int(d: int) -> int {
    if d < 0 { -d } else { d }
}

fn abs_i32(v: i32) -> (r: i32)
    requires
        v > i32::MIN,
    ensures
        r == abs_int(v as int),
{
    if v < 0 { -v } else { v }
}

/// Where a window dragged to (`x`, `y`) settles: each coordinate within
/// `threshold` of a monitor edge snaps to it, the left or top edge first.
pub open spec fn snapped_coordinate(p: int, low: int, high: int, threshold: int) -> int {
    if abs_int(p - low) <= threshold {
        low
    } else if abs_int(p - high) <= threshold {
        high
    } else {
        p
    }
}

/// Snaps a window of `width` by `height` at (`x`, `y`) to the edges of `m`
/// within `threshold` pixels (16 logical pixels at the monitor's scale).
pub fn snap_to_edges(width: u32, height: u32, m: &MonitorBounds, threshold: i32, x: i32, y: i32) -> (r: (i32, i32))
    requires
        i32::MIN <= m.x + signed(m.width) <= i32::MAX,
        i32::MIN <= m.y + signed(m.height) <= i32::MAX,
        i32::MIN <= m.x + signed(m.width) - signed(width) <= i32::MAX,
        i32::MIN <= m.y + signed(m.height) - signed(height) <= i32::MAX,
        i32::MIN < x - m.x <= i32::MAX,
        i32::MIN < y - m.y <= i32::MAX,
        abs_int(x - m.x) <= threshold || i32::MIN < x - (m.x + signed(m.width) - signed(width)) <= i32::MAX,
        abs_int(y - m.y) <= threshold || i32::MIN < y - (m.y + signed(m.height) - signed(height)) <= i32::MAX,
    ensures
        r.0 == snapped_coordinate(x as int, m.x as int, m.x + signed(m.width) - signed(width), threshold as int),
        r.1 == snapped_coordinate(y as int, m.y as int, m.y + signed(m.height) - signed(height), threshold as int),
{
    let right = m.x + to_signed(m.width) - to_signed(width);
    let bottom = m.y + to_signed(m.height) - to_signed(height);
    let nx = if abs_i32(x - m.x) <= threshold {
        m.x
    } else if abs_i32(x - right) <= threshold {
        right
    } else {
        x
    };
    let ny = if abs_i32(y - m.y) <= threshold {
        m.y
    } else if abs_i32(y - bottom) <= threshold {
        bottom
    } else {
        y
    };
    (nx, ny)
}

/// A dropped window settles on a monitor edge or where it was dropped: a
/// coordinate within `threshold` of the left or top edge ends exactly on
/// that edge, one near only the far edge ends on the far edge, and one near
/// neither stays put.
pub proof fn law_snapping_settles_on_near_edges(p: int, low: int, high: int, threshold: int)
    ensures
        snapped_coordinate(p, low, high, threshold) == low
            || snapped_coordinate(p, low, high, threshold) == high
            || snapped_coordinate(p, low, high, threshold) == p,
        low - threshold <= p <= low + threshold ==> snapped_coordinate(p, low, high, threshold) == low,
        !(low - threshold <= p <= low + threshold) && high - threshold <= p <= high + threshold
            ==> snapped_coordinate(p, low, high, threshold) == high,
        !(low - threshold <= p <= low + threshold) && !(high - threshold <= p <= high + threshold)
            ==> snapped_coordinate(p, low, high, threshold) == p,
{
}

/// The texts of a list of strings.
pub open spec fn texts(v: Seq<String>) -> Seq<Seq<char>> {
    v.map_values(|s: String| s@)
}

fn same_optional_text(a: &Option<String>, b: &Option<String>) -> (r: bool)
    ensures
        r == (opt_view(*a) == opt_view(*b)),
{
    match (a, b) {
        (Some(x), Some(y)) => str_equal(x.as_str(), y.as_str()),
        (None, None) => true,
        _ => false,
    }
}

fn same_texts(a: &Vec<String>, b: &Vec<String>) -> (r: bool)
    ensures
        r == (texts(a@) == texts(b@)),
{
    if a.len() != b.len() {
        assert(texts(a@).len() != texts(b@).len());
        return false;
    }
    let mut i: usize = 0;
    while i < a.len()
        invariant
            i <= a@.len(),
            a@.len() == b@.len(),
            forall|k: int| 0 <= k < i ==> (#[trigger] a@[k])@ == b@[k]@,
        decreases a@.len() - i,
    {
        if !str_equal(a[i].as_str(), b[i].as_str()) {
            assert(texts(a@)[i as int] != texts(b@)[i as int]);
            return false;
        }
        i += 1;
    }
    assert(texts(a@) =~= texts(b@));
    true
}

/// Whether two Herdr settings are the same, field by field, by their texts.
pub open spec fn same_herdr(a: HerdrConfig, b: HerdrConfig) -> bool {
    &&& a.auto_discover == b.auto_discover
    &&& opt_view(a.session) == opt_view(b.session)
    &&& opt_view(a.socket_path) == opt_view(b.socket_path)
    &&& a.wsl.enabled == b.wsl.enabled
    &&& opt_view(a.wsl.distribution) == opt_view(b.wsl.distribution)
    &&& a.observation.mode == b.observation.mode
    &&& opt_view(a.observation.current_workspace_id) == opt_view(b.observation.current_workspace_id)
    &&& texts(a.observation.workspace_ids@) == texts(b.observation.workspace_ids@)
    &&& texts(a.observation.pane_ids@) == texts(b.observation.pane_ids@)
}

/// Any change of the Herdr settings asks for a new connection, whichever
/// field it touches; settings compared with themselves ask for none.
pub proof fn law_any_herdr_change_reconnects(a: HerdrConfig, b: HerdrConfig)
    ensures
        same_herdr(a, a),
        a.auto_discover != b.auto_discover ==> !same_herdr(a, b),
        opt_view(a.session) != opt_view(b.session) ==> !same_herdr(a, b),
        opt_view(a.socket_path) != opt_view(b.socket_path) ==> !same_herdr(a, b),
        a.wsl.enabled != b.wsl.enabled ==> !same_herdr(a, b),
        opt_view(a.wsl.distribution) != opt_view(b.wsl.distribution) ==> !same_herdr(a, b),
        a.observation.mode != b.observation.mode ==> !same_herdr(a, b),
        opt_view(a.observation.current_workspace_id) != opt_view(b.observation.current_workspace_id)
            ==> !same_herdr(a, b),
        a.observation.workspace_ids@.len() != b.observation.workspace_ids@.len() ==> !same_herdr(a, b),
        a.observation.pane_ids@.len() != b.observation.pane_ids@.len() ==> !same_herdr(a, b),
        forall|i: int| 0 <= i < a.observation.workspace_ids@.len() && 0 <= i < b.observation.workspace_ids@.len()
            && (#[trigger] a.observation.workspace_ids@[i])@ != b.observation.workspace_ids@[i]@
            ==> !same_herdr(a, b),
        forall|i: int| 0 <= i < a.observation.pane_ids@.len() && 0 <= i < b.observation.pane_ids@.len()
            && (#[trigger] a.observation.pane_ids@[i])@ != b.observation.pane_ids@[i]@
            ==> !same_herdr(a, b),
{
    if a.observation.workspace_ids@.len() != b.observation.workspace_ids@.len() {
        assert(texts(a.observation.workspace_ids@).len() != texts(b.observation.workspace_ids@).len());
    }
    if a.observation.pane_ids@.len() != b.observation.pane_ids@.len() {
        assert(texts(a.observation.pane_ids@).len() != texts(b.observation.pane_ids@).len());
    }
    assert forall|i: int| 0 <= i < a.observation.workspace_ids@.len() && 0 <= i < b.observation.workspace_ids@.len()
        && (#[trigger] a.observation.workspace_ids@[i])@ != b.observation.workspace_ids@[i]@
        implies !same_herdr(a, b) by {
        assert(texts(a.observation.workspace_ids@)[i] != texts(b.observation.workspace_ids@)[i]);
    }
    assert forall|i: int| 0 <= i < a.observation.pane_ids@.len() && 0 <= i < b.observation.pane_ids@.len()
        && (#[trigger] a.observation.pane_ids@[i])@ != b.observation.pane_ids@[i]@
        implies !same_herdr(a, b) by {
        assert(texts(a.observation.pane_ids@)[i] != texts(b.observation.pane_ids@)[i]);
    }
}

/// What a change of settings asks of the shell.
#[derive(Debug, Clone, Copy, PartialEq, Eq, Structural)]
pub struct SettingsChange {
    /// The Herdr settings changed, so the connection is made again.
    pub reconnect_needed: bool,
    /// Starting with the session was switched on or off.
    pub autostart_changed: bool,
    /// The global shortcut changed.
    pub shortcut_changed: bool,
}

/// What changes when the settings go from the `previous_*` ones to the new.
pub fn settings_change(
    previous_herdr: &HerdrConfig,
    herdr: &HerdrConfig,
    previous_desktop: &DesktopConfig,
    desktop: &DesktopConfig,
) -> (r: SettingsChange)
    ensures
        r.reconnect_needed == !same_herdr(*previous_herdr, *herdr),
        r.autostart_changed == (previous_desktop.auto_start != desktop.auto_start),
        r.shortcut_changed == (previous_desktop.toggle_shortcut@ != desktop.toggle_shortcut@),
{
    let same = previous_herdr.auto_discover == herdr.auto_discover
        && same_optional_text(&previous_herdr.session, &herdr.session)
        && same_optional_text(&previous_herdr.socket_path, &herdr.socket_path)
        && previous_herdr.wsl.enabled == herdr.wsl.enabled
        && same_optional_text(&previous_herdr.wsl.distribution, &herdr.wsl.distribution)
        && previous_herdr.observation.mode == herdr.observation.mode
        && same_optional_text(
            &previous_herdr.observation.current_workspace_id,
            &herdr.observation.current_workspace_id,
        )
        && same_texts(&previous_herdr.observation.workspace_ids, &herdr.observation.workspace_ids)
        && same_texts(&previous_herdr.observation.pane_ids, &herdr.observation.pane_ids);
    SettingsChange {
        reconnect_needed: !same,
        autostart_changed: previous_desktop.auto_start != desktop.auto_start,
        shortcut_changed: !str_equal(previous_desktop.toggle_shortcut.as_str(), desktop.toggle_shortcut.as_str()),
    }
}

/// An effect of taking new settings, named in the order it is applied.
#[derive(Debug, Clone, Copy, PartialEq, Eq, Structural)]
pub enum SettingsStep {
    /// Move the global shortcut.
    Shortcut,
    /// Keep the overlay above other windows, or not.
    AlwaysOnTop,
    /// Let the mouse pass through the overlay, or not.
    ClickThrough,
    /// Start with the session, or not.
    Autostart,
    /// Write the settings file.
    Save,
}

/// The effects to apply for `change`: the shortcut when it changed, the
/// overlay flags when there is an overlay, autostart when it changed, and
/// at last the save.
pub open spec fn steps_spec(change: SettingsChange, overlay: bool) -> Seq<SettingsStep> {
    (if change.shortcut_changed { seq![SettingsStep::Shortcut] } else { Seq::empty() })
        + (if overlay { seq![SettingsStep::AlwaysOnTop, SettingsStep::ClickThrough] } else { Seq::empty() })
        + (if change.autostart_changed { seq![SettingsStep::Autostart] } else { Seq::empty() })
        + seq![SettingsStep::Save]
}

/// What to undo, in order, when step `failed` fails: the effects applied
/// before it, the latest first, with the shortcut always last.
pub open spec fn rollback_spec(change: SettingsChange, overlay: bool, failed: SettingsStep) -> Seq<SettingsStep> {
    let shortcut = if change.shortcut_changed { seq![SettingsStep::Shortcut] } else { Seq::empty() };
    let overlay_steps = if overlay {
        seq![SettingsStep::AlwaysOnTop, SettingsStep::ClickThrough]
    } else {
        Seq::empty()
    };
    match failed {
        SettingsStep::Shortcut => Seq::empty(),
        SettingsStep::AlwaysOnTop => shortcut,
        SettingsStep::ClickThrough => seq![SettingsStep::AlwaysOnTop] + shortcut,
        SettingsStep::Autostart => overlay_steps + shortcut,
        SettingsStep::Save => (if change.autostart_changed { seq![SettingsStep::Autostart] } else { Seq::empty() })
            + overlay_steps + shortcut,
    }
}

/// The effects to apply for `change`, in order.
pub fn settings_steps(change: &SettingsChange, overlay: bool) -> (r: Vec<SettingsStep>)
    ensures
        r@ == steps_spec(*change, overlay),
{
    let mut r: Vec<SettingsStep> = Vec::new();
    if change.shortcut_changed {
        r.push(SettingsStep::Shortcut);
    }
    if overlay {
        r.push(SettingsStep::AlwaysOnTop);
        r.push(SettingsStep::ClickThrough);
    }
    if change.autostart_changed {
        r.push(SettingsStep::Autostart);
    }
    r.push(SettingsStep::Save);
    assert(r@ =~= steps_spec(*change, overlay));
    r
}

/// What to undo, in order, when `failed` fails.
pub fn settings_rollback(change: &SettingsChange, overlay: bool, failed: SettingsStep) -> (r: Vec<SettingsStep>)
    ensures
        r@ == rollback_spec(*change, overlay, failed),
{
    let mut r: Vec<SettingsStep> = Vec::new();
    match failed {
        SettingsStep::Shortcut => {},
        SettingsStep::AlwaysOnTop => {},
        SettingsStep::ClickThrough => {
            r.push(SettingsStep::AlwaysOnTop);
        },
        SettingsStep::Autostart => {
            if overlay {
                r.push(SettingsStep::AlwaysOnTop);
                r.push(SettingsStep::ClickThrough);
            }
        },
        SettingsStep::Save => {
            if change.autostart_changed {
                r.push(SettingsStep::Autostart);
            }
            if overlay {
                r.push(SettingsStep::AlwaysOnTop);
                r.push(SettingsStep::ClickThrough);
            }
        },
    }
    if failed != SettingsStep::Shortcut && change.shortcut_changed {
        r.push(SettingsStep::Shortcut);
    }
    assert(r@ =~= rollback_spec(*change, overlay, failed));
    r
}

/// What follows the steps of a settings change.
#[derive(Debug, Clone, Copy, PartialEq, Eq, Structural)]
pub struct SettingsCommit {
    /// The new (normalised) settings become the current ones.
    pub store: bool,
    /// The shell is told of the new settings and its tray is rebuilt.
    pub announce: bool,
    /// The connection to Herdr is made again.
    pub reconnect: bool,
}

/// What follows when the steps of `change` all succeeded (`succeeded`) or
/// one failed and was undone: the settings change, are announced and
/// reconnect only on success, and reconnect only when the Herdr settings
/// changed.
pub fn settings_commit(change: &SettingsChange, succeeded: bool) -> (r: SettingsCommit)
    ensures
        r.store == succeeded,
        r.announce == succeeded,
        r.reconnect == (succeeded && change.reconnect_needed),
{
    SettingsCommit { store: succeeded, announce: succeeded, reconnect: succeeded && change.reconnect_needed }
}

/// What to undo, in order, when a step of the tray's click-through toggle
/// fails: the toggle applies click-through, then saves; a failed save
/// restores click-through.
pub fn click_through_toggle_rollback(failed: SettingsStep) -> (r: Vec<SettingsStep>)
    ensures
        failed == SettingsStep::Save ==> r@ == seq![SettingsStep::ClickThrough],
        failed != SettingsStep::Save ==> r@.len() == 0,
{
    let mut r: Vec<SettingsStep> = Vec::new();
    if failed == SettingsStep::Save {
        r.push(SettingsStep::ClickThrough);
    }
    assert(failed == SettingsStep::Save ==> r@ =~= seq![SettingsStep::ClickThrough]);
    r
}

/// Every effect that a failing step leaves undone was applied before it,
/// and the failing step itself is never undone.
pub proof fn law_rollback_undoes_only_applied_steps(change: SettingsChange, overlay: bool, failed: SettingsStep)
    requires
        steps_spec(change, overlay).contains(failed),
    ensures
        !rollback_spec(change, overlay, failed).contains(failed),
        forall|k: int| 0 <= k < rollback_spec(change, overlay, failed).len()
            ==> #[trigger] steps_spec(change, overlay).contains(rollback_spec(change, overlay, failed)[k]),
{
    let steps = steps_spec(change, overlay);
    let undo = rollback_spec(change, overlay, failed);
    assert forall|k: int| 0 <= k < undo.len() implies #[trigger] steps.contains(undo[k]) by {
        let u = undo[k];
        if u == SettingsStep::Shortcut {
            assert(steps[0] == u);
        } else if u == SettingsStep::AlwaysOnTop {
            let i = if change.shortcut_changed { 1int } else { 0int };
            assert(steps[i] == u);
        } else if u == SettingsStep::ClickThrough {
            let i = if change.shortcut_changed { 2int } else { 1int };
            assert(steps[i] == u);
        } else if u == SettingsStep::Autostart {
            let i = (if change.shortcut_changed { 1int } else { 0int }) + (if overlay { 2int } else { 0int });
            assert(steps[i] == u);
        }
    }
}

/// Whether the global shortcut must be registered anew: only where global
/// shortcuts are supported and the shortcut differs.
pub fn shortcut_replacement_needed(supported: bool, previous: &str, next: &str) -> (r: bool)
    ensures
        r == (supported && previous@ != next@),
{
    supported && !str_equal(previous, next)
}

/// The verdict of the runtime self-test: its error is the first of the
/// runtime's own error, the error met while inspecting the overlay window,
/// a failed window check and a failed capability check; it succeeds when
/// the runtime did, drew SVG elements, offered animations, and no check
/// failed.
pub fn self_test_verdict(
    runtime_success: bool,
    available_animation_count: u32,
    svg_elements: u32,
    window_passes: bool,
    capabilities_pass: bool,
    runtime_error: Option<String>,
    window_error: Option<String>,
) -> (r: (bool, Option<String>))
    ensures
        runtime_error is Some ==> r.1 == runtime_error,
        runtime_error is None && window_error is Some ==> r.1 == window_error,
        runtime_error is None && window_error is None && !window_passes ==> (r.1 matches Some(e)
            && e@ == "pet overlay window checks failed"@),
        runtime_error is None && window_error is None && window_passes && !capabilities_pass ==> (r.1 matches Some(e)
            && e@ == "display capability checks failed"@),
        runtime_error is None && window_error is None && window_passes && capabilities_pass ==> r.1 is None,
        r.0 == (runtime_success && svg_elements > 0 && available_animation_count > 0 && window_passes
            && capabilities_pass && r.1 is None),
{
    let error = match runtime_error {
        Some(e) => Some(e),
        None => match window_error {
            Some(e) => Some(e),
            None => if !window_passes {
                Some("pet overlay window checks failed".to_owned())
            } else if !capabilities_pass {
                Some("display capability checks failed".to_owned())
            } else {
                None
            },
        },
    };
    let success = runtime_success && svg_elements > 0 && available_animation_count > 0 && window_passes
        && capabilities_pass && error.is_none();
    (success, error)
}

} // verus!
