//! Configuration: its defaults, and the command-line overrides merged over
//! what the configuration file holds.

use vstd::prelude::*;
use crate::text::{chars_of, nonempty_trimmed_strings, split_at_char};

verus! {

/// The daemon's settings.
///
/// The border width is a floating-point number in the configuration file;
/// it is held here as the bit pattern of that `f64` (`f64::to_bits`), which
/// keeps it exactly and lets the logic test its sign.
#[derive(Debug, Clone)]
pub struct Config {
    /// Poll interval in milliseconds
    pub poll_millis: u64,
    /// Raise delay in ticks (0 = off, 1 = instant, 2+ = stop required)
    pub delay: u32,
    /// App names to never auto-raise
    pub ignore_apps: Vec<String>,
    /// Window title substrings to never auto-raise
    pub ignore_titles: Vec<String>,
    /// Temporarily disable key: "control" | "option" | "disabled"
    pub disable_key: String,
    /// Require mouse to stop before raising
    pub require_mouse_stop: bool,
    /// Skip tiled AeroSpace windows (only raise floating ones)
    pub aerospace_aware: bool,
    /// Poll cycles between AeroSpace floating window list refresh
    pub aerospace_refresh_cycles: u32,
    /// Border width as the bits of an `f64` (0.0 means disabled)
    pub border_width_bits: u64,
    /// Border hex color
    pub border_color: String,
}

/// The bits of the `f64` 4.0.
pub open spec fn four_bits() -> u64 {
    0x4010_0000_0000_0000
}

/// Whether the `f64` with these bits is greater than zero: not negative, not
/// zero, and not a NaN (positive infinity is greater than zero).
pub open spec fn positive_f64_bits(bits: u64) -> bool {
    0 < bits <= 0x7ff0_0000_0000_0000
}

/// Default poll interval in milliseconds.
pub fn default_poll_millis() -> (r: u64)
    ensures
        r == 50,
{
    50
}

/// Default raise delay in ticks.
pub fn default_delay() -> (r: u32)
    ensures
        r == 1,
{
    1
}

/// Default key that disables raising while held.
pub fn default_disable_key() -> (r: String)
    ensures
        r@ == "control"@,
{
    "control".to_owned()
}

/// Default of the boolean settings that are on unless turned off.
pub fn default_true() -> (r: bool)
    ensures
        r == true,
{
    true
}

/// Default number of poll cycles between AeroSpace refreshes.
pub fn default_aerospace_refresh() -> (r: u32)
    ensures
        r == 10,
{
    10
}

/// Default border width, 4.0, as the bits of an `f64`.
pub fn default_border_width() -> (r: u64)
    ensures
        r == four_bits(),
{
    0x4010_0000_0000_0000
}

/// Default border colour.
pub fn default_border_color() -> (r: String)
    ensures
        r@ == "#FF3366"@,
{
    "#FF3366".to_owned()
}

impl Config {
    /// The settings that hold when nothing overrides them.
    pub open spec fn is_default(&self) -> bool {
        &&& self.poll_millis == 50
        &&& self.delay == 1
        &&& self.ignore_apps@.len() == 0
        &&& self.ignore_titles@.len() == 0
        &&& self.disable_key@ == "control"@
        &&& self.require_mouse_stop
        &&& self.aerospace_aware
        &&& self.aerospace_refresh_cycles == 10
        &&& self.border_width_bits == four_bits()
        &&& self.border_color@ == "#FF3366"@
    }

    /// Whether a border is drawn: the border width is greater than zero.
    pub open spec fn border_shown(&self) -> bool {
        positive_f64_bits(self.border_width_bits)
    }

    /// Whether a border is drawn around the window that gets focus.
    pub fn show_border(&self) -> (r: bool)
        ensures
            r == self.border_shown(),
    {
        0 < self.border_width_bits && self.border_width_bits <= 0x7ff0_0000_0000_0000
    }
}

impl Default for Config {
    fn default() -> (r: Self)
        ensures
            r.is_default(),
    {
        Config {
            poll_millis: default_poll_millis(),
            delay: default_delay(),
            ignore_apps: Vec::new(),
            ignore_titles: Vec::new(),
            disable_key: default_disable_key(),
            require_mouse_stop: default_true(),
            aerospace_aware: default_true(),
            aerospace_refresh_cycles: default_aerospace_refresh(),
            border_width_bits: default_border_width(),
            border_color: default_border_color(),
        }
    }
}

/// The settings given on the command line; each one that is present
/// overrides the configuration file, and the ignore lists are added to it.
#[derive(Debug, Clone)]
pub struct Cli {
    /// Poll interval in milliseconds (min 20)
    pub poll_millis: Option<u64>,
    /// Raise delay in ticks (0=off, 1=instant, 2+=stop required)
    pub delay: Option<u32>,
    /// Comma-separated app names to ignore
    pub ignore_apps: Option<String>,
    /// Comma-separated window title substrings to ignore
    pub ignore_titles: Option<String>,
    /// Key that temporarily disables raising: control | option | disabled
    pub disable_key: Option<String>,
    /// AeroSpace integration on/off
    pub aerospace_aware: Option<bool>,
    /// Poll cycles between AeroSpace refresh
    pub aerospace_refresh_cycles: Option<u32>,
    /// Require mouse to stop before raising
    pub require_mouse_stop: Option<bool>,
    /// Verbose logging
    pub verbose: bool,
}

/// The items of a comma-separated list: each piece trimmed, empty ones left
/// out.
pub open spec fn list_items(s: Seq<char>) -> Seq<Seq<char>> {
    crate::text::nonempty_trimmed(crate::text::split(s, ','))
}

/// The items of a comma-separated list, trimmed, without empty ones.
pub fn split_list(s: &str) -> (r: Vec<String>)
    ensures
        crate::text::string_views(r@) == list_items(s@),
{
    let chars = chars_of(s);
    let pieces = split_at_char(chars.as_slice(), ',');
    nonempty_trimmed_strings(&pieces)
}

/// `v`, or `fallback` where `v` is absent.
pub open spec fn or_else<T>(v: Option<T>, fallback: T) -> T {
    match v {
        Some(x) => x,
        None => fallback,
    }
}

/// The list items that an optional command-line list adds.
pub open spec fn added_items(v: Option<String>) -> Seq<Seq<char>> {
    match v {
        Some(s) => list_items(s@),
        None => seq![],
    }
}

/// Adds the items of an optional comma-separated list to `list`.
fn append_items(list: &mut Vec<String>, items: &Option<String>)
    ensures
        crate::text::string_views(final(list)@) == crate::text::string_views(old(list)@)
            + added_items(*items),
{
    match items {
        Some(text) => {
            let mut extra = split_list(text.as_str());
            let ghost before = list@;
            let ghost added = extra@;
            list.append(&mut extra);
            assert(list@ == before + added);
            assert(crate::text::string_views(list@) =~= crate::text::string_views(before)
                + crate::text::string_views(added));
        },
        None => {
            assert(crate::text::string_views(list@) =~= crate::text::string_views(list@)
                + Seq::<Seq<char>>::empty());
        },
    }
}

/// What applying the command line `cli` to `before` gives `after`: each
/// setting that the command line gives replaces the file's, its ignore lists
/// are added after the file's, the border is as the file says, and the poll
/// interval is at least 20 ms.
pub open spec fn cli_applied(before: Config, cli: Cli, after: Config) -> bool {
    &&& after.poll_millis == if or_else(cli.poll_millis, before.poll_millis) < 20 {
        20
    } else {
        or_else(cli.poll_millis, before.poll_millis)
    }
    &&& after.delay == or_else(cli.delay, before.delay)
    &&& after.disable_key@ == match cli.disable_key {
        Some(k) => k@,
        None => before.disable_key@,
    }
    &&& after.require_mouse_stop == or_else(cli.require_mouse_stop, before.require_mouse_stop)
    &&& after.aerospace_aware == or_else(cli.aerospace_aware, before.aerospace_aware)
    &&& after.aerospace_refresh_cycles == or_else(
        cli.aerospace_refresh_cycles,
        before.aerospace_refresh_cycles,
    )
    &&& crate::text::string_views(after.ignore_apps@) == crate::text::string_views(before.ignore_apps@)
        + added_items(cli.ignore_apps)
    &&& crate::text::string_views(after.ignore_titles@) == crate::text::string_views(
        before.ignore_titles@,
    ) + added_items(cli.ignore_titles)
    &&& after.border_width_bits == before.border_width_bits
    &&& after.border_color@ == before.border_color@
}

impl Config {
    /// Overrides the settings that the command line gives, adds its ignore
    /// lists, and raises the poll interval to at least 20 ms.
    pub fn apply_cli(&mut self, cli: &Cli)
        ensures
            cli_applied(*old(self), *cli, *final(self)),
            final(self).poll_millis >= 20,
            cli.poll_millis matches Some(v) ==> final(self).poll_millis == (if v < 20 {
                20
            } else {
                v
            }),
            cli.poll_millis is None ==> final(self).poll_millis == (if old(self).poll_millis < 20 {
                20
            } else {
                old(self).poll_millis
            }),
            cli.delay matches Some(v) ==> final(self).delay == v,
            cli.delay is None ==> final(self).delay == old(self).delay,
            cli.disable_key matches Some(k) ==> final(self).disable_key@ == k@,
            cli.disable_key is None ==> final(self).disable_key@ == old(self).disable_key@,
            cli.require_mouse_stop matches Some(v) ==> final(self).require_mouse_stop == v,
            cli.require_mouse_stop is None ==> final(self).require_mouse_stop == old(
                self,
            ).require_mouse_stop,
            cli.aerospace_aware matches Some(v) ==> final(self).aerospace_aware == v,
            cli.aerospace_aware is None ==> final(self).aerospace_aware == old(self).aerospace_aware,
            cli.aerospace_refresh_cycles matches Some(v) ==> final(self).aerospace_refresh_cycles
                == v,
            cli.aerospace_refresh_cycles is None ==> final(self).aerospace_refresh_cycles == old(
                self,
            ).aerospace_refresh_cycles,
    {
        if let Some(v) = cli.poll_millis {
            self.poll_millis = v;
        }
        if let Some(v) = cli.delay {
            self.delay = v;
        }
        match &cli.disable_key {
            Some(k) => {
                self.disable_key = k.clone();
            },
            None => {},
        }
        if let Some(v) = cli.require_mouse_stop {
            self.require_mouse_stop = v;
        }
        if let Some(v) = cli.aerospace_aware {
            self.aerospace_aware = v;
        }
        if let Some(v) = cli.aerospace_refresh_cycles {
            self.aerospace_refresh_cycles = v;
        }
        append_items(&mut self.ignore_apps, &cli.ignore_apps);
        append_items(&mut self.ignore_titles, &cli.ignore_titles);
        if self.poll_millis < 20 {
            self.poll_millis = 20;
        }
    }
}

// ── Laws ──────────────────────────────────────────────────────────────────────

/// Each item of a comma-separated list is non-empty and neither starts nor
/// ends with white space.
pub proof fn lemma_list_items_trimmed(s: Seq<char>)
    ensures
        forall|i: int|
            0 <= i < list_items(s).len() ==> #[trigger] list_items(s)[i].len() > 0
                && crate::text::is_trimmed(list_items(s)[i]),
{
    lemma_nonempty_trimmed_items(crate::text::split(s, ','));
}

proof fn lemma_nonempty_trimmed_items(pieces: Seq<Seq<char>>)
    ensures
        forall|i: int|
            0 <= i < crate::text::nonempty_trimmed(pieces).len() ==> #[trigger] crate::text::nonempty_trimmed(
                pieces,
            )[i].len() > 0 && crate::text::is_trimmed(crate::text::nonempty_trimmed(pieces)[i]),
    decreases pieces.len(),
{
    if pieces.len() > 0 {
        let rest = crate::text::nonempty_trimmed(pieces.drop_last());
        let all = crate::text::nonempty_trimmed(pieces);
        lemma_nonempty_trimmed_items(pieces.drop_last());
        crate::text::lemma_trim_is_trimmed(pieces.last());
        assert forall|i: int| 0 <= i < all.len() implies #[trigger] all[i].len() > 0
            && crate::text::is_trimmed(all[i]) by {
            if i < rest.len() {
                assert(all[i] == rest[i]);
            }
        }
    }
}

/// By default a border is drawn: the default width 4.0 is greater than zero.
pub proof fn lemma_default_border_shown(c: Config)
    requires
        c.is_default(),
    ensures
        c.border_shown(),
{
}

/// A command line that gives nothing leaves the settings as they are, but
/// for a poll interval below the 20 ms minimum.
pub proof fn lemma_empty_command_line(before: Config, after: Config, cli: Cli)
    requires
        cli.poll_millis is None,
        cli.delay is None,
        cli.ignore_apps is None,
        cli.ignore_titles is None,
        cli.disable_key is None,
        cli.aerospace_aware is None,
        cli.aerospace_refresh_cycles is None,
        cli.require_mouse_stop is None,
        cli_applied(before, cli, after),
    ensures
        after.delay == before.delay,
        after.disable_key@ == before.disable_key@,
        after.require_mouse_stop == before.require_mouse_stop,
        after.aerospace_aware == before.aerospace_aware,
        after.aerospace_refresh_cycles == before.aerospace_refresh_cycles,
        crate::text::string_views(after.ignore_apps@) == crate::text::string_views(before.ignore_apps@),
        crate::text::string_views(after.ignore_titles@) == crate::text::string_views(
            before.ignore_titles@,
        ),
        before.poll_millis >= 20 ==> after.poll_millis == before.poll_millis,
{
    assert(crate::text::string_views(before.ignore_apps@) + added_items(cli.ignore_apps)
        =~= crate::text::string_views(before.ignore_apps@));
    assert(crate::text::string_views(before.ignore_titles@) + added_items(cli.ignore_titles)
        =~= crate::text::string_views(before.ignore_titles@));
}

/// Each command-line option sets its own setting and no other: a given value
/// replaces the file's, an absent one keeps it; the ignore lists get the
/// items of their own option appended, and the border stays as the file
/// says.
pub proof fn lemma_each_option_sets_its_own(before: Config, cli: Cli, after: Config)
    requires
        cli_applied(before, cli, after),
    ensures
        cli.delay matches Some(v) ==> after.delay == v,
        cli.delay is None ==> after.delay == before.delay,
        cli.disable_key matches Some(k) ==> after.disable_key@ == k@,
        cli.disable_key is None ==> after.disable_key@ == before.disable_key@,
        cli.require_mouse_stop matches Some(v) ==> after.require_mouse_stop == v,
        cli.require_mouse_stop is None ==> after.require_mouse_stop == before.require_mouse_stop,
        cli.aerospace_aware matches Some(v) ==> after.aerospace_aware == v,
        cli.aerospace_aware is None ==> after.aerospace_aware == before.aerospace_aware,
        cli.aerospace_refresh_cycles matches Some(v) ==> after.aerospace_refresh_cycles == v,
        cli.aerospace_refresh_cycles is None ==> after.aerospace_refresh_cycles
            == before.aerospace_refresh_cycles,
        cli.poll_millis matches Some(v) ==> (v >= 20 ==> after.poll_millis == v) && (v < 20
            ==> after.poll_millis == 20),
        cli.ignore_apps matches Some(s) ==> crate::text::string_views(after.ignore_apps@)
            == crate::text::string_views(before.ignore_apps@) + list_items(s@),
        cli.ignore_apps is None ==> crate::text::string_views(after.ignore_apps@)
            =~= crate::text::string_views(before.ignore_apps@),
        cli.ignore_titles matches Some(s) ==> crate::text::string_views(after.ignore_titles@)
            == crate::text::string_views(before.ignore_titles@) + list_items(s@),
        cli.ignore_titles is None ==> crate::text::string_views(after.ignore_titles@)
            =~= crate::text::string_views(before.ignore_titles@),
        after.border_width_bits == before.border_width_bits,
        after.border_color@ == before.border_color@,
{
    assert(crate::text::string_views(before.ignore_apps@) + Seq::<Seq<char>>::empty()
        =~= crate::text::string_views(before.ignore_apps@));
    assert(crate::text::string_views(before.ignore_titles@) + Seq::<Seq<char>>::empty()
        =~= crate::text::string_views(before.ignore_titles@));
}

} // verus!
