//! AeroSpace tiling WM integration.
//!
//! AeroSpace answers queries through its command-line client (`aerospace
//! list-windows ...`, `aerospace list-workspaces ...`). A window that is not
//! among the tiled ones is FLOATING. Floating windows are the only ones to
//! auto-raise; tiled windows are left to AeroSpace's own focus system.
//!
//! The state keeps the set of floating window IDs, the window-id → workspace
//! map and the focused workspace. A refresh is a sequence of queries whose
//! replies decide which query comes next: the caller runs each query that
//! `RefreshJob::next_command` names and hands the reply to
//! `AeroSpaceState::refresh_step`, until no query is left.

use vstd::prelude::*;
use std::collections::{HashMap, HashSet};
use std::time::{Duration, Instant};
use crate::text::{chars_of, contains_str, nonempty_trimmed_strings, parse_u32_chars, split_lines,
    split_once_at, string_of, text_of, trim_chars};

verus! {

broadcast use {vstd::std_specs::hash::group_hash_axioms, vstd::seq::Seq::lemma_push_to_set_commute};

// ── Clock ─────────────────────────────────────────────────────────────────────

#[verifier::external_type_specification]
#[verifier::external_body]
pub struct ExInstant(std::time::Instant);

/// Calls `Instant::now`; nothing is claimed of the instant it returns.
#[verifier::external_body]
fn clock_now() -> Instant {
    Instant::now()
}

/// Calls `Instant::elapsed`; nothing is claimed of the duration it returns.
#[verifier::external_body]
fn time_since(t: &Instant) -> Duration {
    t.elapsed()
}

/// Calls `Duration::as_millis`; nothing is claimed of the number it returns.
#[verifier::external_body]
fn whole_millis(d: &Duration) -> u128 {
    d.as_millis()
}

// ── Queries and their replies ─────────────────────────────────────────────────

/// One query to the `aerospace` command-line client.
#[derive(Debug, Clone)]
pub enum AeroCommand {
    /// `aerospace version`: is AeroSpace installed and running?
    Version,
    /// The focused workspace.
    FocusedWorkspace,
    /// Every window ID, tagged with its workspace.
    WindowWorkspaceMap,
    /// The IDs of tiled windows.
    TiledWindowIds,
    /// The names of all workspaces.
    AllWorkspaces,
    /// The IDs of the windows on one workspace.
    WorkspaceWindows(String),
    /// Every window ID.
    AllWindowIds,
}

/// The arguments that the client is run with for a query.
pub open spec fn command_args(c: AeroCommand) -> Seq<Seq<char>> {
    match c {
        AeroCommand::Version => seq!["version"@],
        AeroCommand::FocusedWorkspace => seq!["list-workspaces"@, "--focused"@],
        AeroCommand::WindowWorkspaceMap => seq![
            "list-windows"@,
            "--all"@,
            "--format"@,
            "%{window-id}\t%{workspace}"@,
        ],
        AeroCommand::TiledWindowIds => seq![
            "list-windows"@,
            "--all"@,
            "--format"@,
            "%{window-id}"@,
            "--filter-tiling-windows"@,
        ],
        AeroCommand::AllWorkspaces => seq!["list-workspaces"@, "--all"@],
        AeroCommand::WorkspaceWindows(ws) => seq![
            "list-windows"@,
            "--workspace"@,
            ws@,
            "--format"@,
            "%{window-id}"@,
        ],
        AeroCommand::AllWindowIds => seq!["list-windows"@, "--all"@, "--format"@, "%{window-id}"@],
    }
}

impl AeroCommand {
    /// The program that answers the queries.
    pub fn program() -> (r: String)
        ensures
            r@ == "aerospace"@,
    {
        "aerospace".to_owned()
    }

    /// The arguments that the client is run with for this query.
    pub fn args(&self) -> (r: Vec<String>)
        ensures
            crate::text::string_views(r@) == command_args(*self),
    {
        let mut r: Vec<String> = Vec::new();
        match self {
            AeroCommand::Version => {
                r.push("version".to_owned());
            },
            AeroCommand::FocusedWorkspace => {
                r.push("list-workspaces".to_owned());
                r.push("--focused".to_owned());
            },
            AeroCommand::WindowWorkspaceMap => {
                r.push("list-windows".to_owned());
                r.push("--all".to_owned());
                r.push("--format".to_owned());
                r.push("%{window-id}\t%{workspace}".to_owned());
            },
            AeroCommand::TiledWindowIds => {
                r.push("list-windows".to_owned());
                r.push("--all".to_owned());
                r.push("--format".to_owned());
                r.push("%{window-id}".to_owned());
                r.push("--filter-tiling-windows".to_owned());
            },
            AeroCommand::AllWorkspaces => {
                r.push("list-workspaces".to_owned());
                r.push("--all".to_owned());
            },
            AeroCommand::WorkspaceWindows(ws) => {
                r.push("list-windows".to_owned());
                r.push("--workspace".to_owned());
                r.push(ws.clone());
                r.push("--format".to_owned());
                r.push("%{window-id}".to_owned());
            },
            AeroCommand::AllWindowIds => {
                r.push("list-windows".to_owned());
                r.push("--all".to_owned());
                r.push("--format".to_owned());
                r.push("%{window-id}".to_owned());
            },
        }
        assert(crate::text::string_views(r@) =~= command_args(*self));
        r
    }
}

/// What a finished run of the client gave: whether it exited with success,
/// and what it wrote. A run that could not be started has no output at all
/// (`None` where an `Option<CommandOutput>` is expected).
#[derive(Debug, Clone)]
pub struct CommandOutput {
    pub success: bool,
    pub stdout: Vec<u8>,
    pub stderr: Vec<u8>,
}

/// The text that the client wrote to standard output.
pub open spec fn out_text(o: CommandOutput) -> Seq<char> {
    crate::text::utf8_lossy(o.stdout@)
}

/// Whether the client failed because it does not know a flag or format
/// token, so that the caller falls back to another query.
pub open spec fn unknown_flag(o: CommandOutput) -> bool {
    let err = crate::text::utf8_lossy(o.stderr@);
    !o.success && (crate::text::contains(err, "Unknown"@) || crate::text::contains(
        err,
        "unrecognized"@,
    ))
}

/// The window IDs that lines of client output name, one per line.
pub open spec fn ids_in_lines(ls: Seq<Seq<char>>) -> Set<u32>
    decreases ls.len(),
{
    if ls.len() == 0 {
        Set::empty()
    } else {
        let rest = ids_in_lines(ls.drop_last());
        match crate::text::parse_u32(crate::text::trim(ls.last())) {
            Some(id) => rest.insert(id),
            None => rest,
        }
    }
}

/// The window IDs that a query reply lists, or `None` where the query could
/// not run or used a flag that the client does not know.
pub open spec fn window_ids_reply(r: Option<CommandOutput>) -> Option<Set<u32>> {
    match r {
        None => None,
        Some(o) => if unknown_flag(o) {
            None
        } else {
            Some(ids_in_lines(crate::text::lines(out_text(o))))
        },
    }
}

/// A line `<window-id>\t<workspace>` read as an entry of the window map: the
/// workspace trimmed and not empty, the ID a `u32`.
pub open spec fn workspace_entry(line: Seq<char>) -> Option<(u32, Seq<char>)> {
    let (id_part, rest) = crate::text::split_once(line, '\t');
    let ws = crate::text::trim(
        match rest {
            Some(w) => w,
            None => seq![],
        },
    );
    if ws.len() == 0 {
        None
    } else {
        match crate::text::parse_u32(crate::text::trim(id_part)) {
            Some(id) => Some((id, ws)),
            None => None,
        }
    }
}

/// The window map that lines of client output give; a later line for the
/// same window wins.
pub open spec fn workspace_map_in_lines(ls: Seq<Seq<char>>) -> Map<u32, Seq<char>>
    decreases ls.len(),
{
    if ls.len() == 0 {
        Map::empty()
    } else {
        let rest = workspace_map_in_lines(ls.drop_last());
        match workspace_entry(ls.last()) {
            Some((id, ws)) => rest.insert(id, ws),
            None => rest,
        }
    }
}

/// The window-id → workspace map that a query reply gives, or `None` where
/// the query could not run or used a format token the client does not know.
pub open spec fn window_workspace_reply(r: Option<CommandOutput>) -> Option<Map<u32, Seq<char>>> {
    match r {
        None => None,
        Some(o) => if unknown_flag(o) {
            None
        } else {
            Some(workspace_map_in_lines(crate::text::lines(out_text(o))))
        },
    }
}

/// The focused workspace that a reply names: its first line, trimmed, where
/// the query succeeded and that line is not empty.
pub open spec fn focused_workspace_reply(r: Option<CommandOutput>) -> Option<Seq<char>> {
    match r {
        None => None,
        Some(o) => {
            let ls = crate::text::lines(out_text(o));
            if !o.success || ls.len() == 0 || crate::text::trim(ls[0]).len() == 0 {
                None
            } else {
                Some(crate::text::trim(ls[0]))
            }
        },
    }
}

/// The workspace names that a reply lists, trimmed and without empty lines,
/// or `None` where the query did not succeed.
pub open spec fn workspace_names_reply(r: Option<CommandOutput>) -> Option<Seq<Seq<char>>> {
    match r {
        None => None,
        Some(o) => if !o.success {
            None
        } else {
            Some(crate::text::nonempty_trimmed(crate::text::lines(out_text(o))))
        },
    }
}

/// `m` with each window of `ids` mapped to `ws`.
pub open spec fn with_windows_on(m: Map<u32, Seq<char>>, ids: Set<u32>, ws: Seq<char>) -> Map<
    u32,
    Seq<char>,
> {
    Map::new(
        |k: u32| m.contains_key(k) || ids.contains(k),
        |k: u32|
            if ids.contains(k) {
                ws
            } else {
                m[k]
            },
    )
}

/// The window map after the reply that lists the windows on workspace `ws`:
/// each ID it lists maps to `ws`, whether the query succeeded or not; a query
/// that could not run adds nothing.
pub open spec fn enumeration_after(m: Map<u32, Seq<char>>, ws: Seq<char>, r: Option<
    CommandOutput,
>) -> Map<u32, Seq<char>> {
    match r {
        None => m,
        Some(o) => with_windows_on(m, ids_in_lines(crate::text::lines(out_text(o))), ws),
    }
}

/// The workspace names of a map of strings.
pub open spec fn names_view(m: Map<u32, String>) -> Map<u32, Seq<char>> {
    m.map_values(|s: String| s@)
}

/// The view of an optional string.
pub open spec fn opt_view(s: Option<String>) -> Option<Seq<char>> {
    match s {
        Some(x) => Some(x@),
        None => None,
    }
}

fn window_ids_in(ls: &Vec<Vec<char>>) -> (r: HashSet<u32>)
    ensures
        r@ == ids_in_lines(crate::text::views(ls@)),
{
    let ghost lv = crate::text::views(ls@);
    let mut r: HashSet<u32> = HashSet::new();
    let mut i: usize = 0;
    assert(lv.take(0) =~= Seq::<Seq<char>>::empty());
    while i < ls.len()
        invariant
            0 <= i <= ls@.len(),
            lv == crate::text::views(ls@),
            r@ == ids_in_lines(lv.take(i as int)),
        decreases ls.len() - i,
    {
        let ghost pre = lv.take(i as int + 1);
        assert(pre.drop_last() =~= lv.take(i as int));
        assert(pre.last() == ls@[i as int]@);
        let t = trim_chars(ls[i].as_slice());
        match parse_u32_chars(t.as_slice()) {
            Some(id) => {
                r.insert(id);
            },
            None => {},
        }
        i = i + 1;
    }
    assert(lv.take(ls@.len() as int) =~= lv);
    r
}

fn unknown_flag_of(o: &CommandOutput) -> (r: bool)
    ensures
        r == unknown_flag(*o),
{
    if o.success {
        return false;
    }
    let err = text_of(&o.stderr);
    contains_str(err.as_slice(), "Unknown") || contains_str(err.as_slice(), "unrecognized")
}

/// The window IDs that a reply lists (see `window_ids_reply`).
pub fn window_ids_of(r: &Option<CommandOutput>) -> (ids: Option<HashSet<u32>>)
    ensures
        ids is Some == window_ids_reply(*r) is Some,
        ids is Some ==> ids->0@ == window_ids_reply(*r)->0,
{
    match r {
        None => None,
        Some(o) => {
            if unknown_flag_of(o) {
                None
            } else {
                let text = text_of(&o.stdout);
                let ls = split_lines(text.as_slice());
                Some(window_ids_in(&ls))
            }
        },
    }
}

fn workspace_entry_of(line: &[char]) -> (r: Option<(u32, String)>)
    ensures
        match r {
            Some((id, ws)) => workspace_entry(line@) == Some((id, ws@)),
            None => workspace_entry(line@) is None,
        },
{
    let (id_part, rest) = split_once_at(line, '\t');
    let ws = match rest {
        Some(w) => trim_chars(w.as_slice()),
        None => {
            let empty: Vec<char> = Vec::new();
            assert(empty@ =~= Seq::<char>::empty());
            trim_chars(empty.as_slice())
        },
    };
    if ws.len() == 0 {
        return None;
    }
    let id_text = trim_chars(id_part.as_slice());
    match parse_u32_chars(id_text.as_slice()) {
        Some(id) => Some((id, string_of(ws.as_slice()))),
        None => None,
    }
}

/// The window map that a reply gives (see `window_workspace_reply`).
pub fn window_workspace_of(r: &Option<CommandOutput>) -> (m: Option<HashMap<u32, String>>)
    ensures
        m is Some == window_workspace_reply(*r) is Some,
        m is Some ==> names_view(m->0@) == window_workspace_reply(*r)->0,
{
    match r {
        None => None,
        Some(o) => {
            if unknown_flag_of(o) {
                return None;
            }
            let text = text_of(&o.stdout);
            let ls = split_lines(text.as_slice());
            let ghost lv = crate::text::views(ls@);
            let mut m: HashMap<u32, String> = HashMap::new();
            let mut i: usize = 0;
            assert(lv.take(0) =~= Seq::<Seq<char>>::empty());
            assert(names_view(m@) =~= Map::<u32, Seq<char>>::empty());
            while i < ls.len()
                invariant
                    0 <= i <= ls@.len(),
                    lv == crate::text::views(ls@),
                    names_view(m@) == workspace_map_in_lines(lv.take(i as int)),
                decreases ls.len() - i,
            {
                let ghost pre = lv.take(i as int + 1);
                assert(pre.drop_last() =~= lv.take(i as int));
                assert(pre.last() == ls@[i as int]@);
                match workspace_entry_of(ls[i].as_slice()) {
                    Some((id, ws)) => {
                        let ghost before = m@;
                        m.insert(id, ws);
                        assert(names_view(m@) =~= names_view(before).insert(id, ws@));
                    },
                    None => {},
                }
                i = i + 1;
            }
            assert(lv.take(ls@.len() as int) =~= lv);
            Some(m)
        },
    }
}

/// The focused workspace that a reply names (see `focused_workspace_reply`).
pub fn focused_workspace_of(r: &Option<CommandOutput>) -> (ws: Option<String>)
    ensures
        opt_view(ws) == focused_workspace_reply(*r),
{
    match r {
        None => None,
        Some(o) => {
            if !o.success {
                return None;
            }
            let text = text_of(&o.stdout);
            let ls = split_lines(text.as_slice());
            if ls.len() == 0 {
                return None;
            }
            assert(crate::text::views(ls@)[0] == ls@[0]@);
            let name = trim_chars(ls[0].as_slice());
            if name.len() == 0 {
                None
            } else {
                Some(string_of(name.as_slice()))
            }
        },
    }
}

/// The workspace names that a reply lists (see `workspace_names_reply`).
pub fn workspace_names_of(r: &Option<CommandOutput>) -> (names: Option<Vec<String>>)
    ensures
        names is Some == workspace_names_reply(*r) is Some,
        names is Some ==> crate::text::string_views(names->0@) == workspace_names_reply(*r)->0,
{
    match r {
        None => None,
        Some(o) => {
            if !o.success {
                return None;
            }
            let text = text_of(&o.stdout);
            let ls = split_lines(text.as_slice());
            Some(nonempty_trimmed_strings(&ls))
        },
    }
}

/// Adds to `m` the windows that a reply lists for workspace `ws` (see
/// `enumeration_after`).
fn add_workspace_windows(m: &mut HashMap<u32, String>, ws: &String, r: &Option<CommandOutput>)
    ensures
        names_view(final(m)@) == enumeration_after(names_view(old(m)@), ws@, *r),
{
    match r {
        None => {},
        Some(o) => {
            let text = text_of(&o.stdout);
            let ls = split_lines(text.as_slice());
            let ghost lv = crate::text::views(ls@);
            let ghost m0 = names_view(m@);
            let mut i: usize = 0;
            assert(lv.take(0) =~= Seq::<Seq<char>>::empty());
            assert(names_view(m@) =~= with_windows_on(m0, Set::empty(), ws@));
            while i < ls.len()
                invariant
                    0 <= i <= ls@.len(),
                    lv == crate::text::views(ls@),
                    names_view(m@) == with_windows_on(m0, ids_in_lines(lv.take(i as int)), ws@),
                decreases ls.len() - i,
            {
                let ghost pre = lv.take(i as int + 1);
                assert(pre.drop_last() =~= lv.take(i as int));
                assert(pre.last() == ls@[i as int]@);
                let t = trim_chars(ls[i].as_slice());
                match parse_u32_chars(t.as_slice()) {
                    Some(id) => {
                        let ghost before = m@;
                        let ghost old_ids = ids_in_lines(lv.take(i as int));
                        assert(ids_in_lines(pre) == old_ids.insert(id));
                        let w = ws.clone();
                        m.insert(id, w);
                        assert(names_view(m@) =~= names_view(before).insert(id, ws@));
                        assert(names_view(m@) =~= with_windows_on(
                            m0,
                            ids_in_lines(pre),
                            ws@,
                        ));
                    },
                    None => {
                        assert(names_view(m@) =~= with_windows_on(
                            m0,
                            ids_in_lines(pre),
                            ws@,
                        ));
                    },
                }
                i = i + 1;
            }
            assert(lv.take(ls@.len() as int) =~= lv);
        },
    }
}

// ── Sets of window IDs ────────────────────────────────────────────────────────

fn difference(all: &HashSet<u32>, tiled: &HashSet<u32>) -> (r: HashSet<u32>)
    ensures
        r@ == all@.difference(tiled@),
{
    let mut r: HashSet<u32> = HashSet::new();
    for x in it: all.iter()
        invariant
            it.seq().unref().to_set() == all@,
            r@ == it.seq().take(it.index() as int).unref().to_set().difference(tiled@),
            it.index() == it.seq().len() ==> r@ == all@.difference(tiled@),
    {
        assert(x == it.seq()[it.index()]);
        assert(it.seq().take(it.index() + 1 as int).unref() =~= it.seq().take(
            it.index() as int,
        ).unref().push(*x));
        if !tiled.contains(x) {
            r.insert(*x);
        }
        assert(r@ =~= it.seq().take(it.index() + 1 as int).unref().to_set().difference(tiled@));
        assert(it.index() + 1 == it.seq().len() ==> it.seq().take(it.index() + 1 as int)
            =~= it.seq());
    }
    r
}

fn key_set(m: &HashMap<u32, String>) -> (r: HashSet<u32>)
    ensures
        r@ == m@.dom(),
{
    let mut r: HashSet<u32> = HashSet::new();
    for x in it: m.keys()
        invariant
            it.seq().unref().to_set() == m@.dom(),
            r@ == it.seq().take(it.index() as int).unref().to_set(),
            it.index() == it.seq().len() ==> r@ == m@.dom(),
    {
        assert(x == it.seq()[it.index()]);
        assert(it.seq().take(it.index() + 1 as int).unref() =~= it.seq().take(
            it.index() as int,
        ).unref().push(*x));
        r.insert(*x);
        assert(r@ =~= it.seq().take(it.index() + 1 as int).unref().to_set());
        assert(it.index() + 1 == it.seq().len() ==> it.seq().take(it.index() + 1 as int)
            =~= it.seq());
    }
    r
}

// ── Refresh ───────────────────────────────────────────────────────────────────

/// Where a refresh stands: the query whose reply it waits for next.
#[derive(Debug, Clone, Copy, PartialEq, Eq)]
pub enum RefreshStage {
    FocusedWorkspace,
    WindowWorkspaceMap,
    TiledWindowIds,
    Workspaces,
    WorkspaceWindows,
    AllWindowIds,
    Finished,
}

/// What a refresh has gathered so far.
pub struct RefreshJobView {
    pub stage: RefreshStage,
    /// The window map from the tagged listing, once its reply is in.
    pub map: Option<Map<u32, Seq<char>>>,
    /// The tiled window IDs, once their reply is in.
    pub tiled: Option<Set<u32>>,
    /// The workspaces whose windows are being listed one by one.
    pub names: Seq<Seq<char>>,
    /// The next workspace of `names` to list.
    pub next_ws: int,
    /// The window map built from the per-workspace listings so far.
    pub enum_map: Map<u32, Seq<char>>,
}

/// A refresh of the AeroSpace state in progress.
pub struct RefreshJob {
    stage: RefreshStage,
    map: Option<HashMap<u32, String>>,
    tiled: Option<HashSet<u32>>,
    names: Vec<String>,
    next_ws: usize,
    enum_map: HashMap<u32, String>,
}

impl View for RefreshJob {
    type V = RefreshJobView;

    closed spec fn view(&self) -> RefreshJobView {
        RefreshJobView {
            stage: self.stage,
            map: match self.map {
                Some(m) => Some(names_view(m@)),
                None => None,
            },
            tiled: match self.tiled {
                Some(t) => Some(t@),
                None => None,
            },
            names: crate::text::string_views(self.names@),
            next_ws: self.next_ws as int,
            enum_map: names_view(self.enum_map@),
        }
    }
}

/// A refresh that has just begun.
pub open spec fn start_job() -> RefreshJobView {
    RefreshJobView {
        stage: RefreshStage::FocusedWorkspace,
        map: None,
        tiled: None,
        names: seq![],
        next_ws: 0,
        enum_map: Map::empty(),
    }
}

/// A refresh that is over; it keeps nothing.
pub open spec fn done_job() -> RefreshJobView {
    RefreshJobView {
        stage: RefreshStage::Finished,
        map: None,
        tiled: None,
        names: seq![],
        next_ws: 0,
        enum_map: Map::empty(),
    }
}

/// Whether `c` is the query that a refresh at `j` runs next.
pub open spec fn is_next_command(j: RefreshJobView, c: Option<AeroCommand>) -> bool {
    match j.stage {
        RefreshStage::FocusedWorkspace => c == Some(AeroCommand::FocusedWorkspace),
        RefreshStage::WindowWorkspaceMap => c == Some(AeroCommand::WindowWorkspaceMap),
        RefreshStage::TiledWindowIds => c == Some(AeroCommand::TiledWindowIds),
        RefreshStage::Workspaces => c == Some(AeroCommand::AllWorkspaces),
        RefreshStage::WorkspaceWindows => c matches Some(AeroCommand::WorkspaceWindows(ws)) && ws@
            == j.names[j.next_ws],
        RefreshStage::AllWindowIds => c == Some(AeroCommand::AllWindowIds),
        RefreshStage::Finished => c is None,
    }
}

/// The sets that a finished refresh decides: every window ID, the tiled
/// ones, and the window-id → workspace map. The floating windows are the
/// first set without the second.
pub struct RefreshSets {
    pub all: Set<u32>,
    pub tiled: Set<u32>,
    pub workspaces: Map<u32, Seq<char>>,
}

/// The sets when the per-workspace listing `e` has been built: with a tagged
/// listing `map`, all windows are its keys, the tiled ones those that the
/// listing found, and the map is `map`. Without one, another query follows.
pub open spec fn sets_after_enumeration(map: Option<Map<u32, Seq<char>>>, e: Map<u32, Seq<char>>) -> Option<
    RefreshSets,
> {
    match map {
        Some(m) => Some(RefreshSets { all: m.dom(), tiled: e.dom(), workspaces: m }),
        None => None,
    }
}

/// The sets that the reply `r` completes, if it completes the refresh at `j`:
///   - both listings answered: all = the tagged listing's windows, tiled =
///     what `--filter-tiling-windows` listed;
///   - the tagged listing answered but not the tiled one: tiled = the windows
///     found workspace by workspace;
///   - no tagged listing: the map comes from the per-workspace listing, all
///     from a plain listing and tiled from the tiled listing if it answered,
///     else from the per-workspace listing; if the plain listing fails too,
///     everything is cleared.
pub open spec fn finishing_sets(j: RefreshJobView, r: Option<CommandOutput>) -> Option<RefreshSets> {
    match j.stage {
        RefreshStage::TiledWindowIds => match (j.map, window_ids_reply(r)) {
            (Some(m), Some(t)) => Some(RefreshSets { all: m.dom(), tiled: t, workspaces: m }),
            _ => None,
        },
        RefreshStage::Workspaces => match workspace_names_reply(r) {
            Some(ns) => if ns.len() > 0 {
                None
            } else {
                sets_after_enumeration(j.map, j.enum_map)
            },
            None => sets_after_enumeration(j.map, j.enum_map),
        },
        RefreshStage::WorkspaceWindows => if j.next_ws + 1 == j.names.len() {
            sets_after_enumeration(
                j.map,
                enumeration_after(j.enum_map, j.names[j.next_ws], r),
            )
        } else {
            None
        },
        RefreshStage::AllWindowIds => match window_ids_reply(r) {
            Some(a) => Some(
                RefreshSets {
                    all: a,
                    tiled: match j.tiled {
                        Some(t) => t,
                        None => j.enum_map.dom(),
                    },
                    workspaces: j.enum_map,
                },
            ),
            None => Some(
                RefreshSets { all: Set::empty(), tiled: Set::empty(), workspaces: Map::empty() },
            ),
        },
        _ => None,
    }
}

/// What the AeroSpace state knows of floating windows, window workspaces and
/// the focused workspace.
pub struct RefreshFacts {
    pub floating: Set<u32>,
    pub workspaces: Map<u32, Seq<char>>,
    pub current: Option<Seq<char>>,
}

/// The facts after the reply `r` to the refresh at `j`, from the facts `f`:
/// the first reply names the focused workspace, and the reply that completes
/// the refresh gives the floating windows (all but the tiled ones) and the
/// window map.
pub open spec fn facts_after(j: RefreshJobView, r: Option<CommandOutput>, f: RefreshFacts) -> RefreshFacts {
    let current = if j.stage == RefreshStage::FocusedWorkspace {
        focused_workspace_reply(r)
    } else {
        f.current
    };
    match finishing_sets(j, r) {
        Some(sets) => RefreshFacts {
            floating: sets.all.difference(sets.tiled),
            workspaces: sets.workspaces,
            current,
        },
        None => RefreshFacts { current, ..f },
    }
}

/// A refresh at `j` with facts `f`, driven by the replies `rs` in turn until
/// it is over or the replies run out.
pub open spec fn drive(j: RefreshJobView, f: RefreshFacts, rs: Seq<Option<CommandOutput>>) -> (
    RefreshJobView,
    RefreshFacts,
)
    decreases rs.len(),
{
    if rs.len() == 0 || j.stage == RefreshStage::Finished {
        (j, f)
    } else {
        drive(job_after(j, rs[0]), facts_after(j, rs[0], f), rs.drop_first())
    }
}

/// What the refresh at `j` has gathered after the reply `r`.
pub open spec fn job_after(j: RefreshJobView, r: Option<CommandOutput>) -> RefreshJobView {
    if finishing_sets(j, r) is Some {
        done_job()
    } else {
        match j.stage {
            RefreshStage::FocusedWorkspace => RefreshJobView {
                stage: RefreshStage::WindowWorkspaceMap,
                ..j
            },
            RefreshStage::WindowWorkspaceMap => RefreshJobView {
                stage: RefreshStage::TiledWindowIds,
                map: window_workspace_reply(r),
                ..j
            },
            RefreshStage::TiledWindowIds => RefreshJobView {
                stage: RefreshStage::Workspaces,
                tiled: window_ids_reply(r),
                ..j
            },
            RefreshStage::Workspaces => match workspace_names_reply(r) {
                Some(ns) => if ns.len() > 0 {
                    RefreshJobView { stage: RefreshStage::WorkspaceWindows, names: ns, next_ws: 0, ..j }
                } else {
                    RefreshJobView { stage: RefreshStage::AllWindowIds, ..j }
                },
                None => RefreshJobView { stage: RefreshStage::AllWindowIds, ..j },
            },
            RefreshStage::WorkspaceWindows => {
                let e = enumeration_after(j.enum_map, j.names[j.next_ws], r);
                if j.next_ws + 1 == j.names.len() {
                    RefreshJobView {
                        stage: RefreshStage::AllWindowIds,
                        enum_map: e,
                        next_ws: j.next_ws + 1,
                        ..j
                    }
                } else {
                    RefreshJobView { enum_map: e, next_ws: j.next_ws + 1, ..j }
                }
            },
            _ => j,
        }
    }
}

impl RefreshJob {
    #[verifier::type_invariant]
    closed spec fn inv(self) -> bool {
        self.stage == RefreshStage::WorkspaceWindows ==> self.next_ws < self.names@.len()
    }

    fn done() -> (r: RefreshJob)
        ensures
            r@ == done_job(),
    {
        let r = RefreshJob {
            stage: RefreshStage::Finished,
            map: None,
            tiled: None,
            names: Vec::new(),
            next_ws: 0,
            enum_map: HashMap::new(),
        };
        assert(r@.names =~= done_job().names);
        assert(r@.enum_map =~= done_job().enum_map);
        r
    }

    /// The query to run next, or `None` once the refresh is over.
    pub fn next_command(&self) -> (r: Option<AeroCommand>)
        ensures
            is_next_command(self@, r),
    {
        proof {
            use_type_invariant(self);
        }
        match self.stage {
            RefreshStage::FocusedWorkspace => Some(AeroCommand::FocusedWorkspace),
            RefreshStage::WindowWorkspaceMap => Some(AeroCommand::WindowWorkspaceMap),
            RefreshStage::TiledWindowIds => Some(AeroCommand::TiledWindowIds),
            RefreshStage::Workspaces => Some(AeroCommand::AllWorkspaces),
            RefreshStage::WorkspaceWindows => {
                let ws = self.names[self.next_ws].clone();
                Some(AeroCommand::WorkspaceWindows(ws))
            },
            RefreshStage::AllWindowIds => Some(AeroCommand::AllWindowIds),
            RefreshStage::Finished => None,
        }
    }
}

// ── State ─────────────────────────────────────────────────────────────────────

/// What is known of AeroSpace's windows and workspaces.
pub struct AeroSpaceState {
    /// Window IDs (AX window IDs) that are currently floating
    pub floating_window_ids: HashSet<u32>,
    /// Window ID -> workspace name, for every window AeroSpace knows about
    pub window_workspace: HashMap<u32, String>,
    /// The name of the currently focused AeroSpace workspace, if known
    pub current_workspace: Option<String>,
    /// Whether AeroSpace is available at all
    pub available: bool,
    /// When the last refresh was recorded, together with `backdate_ms`
    last_refresh: Instant,
    /// How many milliseconds before `last_refresh` the last refresh counts as
    /// having happened
    backdate_ms: u128,
    refresh_interval_ms: u64,
}

/// Whether a window is on the focused workspace, or the facts do not say
/// otherwise: AeroSpace unavailable, no focused workspace known, or the
/// window in no known workspace.
pub open spec fn on_current_workspace(
    available: bool,
    current: Option<Seq<char>>,
    workspaces: Map<u32, Seq<char>>,
    window_id: u32,
) -> bool {
    !available || match current {
        Some(cur) => workspaces.contains_key(window_id) ==> workspaces[window_id] == cur,
        None => true,
    }
}

impl AeroSpaceState {
    /// The floating windows.
    pub closed spec fn floating(&self) -> Set<u32> {
        self.floating_window_ids@
    }

    /// The workspace of each window that AeroSpace reported.
    pub closed spec fn workspaces(&self) -> Map<u32, Seq<char>> {
        names_view(self.window_workspace@)
    }

    /// The focused workspace, if known.
    pub closed spec fn current(&self) -> Option<Seq<char>> {
        opt_view(self.current_workspace)
    }

    /// Whether AeroSpace answered the `version` query.
    pub closed spec fn is_available(&self) -> bool {
        self.available
    }

    /// The facts that a refresh decides.
    pub open spec fn facts(&self) -> RefreshFacts {
        RefreshFacts { floating: self.floating(), workspaces: self.workspaces(), current: self.current() }
    }

    /// The milliseconds between refreshes.
    pub closed spec fn interval(&self) -> nat {
        self.refresh_interval_ms as nat
    }

    /// How long before the recorded instant the last refresh counts as done.
    pub closed spec fn backdate(&self) -> nat {
        self.backdate_ms as nat
    }

    /// Whether a refresh is due when `elapsed_ms` have passed since the
    /// recorded instant.
    pub open spec fn due(&self, elapsed_ms: nat) -> bool {
        elapsed_ms + self.backdate() >= self.interval()
    }

    /// The facts that refreshes gather and decisions read.
    pub open spec fn same_facts(&self, other: &AeroSpaceState) -> bool {
        &&& self.floating() == other.floating()
        &&& self.workspaces() == other.workspaces()
        &&& self.current() == other.current()
        &&& self.is_available() == other.is_available()
    }

    /// A state that knows nothing yet, with AeroSpace taken as unavailable
    /// until `probe_availability` says otherwise; its last refresh counts as
    /// a minute ago, so that the first `refresh_if_due` refreshes.
    pub fn new(refresh_cycles: u32, poll_millis: u64) -> (r: Self)
        requires
            refresh_cycles * poll_millis <= u64::MAX,
        ensures
            r.floating() == Set::<u32>::empty(),
            r.workspaces() == Map::<u32, Seq<char>>::empty(),
            r.current() is None,
            !r.is_available(),
            r.interval() == refresh_cycles * poll_millis,
            r.backdate() == 60_000,
    {
        let refresh_ms = refresh_cycles as u64 * poll_millis;
        AeroSpaceState {
            floating_window_ids: HashSet::new(),
            window_workspace: HashMap::new(),
            current_workspace: None,
            available: false,
            last_refresh: clock_now(),
            backdate_ms: 60_000,
            refresh_interval_ms: refresh_ms,
        }
    }

    /// The query that tells whether AeroSpace is installed and running.
    pub fn probe_command() -> (r: AeroCommand)
        ensures
            r == AeroCommand::Version,
    {
        AeroCommand::Version
    }

    /// Takes the reply to the `version` query: AeroSpace is available when
    /// it ran and succeeded, and then a refresh begins.
    pub fn probe_availability(&mut self, reply: Option<CommandOutput>) -> (job: Option<RefreshJob>)
        ensures
            final(self).is_available() == (reply matches Some(o) && o.success),
            final(self).floating() == old(self).floating(),
            final(self).workspaces() == old(self).workspaces(),
            final(self).current() == old(self).current(),
            final(self).interval() == old(self).interval(),
            job is Some == final(self).is_available(),
            job is Some ==> job->0@ == start_job() && final(self).backdate() == 0,
            job is None ==> final(self).backdate() == old(self).backdate(),
    {
        let ok = match &reply {
            Some(o) => o.success,
            None => false,
        };
        self.available = ok;
        if ok {
            Some(self.refresh())
        } else {
            None
        }
    }

    /// Begins a refresh of the floating window set, the window → workspace
    /// map and the focused workspace: records the time, and returns the job
    /// whose queries the caller runs.
    pub fn refresh(&mut self) -> (job: RefreshJob)
        ensures
            job@ == start_job(),
            final(self).same_facts(old(self)),
            final(self).interval() == old(self).interval(),
            final(self).backdate() == 0,
    {
        self.last_refresh = clock_now();
        self.backdate_ms = 0;
        let job = RefreshJob {
            stage: RefreshStage::FocusedWorkspace,
            map: None,
            tiled: None,
            names: Vec::new(),
            next_ws: 0,
            enum_map: HashMap::new(),
        };
        assert(job@.names =~= start_job().names);
        assert(job@.enum_map =~= start_job().enum_map);
        job
    }

    /// Takes the reply to the query that `job` named: the focused workspace
    /// is recorded from its reply, and the reply that completes the refresh
    /// installs the floating set and the window map.
    pub fn refresh_step(&mut self, job: &mut RefreshJob, reply: Option<CommandOutput>)
        requires
            old(job)@.stage != RefreshStage::Finished,
        ensures
            final(job)@ == job_after(old(job)@, reply),
            final(self).current() == if old(job)@.stage
                == RefreshStage::FocusedWorkspace {
                focused_workspace_reply(reply)
            } else {
                old(self).current()
            },
            match finishing_sets(old(job)@, reply) {
                Some(sets) => {
                    &&& final(self).floating() == sets.all.difference(sets.tiled)
                    &&& final(self).workspaces() == sets.workspaces
                },
                None => {
                    &&& final(self).floating() == old(self).floating()
                    &&& final(self).workspaces() == old(self).workspaces()
                },
            },
            final(self).facts() == facts_after(old(job)@, reply, old(self).facts()),
            final(self).is_available() == old(self).is_available(),
            final(self).interval() == old(self).interval(),
            final(self).backdate() == old(self).backdate(),
    {
        proof {
            use_type_invariant(&*job);
        }
        let mut cur = RefreshJob::done();
        std::mem::swap(&mut cur, job);
        proof {
            use_type_invariant(&cur);
        }
        let ghost j = cur@;
        assert(cur.stage == RefreshStage::WorkspaceWindows ==> cur.next_ws < cur.names@.len());
        let RefreshJob { stage, map, tiled, names, next_ws, enum_map } = cur;
        match stage {
            RefreshStage::FocusedWorkspace => {
                self.current_workspace = focused_workspace_of(&reply);
                let next = RefreshJob {
                    stage: RefreshStage::WindowWorkspaceMap,
                    map,
                    tiled,
                    names,
                    next_ws,
                    enum_map,
                };
                assert(next@ == job_after(j, reply));
                *job = next;
            },
            RefreshStage::WindowWorkspaceMap => {
                let next = RefreshJob {
                    stage: RefreshStage::TiledWindowIds,
                    map: window_workspace_of(&reply),
                    tiled,
                    names,
                    next_ws,
                    enum_map,
                };
                assert(next@ == job_after(j, reply));
                *job = next;
            },
            RefreshStage::TiledWindowIds => {
                let t = window_ids_of(&reply);
                match (map, t) {
                    (Some(m), Some(t)) => {
                        let all = key_set(&m);
                        self.floating_window_ids = difference(&all, &t);
                        self.window_workspace = m;
                        *job = RefreshJob::done();
                    },
                    (map, t) => {
                        let next = RefreshJob {
                            stage: RefreshStage::Workspaces,
                            map,
                            tiled: t,
                            names,
                            next_ws,
                            enum_map,
                        };
                        assert(next@ == job_after(j, reply));
                        *job = next;
                    },
                }
            },
            RefreshStage::Workspaces => {
                let found = match workspace_names_of(&reply) {
                    Some(ns) => ns,
                    None => Vec::new(),
                };
                if found.len() > 0 {
                    let next = RefreshJob {
                        stage: RefreshStage::WorkspaceWindows,
                        map,
                        tiled,
                        names: found,
                        next_ws: 0,
                        enum_map,
                    };
                    assert(next@ == job_after(j, reply));
                    *job = next;
                } else {
                    self.after_enumeration(job, map, tiled, names, next_ws, enum_map);
                }
            },
            RefreshStage::WorkspaceWindows => {
                let count = names.len();
                assert(next_ws < count);
                let mut e = enum_map;
                add_workspace_windows(&mut e, &names[next_ws], &reply);
                if next_ws + 1 == count {
                    self.after_enumeration(job, map, tiled, names, next_ws + 1, e);
                } else {
                    let next = RefreshJob {
                        stage: RefreshStage::WorkspaceWindows,
                        map,
                        tiled,
                        names,
                        next_ws: next_ws + 1,
                        enum_map: e,
                    };
                    assert(next@ == job_after(j, reply));
                    *job = next;
                }
            },
            RefreshStage::AllWindowIds => {
                match window_ids_of(&reply) {
                    Some(a) => {
                        let tiled_ids = match tiled {
                            Some(t) => t,
                            None => key_set(&enum_map),
                        };
                        self.floating_window_ids = difference(&a, &tiled_ids);
                        self.window_workspace = enum_map;
                    },
                    None => {
                        self.floating_window_ids.clear();
                        self.window_workspace.clear();
                        assert(self.workspaces() =~= Map::<u32, Seq<char>>::empty());
                        assert(self.floating() =~= Set::<u32>::empty().difference(Set::<u32>::empty()));
                    },
                }
                *job = RefreshJob::done();
            },
            RefreshStage::Finished => {
                *job = RefreshJob::done();
            },
        }
        proof {
            let f = facts_after(j, reply, old(self).facts());
            assert(self.floating() == f.floating);
            assert(self.workspaces() == f.workspaces);
            assert(self.current() == f.current);
        }
    }

    /// Ends the per-workspace listing: with a tagged listing the refresh is
    /// complete, else the plain listing of all windows follows.
    fn after_enumeration(
        &mut self,
        job: &mut RefreshJob,
        map: Option<HashMap<u32, String>>,
        tiled: Option<HashSet<u32>>,
        names: Vec<String>,
        next_ws: usize,
        enum_map: HashMap<u32, String>,
    )
        ensures
            match map {
                Some(m) => {
                    &&& final(self).floating() == m@.dom().difference(enum_map@.dom())
                    &&& final(self).workspaces() == names_view(m@)
                    &&& final(job)@ == done_job()
                },
                None => {
                    &&& final(self).floating() == old(self).floating()
                    &&& final(self).workspaces() == old(self).workspaces()
                    &&& final(job)@ == (RefreshJob {
                        stage: RefreshStage::AllWindowIds,
                        map,
                        tiled,
                        names,
                        next_ws,
                        enum_map,
                    })@
                },
            },
            final(self).current() == old(self).current(),
            final(self).is_available() == old(self).is_available(),
            final(self).interval() == old(self).interval(),
            final(self).backdate() == old(self).backdate(),
    {
        match map {
            Some(m) => {
                let all = key_set(&m);
                let t = key_set(&enum_map);
                self.floating_window_ids = difference(&all, &t);
                self.window_workspace = m;
                *job = RefreshJob::done();
            },
            None => {
                *job = RefreshJob {
                    stage: RefreshStage::AllWindowIds,
                    map: None,
                    tiled,
                    names,
                    next_ws,
                    enum_map,
                };
            },
        }
    }

    /// True if `window_id` is on the currently focused workspace, or if we
    /// don't have enough information to say otherwise (fail-open, matching
    /// the "raise everything if AeroSpace unavailable" behavior).
    pub fn window_matches_current_workspace(&self, window_id: u32) -> (r: bool)
        ensures
            r == on_current_workspace(
                self.is_available(),
                self.current(),
                self.workspaces(),
                window_id,
            ),
    {
        if !self.available {
            return true;
        }
        match (&self.current_workspace, self.window_workspace.get(&window_id)) {
            (Some(cur), Some(ws)) => cur.eq(ws),
            _ => true,
        }
    }

    /// Whether AeroSpace reported `window_id` as floating.
    pub fn is_floating(&self, window_id: u32) -> (r: bool)
        ensures
            r == self.floating().contains(window_id),
    {
        self.floating_window_ids.contains(&window_id)
    }

    /// Whether AeroSpace answered the `version` query.
    pub fn available(&self) -> (r: bool)
        ensures
            r == self.is_available(),
    {
        self.available
    }

    /// Whether a refresh is due `elapsed_ms` after the recorded instant.
    pub fn refresh_due(&self, elapsed_ms: u128) -> (r: bool)
        ensures
            r == self.due(elapsed_ms as nat),
    {
        let interval = self.refresh_interval_ms as u128;
        if elapsed_ms >= interval {
            true
        } else {
            interval - elapsed_ms <= self.backdate_ms
        }
    }

    /// What `refresh_if_due` does: either a refresh begins, or nothing changes
    /// and the refresh was not forced.
    pub open spec fn refreshed_if_due(before: AeroSpaceState, after: AeroSpaceState, job: Option<RefreshJob>) -> bool {
        &&& match job {
            Some(j) => {
                &&& j@ == start_job()
                &&& after.same_facts(&before)
                &&& after.interval() == before.interval()
                &&& after.backdate() == 0
            },
            None => {
                &&& after == before
                &&& before.backdate() < before.interval()
            },
        }
        &&& before.backdate() >= before.interval() ==> job is Some
    }

    /// Begins a refresh if the refresh interval has elapsed.
    pub fn refresh_if_due(&mut self) -> (job: Option<RefreshJob>)
        ensures
            Self::refreshed_if_due(*old(self), *final(self), job),
    {
        let elapsed = whole_millis(&time_since(&self.last_refresh));
        self.refresh_if_elapsed(elapsed)
    }

    /// Begins a refresh if it is due `elapsed_ms` after the recorded instant.
    pub fn refresh_if_elapsed(&mut self, elapsed_ms: u128) -> (job: Option<RefreshJob>)
        ensures
            job is Some <==> old(self).due(elapsed_ms as nat),
            Self::refreshed_if_due(*old(self), *final(self), job),
    {
        if self.refresh_due(elapsed_ms) {
            Some(self.refresh())
        } else {
            None
        }
    }

    /// Forces a refresh on the next `refresh_if_due` call (e.g. after a
    /// workspace change): the last refresh now counts as one interval and a
    /// second ago.
    pub fn invalidate(&mut self)
        ensures
            final(self).same_facts(old(self)),
            final(self).interval() == old(self).interval(),
            final(self).backdate() == old(self).interval() + 1000,
    {
        self.last_refresh = clock_now();
        self.backdate_ms = self.refresh_interval_ms as u128 + 1000;
    }
}

// ── Laws ──────────────────────────────────────────────────────────────────────

/// After `invalidate`, the next `refresh_if_due` refreshes, however little
/// time has passed.
pub proof fn lemma_invalidated_state_refreshes(s: AeroSpaceState, elapsed_ms: nat)
    requires
        s.backdate() == s.interval() + 1000,
    ensures
        s.backdate() >= s.interval(),
        s.due(elapsed_ms),
{
}

/// Where AeroSpace is unavailable, or nothing places the window on another
/// workspace than the focused one, the window counts as on the focused
/// workspace.
pub proof fn lemma_workspace_check_fails_open(
    available: bool,
    current: Option<Seq<char>>,
    workspaces: Map<u32, Seq<char>>,
    window_id: u32,
)
    requires
        !available || current is None || !workspaces.contains_key(window_id),
    ensures
        on_current_workspace(available, current, workspaces, window_id),
{
}

/// When both the tagged listing and the tiled listing answer, a refresh takes
/// three queries, and the floating windows are all the listed windows that
/// are not tiled.
pub proof fn lemma_refresh_with_both_listings(
    focused: Option<CommandOutput>,
    tagged: Option<CommandOutput>,
    tiled: Option<CommandOutput>,
)
    requires
        window_workspace_reply(tagged) is Some,
        window_ids_reply(tiled) is Some,
    ensures
        ({
            let j1 = job_after(start_job(), focused);
            let j2 = job_after(j1, tagged);
            let m = window_workspace_reply(tagged)->0;
            let t = window_ids_reply(tiled)->0;
            &&& j1.stage == RefreshStage::WindowWorkspaceMap
            &&& j2.stage == RefreshStage::TiledWindowIds
            &&& job_after(j2, tiled) == done_job()
            &&& finishing_sets(j2, tiled) == Some(RefreshSets { all: m.dom(), tiled: t, workspaces: m })
            &&& forall|id: u32| #[trigger] m.dom().difference(t).contains(id) <==> m.contains_key(id)
                && !t.contains(id)
        }),
{
    let j1 = job_after(start_job(), focused);
    assert(finishing_sets(start_job(), focused) is None);
    assert(finishing_sets(j1, tagged) is None);
}

/// When every query fails to run, a refresh ends after five queries with no
/// floating window and no workspace known for any window.
pub proof fn lemma_refresh_when_aerospace_silent()
    ensures
        ({
            let j1 = job_after(start_job(), None);
            let j2 = job_after(j1, None);
            let j3 = job_after(j2, None);
            let j4 = job_after(j3, None);
            &&& j4.stage == RefreshStage::AllWindowIds
            &&& job_after(j4, None) == done_job()
            &&& finishing_sets(j4, None) == Some(
                RefreshSets { all: Set::empty(), tiled: Set::empty(), workspaces: Map::empty() },
            )
            &&& Set::<u32>::empty().difference(Set::empty()) == Set::<u32>::empty()
        }),
{
    let j1 = job_after(start_job(), None);
    assert(finishing_sets(start_job(), None) is None);
    let j2 = job_after(j1, None);
    assert(finishing_sets(j1, None) is None);
    assert(finishing_sets(j2, None) is None);
    let j3 = job_after(j2, None);
    assert(j3.stage == RefreshStage::Workspaces);
    assert(finishing_sets(j3, None) is None);
    assert(Set::<u32>::empty().difference(Set::empty()) =~= Set::<u32>::empty());
}

/// How far a refresh is from its end: its stage, then the workspaces still
/// to list.
pub open spec fn stage_rank(s: RefreshStage) -> nat {
    match s {
        RefreshStage::FocusedWorkspace => 6,
        RefreshStage::WindowWorkspaceMap => 5,
        RefreshStage::TiledWindowIds => 4,
        RefreshStage::Workspaces => 3,
        RefreshStage::WorkspaceWindows => 2,
        RefreshStage::AllWindowIds => 1,
        RefreshStage::Finished => 0,
    }
}

/// Every reply brings a refresh closer to its end: a later stage, or, while
/// workspaces are listed one by one, fewer left to list. So every refresh
/// ends.
pub proof fn lemma_refresh_progresses(j: RefreshJobView, r: Option<CommandOutput>)
    requires
        j.stage != RefreshStage::Finished,
        j.stage == RefreshStage::WorkspaceWindows ==> 0 <= j.next_ws < j.names.len(),
    ensures
        ({
            let k = job_after(j, r);
            ||| stage_rank(k.stage) < stage_rank(j.stage)
            ||| (k.stage == j.stage && k.names == j.names && j.names.len() - k.next_ws < j.names.len()
                - j.next_ws)
        }),
{
}

proof fn lemma_drive_ignores_start_facts(
    j: RefreshJobView,
    f1: RefreshFacts,
    f2: RefreshFacts,
    rs: Seq<Option<CommandOutput>>,
)
    requires
        j.stage != RefreshStage::Finished,
        j.stage != RefreshStage::FocusedWorkspace ==> f1.current == f2.current,
        drive(j, f1, rs).0.stage == RefreshStage::Finished,
    ensures
        drive(j, f1, rs).1 == drive(j, f2, rs).1,
        drive(j, f2, rs).0.stage == RefreshStage::Finished,
    decreases rs.len(),
{
    if rs.len() > 0 {
        let r = rs[0];
        let k = job_after(j, r);
        let g1 = facts_after(j, r, f1);
        let g2 = facts_after(j, r, f2);
        assert(g1.current == g2.current);
        if finishing_sets(j, r) is Some {
            assert(g1 == g2);
        } else {
            assert(k.stage != RefreshStage::Finished);
            assert(k.stage != RefreshStage::FocusedWorkspace);
            lemma_drive_ignores_start_facts(k, g1, g2, rs.drop_first());
        }
    }
}

/// A completed refresh decides its facts from the replies alone: two
/// refreshes that get the same replies leave the same floating windows,
/// window map and focused workspace, whatever was known before each. So
/// refreshing twice on the same replies leaves what refreshing once does.
pub proof fn lemma_refresh_depends_on_replies_only(
    f1: RefreshFacts,
    f2: RefreshFacts,
    rs: Seq<Option<CommandOutput>>,
)
    requires
        drive(start_job(), f1, rs).0.stage == RefreshStage::Finished,
    ensures
        drive(start_job(), f2, rs).0.stage == RefreshStage::Finished,
        drive(start_job(), f1, rs).1 == drive(start_job(), f2, rs).1,
        drive(start_job(), drive(start_job(), f1, rs).1, rs).1 == drive(start_job(), f1, rs).1,
{
    lemma_drive_ignores_start_facts(start_job(), f1, f2, rs);
    lemma_drive_ignores_start_facts(start_job(), f1, drive(start_job(), f1, rs).1, rs);
}

} // verus!
