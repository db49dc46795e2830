//! Installation helpers of the wizard: the system paths, where board
//! definitions are looked for and downloaded to, which entries of the
//! repository archive are board files, the systemd unit, and the answers
//! to its yes/no prompts.
//!
//! Paths are compared as `std::path::Path` compares them on Unix: by
//! their components, so that `boards/` and `boards` are one directory.
//! Copying files, downloading and running `systemctl` are the
//! application's part.
use vstd::prelude::*;
use vstd::string::StringExecFns;

use crate::text::{
    join, spec_join, spec_lowercase, spec_split, spec_trim, split_char, strings_view, to_lowercase,
    trim,
};

verus! {

/// System install path of the gateway binary.
pub const INSTALL_BIN: &'static str = "/usr/local/bin/sequent-gateway";

/// System directory of the board definitions.
pub const INSTALL_BOARDS_DIR: &'static str = "/etc/sequent-gateway/boards";

/// System directory of the configuration file.
pub const INSTALL_CONFIG_DIR: &'static str = "/etc/sequent-gateway";

/// Path of the systemd unit file.
pub const SERVICE_PATH: &'static str = "/etc/systemd/system/sequent-gateway.service";

/// URL of the repository archive that holds the board definitions.
pub const REPO_ARCHIVE_URL: &'static str = "https://github.com/k-gordon/SequentTCP/archive/refs/heads/main.zip";

/// The segments of a path that name something: empty segments (from
/// repeated or trailing separators) and `.` are dropped.
pub open spec fn spec_keep_segments(segs: Seq<Seq<char>>) -> Seq<Seq<char>>
    decreases segs.len(),
{
    if segs.len() == 0 {
        Seq::empty()
    } else {
        let prev = spec_keep_segments(segs.drop_last());
        let t = segs.last();
        if t.len() == 0 || t == "."@ {
            prev
        } else {
            prev.push(t)
        }
    }
}

/// The components of a Unix path: the root `/` for an absolute path, `.`
/// for a path that starts with it, then the named segments.
pub open spec fn spec_path_components(s: Seq<char>) -> Seq<Seq<char>> {
    let segs = spec_split(s, '/');
    let lead = if s.len() > 0 && s[0] == '/' {
        seq!["/"@]
    } else if segs.len() > 0 && segs[0] == "."@ {
        seq!["."@]
    } else {
        Seq::empty()
    };
    lead + spec_keep_segments(segs)
}

/// Whether two paths name the same file, component by component.
pub open spec fn spec_same_path(a: Seq<char>, b: Seq<char>) -> bool {
    spec_path_components(a) == spec_path_components(b)
}

fn is_dot(s: &String) -> (b: bool)
    ensures
        b == (s@ == "."@),
{
    let dot = String::from_str(".");
    *s == dot
}

/// The components of path `s`.
pub fn path_components(s: &str) -> (c: Vec<String>)
    ensures
        strings_view(c@) == spec_path_components(s@),
{
    let segs = split_char(s, '/');
    let ghost sv = strings_view(segs@);
    let mut c: Vec<String> = Vec::new();
    if s.unicode_len() > 0 && s.get_char(0) == '/' {
        c.push(String::from_str("/"));
    } else if segs.len() > 0 && is_dot(&segs[0]) {
        c.push(String::from_str("."));
    }
    let ghost lead = strings_view(c@);
    assert(sv.len() > 0 ==> sv[0] == segs@[0]@);
    assert(lead == spec_path_components(s@).subrange(0, lead.len() as int)) by {
        assert(spec_keep_segments(sv.subrange(0, 0)) =~= Seq::<Seq<char>>::empty());
    }
    let mut i: usize = 0;
    assert(sv.subrange(0, 0) =~= Seq::<Seq<char>>::empty());
    while i < segs.len()
        invariant
            i <= segs@.len(),
            sv == strings_view(segs@),
            sv == spec_split(s@, '/'),
            lead + spec_keep_segments(sv) == spec_path_components(s@),
            strings_view(c@) == lead + spec_keep_segments(sv.subrange(0, i as int)),
        decreases segs@.len() - i,
    {
        let ghost before = c@;
        proof {
            assert(sv.subrange(0, i + 1).drop_last() =~= sv.subrange(0, i as int));
            assert(sv.subrange(0, i + 1).last() == segs@[i as int]@);
        }
        let seg = &segs[i];
        if seg.unicode_len() > 0 && !is_dot(seg) {
            c.push(seg.clone());
            proof {
                assert(strings_view(c@) =~= strings_view(before).push(segs@[i as int]@));
            }
        }
        i += 1;
    }
    proof {
        assert(sv.subrange(0, sv.len() as int) =~= sv);
    }
    c
}

/// Whether two lists of texts are equal.
fn same_texts(a: &Vec<String>, b: &Vec<String>) -> (r: bool)
    ensures
        r == (strings_view(a@) == strings_view(b@)),
{
    if a.len() != b.len() {
        proof {
            assert(strings_view(a@).len() != strings_view(b@).len());
        }
        return false;
    }
    let mut i: usize = 0;
    while i < a.len()
        invariant
            a@.len() == b@.len(),
            i <= a@.len(),
            forall|k: int| 0 <= k < i ==> #[trigger] a@[k]@ == b@[k]@,
        decreases a@.len() - i,
    {
        if a[i] != b[i] {
            proof {
                assert(strings_view(a@)[i as int] != strings_view(b@)[i as int]);
            }
            return false;
        }
        i += 1;
    }
    proof {
        assert(strings_view(a@) =~= strings_view(b@));
    }
    true
}

/// Whether `a` and `b` name the same file, component by component.
pub fn same_path(a: &str, b: &str) -> (r: bool)
    ensures
        r == spec_same_path(a@, b@),
{
    let ca = path_components(a);
    let cb = path_components(b);
    same_texts(&ca, &cb)
}

/// `paths` with `candidate` added at the end unless it names one of them.
pub open spec fn spec_push_unique(paths: Seq<Seq<char>>, candidate: Seq<char>) -> Seq<Seq<char>> {
    if exists|i: int| 0 <= i < paths.len() && spec_same_path(#[trigger] paths[i], candidate) {
        paths
    } else {
        paths.push(candidate)
    }
}

/// Add `candidate` to `paths` unless it names one of them already.
pub fn push_unique_path(paths: &mut Vec<String>, candidate: &str)
    ensures
        strings_view(final(paths)@) == spec_push_unique(strings_view(old(paths)@), candidate@),
{
    let ghost sv = strings_view(paths@);
    let mut i: usize = 0;
    while i < paths.len()
        invariant
            i <= paths@.len(),
            sv == strings_view(paths@),
            paths@ == old(paths)@,
            forall|k: int| 0 <= k < i ==> !spec_same_path(#[trigger] sv[k], candidate@),
        decreases paths@.len() - i,
    {
        assert(sv[i as int] == paths@[i as int]@);
        if same_path(paths[i].as_str(), candidate) {
            return;
        }
        i += 1;
    }
    let ghost before = paths@;
    paths.push(String::from_str(candidate));
    proof {
        assert(strings_view(paths@) =~= sv.push(candidate@));
    }
}

/// `name` (a relative path) under `base`, as `Path::join` forms it: no
/// separator after an empty base or one that ends in `/`.
pub open spec fn spec_join_path(base: Seq<char>, name: Seq<char>) -> Seq<char> {
    if base.len() == 0 {
        name
    } else if base.last() == '/' {
        base + name
    } else {
        base + "/"@ + name
    }
}

/// `name` (a relative path) under `base`.
pub fn join_path(base: &str, name: &str) -> (p: String)
    ensures
        p@ == spec_join_path(base@, name@),
{
    let n = base.unicode_len();
    let mut p = String::from_str(base);
    if n > 0 && base.get_char(n - 1) != '/' {
        p.append("/");
    }
    p.append(name);
    p
}

/// The directories the wizard looks for board definitions in, in order:
/// the given one, `boards`, and the system directory, each once.
pub open spec fn spec_search_paths(boards_dir: Seq<char>) -> Seq<Seq<char>> {
    spec_push_unique(spec_push_unique(seq![boards_dir], "boards"@), INSTALL_BOARDS_DIR@)
}

/// The directories the wizard looks for board definitions in.
pub fn configure_board_search_paths(boards_dir: &str) -> (paths: Vec<String>)
    ensures
        strings_view(paths@) == spec_search_paths(boards_dir@),
{
    let mut paths: Vec<String> = Vec::new();
    paths.push(String::from_str(boards_dir));
    proof {
        assert(strings_view(paths@) =~= seq![boards_dir@]);
    }
    push_unique_path(&mut paths, "boards");
    push_unique_path(&mut paths, INSTALL_BOARDS_DIR);
    paths
}

/// Where board definitions to install are looked for, in order: the given
/// directory, `boards` beside the running executable (when its directory
/// is known), and `boards`, each once.
pub open spec fn spec_install_sources(boards_dir: Seq<char>, exe_dir: Option<Seq<char>>) -> Seq<
    Seq<char>,
> {
    let first = seq![boards_dir];
    let second = match exe_dir {
        Some(d) => spec_push_unique(first, spec_join_path(d, "boards"@)),
        None => first,
    };
    spec_push_unique(second, "boards"@)
}

/// Where board definitions to install are looked for.
pub fn install_board_source_candidates(boards_dir: &str, exe_dir: Option<&str>) -> (paths: Vec<
    String,
>)
    ensures
        strings_view(paths@) == spec_install_sources(
            boards_dir@,
            match exe_dir {
                Some(d) => Some(d@),
                None => None,
            },
        ),
{
    let mut paths: Vec<String> = Vec::new();
    paths.push(String::from_str(boards_dir));
    proof {
        assert(strings_view(paths@) =~= seq![boards_dir@]);
    }
    match exe_dir {
        Some(d) => {
            let beside = join_path(d, "boards");
            push_unique_path(&mut paths, beside.as_str());
        },
        None => {},
    }
    push_unique_path(&mut paths, "boards");
    paths
}

/// Where downloaded board definitions go: the given directory unless it
/// is the default `boards`; then the system directory when running as
/// root, else `boards`.
pub open spec fn spec_download_destination(boards_dir: Seq<char>, is_root: bool) -> Seq<char> {
    if !spec_same_path(boards_dir, "boards"@) {
        boards_dir
    } else if is_root {
        INSTALL_BOARDS_DIR@
    } else {
        "boards"@
    }
}

/// Where downloaded board definitions go.
pub fn preferred_download_destination(boards_dir: &str, is_root: bool) -> (p: String)
    ensures
        p@ == spec_download_destination(boards_dir@, is_root),
{
    if !same_path(boards_dir, "boards") {
        String::from_str(boards_dir)
    } else if is_root {
        String::from_str(INSTALL_BOARDS_DIR)
    } else {
        String::from_str("boards")
    }
}

/// Index of the first component equal to `t`.
pub open spec fn spec_first_index(s: Seq<Seq<char>>, t: Seq<char>) -> Option<int> {
    if exists|i: int| 0 <= i < s.len() && #[trigger] s[i] == t {
        Some(
            choose|i: int|
                0 <= i < s.len() && s[i] == t && forall|j: int| 0 <= j < i ==> #[trigger] s[j] != t,
        )
    } else {
        None
    }
}

proof fn lemma_first_index(s: Seq<Seq<char>>, t: Seq<char>, j: int)
    requires
        0 <= j < s.len(),
        s[j] == t,
        forall|k: int| 0 <= k < j ==> #[trigger] s[k] != t,
    ensures
        spec_first_index(s, t) == Some(j),
{
    assert(s[j] == t);
    let c = choose|i: int|
        0 <= i < s.len() && s[i] == t && forall|k: int| 0 <= k < i ==> #[trigger] s[k] != t;
    if c < j {
        assert(s[c] != t);
    } else if c > j {
        assert(s[j] != t);
    }
}

/// Where an entry of the repository archive goes among the board
/// definitions: the part of its path after the first `boards` component;
/// none for entries outside `boards` and for `boards` itself.
pub open spec fn spec_archive_relative(entry: Seq<char>) -> Option<Seq<char>> {
    spec_after_boards(spec_path_components(entry))
}

/// The components after the first `boards`, joined by `/`; none when
/// there is no `boards` or nothing after it.
pub open spec fn spec_after_boards(comps: Seq<Seq<char>>) -> Option<Seq<char>> {
    match spec_first_index(comps, "boards"@) {
        None => None,
        Some(p) => if p + 1 >= comps.len() {
            None
        } else {
            Some(spec_join(comps.subrange(p + 1, comps.len() as int), "/"@))
        },
    }
}

fn after_boards(comps: &Vec<String>) -> (r: Option<String>)
    ensures
        match r {
            Some(p) => spec_after_boards(strings_view(comps@)) == Some(p@),
            None => spec_after_boards(strings_view(comps@)) is None,
        },
{
    let ghost cv = strings_view(comps@);
    let boards = String::from_str("boards");
    let mut i: usize = 0;
    while i < comps.len()
        invariant
            i <= comps@.len(),
            cv == strings_view(comps@),
            boards@ == "boards"@,
            forall|k: int| 0 <= k < i ==> #[trigger] cv[k] != "boards"@,
        decreases comps@.len() - i,
    {
        assert(cv[i as int] == comps@[i as int]@);
        if comps[i] == boards {
            proof {
                lemma_first_index(cv, "boards"@, i as int);
            }
            if i + 1 >= comps.len() {
                return None;
            }
            let rest = vstd::slice::slice_subrange(comps.as_slice(), i + 1, comps.len());
            proof {
                assert(strings_view(rest@) =~= cv.subrange(i + 1, cv.len() as int));
            }
            return Some(join(rest, "/"));
        }
        i += 1;
    }
    None
}

/// Where an entry of the repository archive goes among the board
/// definitions, if anywhere.
pub fn archive_boards_relative_path(entry_name: &str) -> (r: Option<String>)
    ensures
        match r {
            Some(p) => spec_archive_relative(entry_name@) == Some(p@),
            None => spec_archive_relative(entry_name@) is None,
        },
{
    let comps = path_components(entry_name);
    after_boards(&comps)
}

/// The systemd unit that runs the gateway with the configuration at
/// `config_path`.
pub open spec fn spec_service_unit(config_path: Seq<char>) -> Seq<char> {
    "[Unit]\nDescription=Sequent Gateway - Modbus TCP to I²C Bridge\nAfter=network.target\n\n[Service]\nType=simple\nUser=root\nExecStart="@
        + INSTALL_BIN@ + " --config "@ + config_path
        + "\nRestart=always\nRestartSec=10\nStandardOutput=journal\nStandardError=journal\n\n[Install]\nWantedBy=multi-user.target\n"@
}

/// The systemd unit that runs the gateway with the configuration at
/// `config_path`.
pub fn service_unit(config_path: &str) -> (unit: String)
    ensures
        unit@ == spec_service_unit(config_path@),
{
    let mut unit = String::from_str(
        "[Unit]\nDescription=Sequent Gateway - Modbus TCP to I²C Bridge\nAfter=network.target\n\n[Service]\nType=simple\nUser=root\nExecStart=",
    );
    unit.append(INSTALL_BIN);
    unit.append(" --config ");
    unit.append(config_path);
    unit.append(
        "\nRestart=always\nRestartSec=10\nStandardOutput=journal\nStandardError=journal\n\n[Install]\nWantedBy=multi-user.target\n",
    );
    unit
}

/// An answer to a `[Y/n]` prompt, trimmed and in lower case.
pub open spec fn spec_answer(input: Seq<char>) -> Seq<char> {
    spec_lowercase(spec_trim(input))
}

/// Whether an answer to a `[Y/n]` prompt accepts: empty, `y` or `yes`.
pub open spec fn spec_accepts(input: Seq<char>) -> bool {
    let a = spec_answer(input);
    a.len() == 0 || a == "y"@ || a == "yes"@
}

/// Whether an answer to a `[Y/n]` prompt accepts (empty, `y` or `yes`,
/// in any case, surrounding whitespace ignored).
pub fn answer_accepts(input: &str) -> (b: bool)
    ensures
        b == spec_accepts(input@),
{
    let t = trim(input);
    let a = to_lowercase(t.as_str());
    a.unicode_len() == 0 || crate::board_def::str_is(&a, "y") || crate::board_def::str_is(&a, "yes")
}

/// The path the installed binary is given for the output file: the
/// output path itself when absolute, else under the working directory.
pub open spec fn spec_relaunch_output(output: Seq<char>, cwd: Seq<char>) -> Seq<char> {
    if output.len() > 0 && output[0] == '/' {
        output
    } else {
        spec_join_path(cwd, output)
    }
}

/// The command line that relaunches the installed binary on `configure`.
pub open spec fn spec_relaunch_args(output: Seq<char>, cwd: Seq<char>) -> Seq<Seq<char>> {
    seq![INSTALL_BIN@, "configure"@, "--output"@, spec_relaunch_output(output, cwd)]
}

/// The command line that relaunches the installed binary on `configure`
/// with the output path `output`, given the working directory `cwd`.
pub fn relaunch_args(output: &str, cwd: &str) -> (args: Vec<String>)
    ensures
        strings_view(args@) == spec_relaunch_args(output@, cwd@),
{
    let out = if output.unicode_len() > 0 && output.get_char(0) == '/' {
        String::from_str(output)
    } else {
        join_path(cwd, output)
    };
    let mut args: Vec<String> = Vec::new();
    args.push(String::from_str(INSTALL_BIN));
    args.push(String::from_str("configure"));
    args.push(String::from_str("--output"));
    args.push(out);
    proof {
        assert(strings_view(args@) =~= spec_relaunch_args(output@, cwd@));
    }
    args
}


/// What the configuration command does about the installed binary.
#[derive(Debug, Clone, Copy, PartialEq, Eq, Structural)]
pub enum InstallStep {
    /// It already runs from the install location: go on here.
    RunHere,
    /// An installed binary of the same size exists: run that one instead.
    RelaunchInstalled,
    /// Offer to install this binary and run it from there.
    OfferInstall,
}

/// The install decision: running from the install location goes on there;
/// otherwise an installed binary whose size equals this one's is run
/// instead; otherwise installing is offered.  A size that could not be
/// read (or a missing installed binary) counts as different.
pub fn install_step(running_installed: bool, installed_size: Option<u64>, own_size: Option<u64>) -> (s:
    InstallStep)
    ensures
        s == if running_installed {
            InstallStep::RunHere
        } else if installed_size is Some && own_size == installed_size {
            InstallStep::RelaunchInstalled
        } else {
            InstallStep::OfferInstall
        },
{
    if running_installed {
        return InstallStep::RunHere;
    }
    match (installed_size, own_size) {
        (Some(a), Some(b)) => {
            if a == b {
                InstallStep::RelaunchInstalled
            } else {
                InstallStep::OfferInstall
            }
        },
        _ => InstallStep::OfferInstall,
    }
}

} // verus!
