//! Resolution of the game's install directory, executable and log file, and
//! splitting of the command line that Steam hands to the wrapper.

use vstd::prelude::*;
use vstd::string::StringExecFns;
use crate::text::{
    chars_of, contains_chars, is_white_space, lemma_trim_empty_iff_blank, seq_contains,
    spec_to_lowercase, spec_trim, to_lowercase, trim,
};

verus! {

broadcast use vstd::string::group_string_axioms;

/// What `Path::parent` gives, as text, for a path with the given characters
/// (under the path syntax of the platform the crate is built for).
pub uninterp spec fn spec_path_parent(p: Seq<char>) -> Option<Seq<char>>;

/// What `Path::join` gives, as text, for the given base and part (under the
/// path syntax of the platform the crate is built for).
pub uninterp spec fn spec_path_join(base: Seq<char>, part: Seq<char>) -> Seq<char>;

/// `Path::parent` from std, on a path given as text: the path without its
/// final component. The std documentation states that the empty path has no
/// parent; which prefix is returned otherwise is only named here.
#[verifier::external_body]
fn path_parent(p: &str) -> (r: Option<String>)
    ensures
        r matches Some(q) ==> spec_path_parent(p@) == Some(q@),
        r is None ==> spec_path_parent(p@) is None,
        p@.len() == 0 ==> r is None,
{
    match std::path::Path::new(p).parent() {
        Some(q) => Some(q.to_string_lossy().into_owned()),
        None => None,
    }
}

/// `Path::join` from std, on paths given as text: `part` adjoined to `base`
/// with the platform's separator. The result is only named here.
#[verifier::external_body]
pub(crate) fn path_join(base: &str, part: &str) -> (r: String)
    ensures
        r@ == spec_path_join(base@, part@),
{
    std::path::Path::new(base).join(part).to_string_lossy().into_owned()
}

/// `p`, or `.` when `p` is empty.
pub open spec fn or_dot(p: Seq<char>) -> Seq<char> {
    if p.len() == 0 {
        "."@
    } else {
        p
    }
}

/// The `n`-th ancestor of `p` (`p` itself for 0), if the path has that many.
pub open spec fn ancestor(p: Seq<char>, n: nat) -> Option<Seq<char>>
    decreases n,
{
    if n == 0 {
        Some(p)
    } else {
        match ancestor(p, (n - 1) as nat) {
            Some(q) => spec_path_parent(q),
            None => None,
        }
    }
}

/// The path, lowercased, runs through `Client/Binaries/Win64` (with either
/// separator), so the executable sits four levels below the game root.
pub open spec fn is_win64_layout(p: Seq<char>) -> bool {
    seq_contains(spec_to_lowercase(p), "client/binaries/win64"@) || seq_contains(
        spec_to_lowercase(p),
        "client\\binaries\\win64"@,
    )
}

/// The game's root directory for the executable at `p`.
pub open spec fn spec_game_root_dir(p: Seq<char>) -> Seq<char> {
    if is_win64_layout(p) && ancestor(p, 4) is Some {
        or_dot(ancestor(p, 4)->0)
    } else {
        match spec_path_parent(p) {
            Some(q) => or_dot(q),
            None => "."@,
        }
    }
}

fn or_dot_exec(p: String) -> (r: String)
    ensures
        r@ == or_dot(p@),
{
    if p.as_str().is_empty() {
        ".".to_owned()
    } else {
        p
    }
}

/// The game's root directory for the executable at `game_exe`: four levels up
/// for the `Client/Binaries/Win64` layout, else the executable's directory;
/// `.` stands for an empty directory.
pub fn get_game_root_dir(game_exe: &str) -> (root: String)
    ensures
        root@ == spec_game_root_dir(game_exe@),
{
    let lower = chars_of(to_lowercase(game_exe).as_str());
    if contains_chars(&lower, &chars_of("client/binaries/win64")) || contains_chars(
        &lower,
        &chars_of("client\\binaries\\win64"),
    ) {
        assert(is_win64_layout(game_exe@));
        proof {
            reveal_with_fuel(ancestor, 5);
        }
        if let Some(p1) = path_parent(game_exe) {
            if let Some(p2) = path_parent(p1.as_str()) {
                if let Some(p3) = path_parent(p2.as_str()) {
                    if let Some(p4) = path_parent(p3.as_str()) {
                        return or_dot_exec(p4);
                    }
                }
            }
        }
    }
    match path_parent(game_exe) {
        Some(parent) => or_dot_exec(parent),
        None => ".".to_owned(),
    }
}

/// `dir/Binaries/Win64/Client-Win64-Shipping.exe`.
pub open spec fn win64_exe_in(dir: Seq<char>) -> Seq<char> {
    spec_path_join(
        spec_path_join(spec_path_join(dir, "Binaries"@), "Win64"@),
        "Client-Win64-Shipping.exe"@,
    )
}

/// `dir/Saved/Logs/Client.log`.
pub open spec fn saved_log_in(dir: Seq<char>) -> Seq<char> {
    spec_path_join(spec_path_join(spec_path_join(dir, "Saved"@), "Logs"@), "Client.log"@)
}

/// `parent/<folder>/Client`.
pub open spec fn client_dir_under(parent: Seq<char>, folder: Seq<char>) -> Seq<char> {
    spec_path_join(spec_path_join(parent, folder), "Client"@)
}

/// Where the shipping executable may be, in the order they are tried.
pub open spec fn shipping_exe_candidates(parent: Seq<char>) -> Seq<Seq<char>> {
    seq![
        win64_exe_in(spec_path_join(parent, "Client"@)),
        win64_exe_in(client_dir_under(parent, "Wuthering Waves Game"@)),
        win64_exe_in(client_dir_under(parent, "Wuthering Waves"@)),
        win64_exe_in(parent),
    ]
}

/// Where `Client.log` may be, in the order they are tried.
pub open spec fn log_candidates(parent: Seq<char>) -> Seq<Seq<char>> {
    seq![
        saved_log_in(spec_path_join(parent, "Client"@)),
        saved_log_in(client_dir_under(parent, "Wuthering Waves Game"@)),
        saved_log_in(client_dir_under(parent, "Wuthering Waves"@)),
        saved_log_in(parent),
        spec_path_join(parent, "Client.log"@),
    ]
}

/// The text views of a sequence of strings.
pub open spec fn views(v: Seq<String>) -> Seq<Seq<char>> {
    v.map_values(|s: String| s@)
}

fn win64_exe_path(dir: &str) -> (r: String)
    ensures
        r@ == win64_exe_in(dir@),
{
    let binaries = path_join(dir, "Binaries");
    let win64 = path_join(binaries.as_str(), "Win64");
    path_join(win64.as_str(), "Client-Win64-Shipping.exe")
}

fn saved_log_path(dir: &str) -> (r: String)
    ensures
        r@ == saved_log_in(dir@),
{
    let saved = path_join(dir, "Saved");
    let logs = path_join(saved.as_str(), "Logs");
    path_join(logs.as_str(), "Client.log")
}

fn client_dir(parent: &str, folder: &str) -> (r: String)
    ensures
        r@ == client_dir_under(parent@, folder@),
{
    let game_dir = path_join(parent, folder);
    path_join(game_dir.as_str(), "Client")
}

/// The candidate paths of `Client-Win64-Shipping.exe` under the game root.
pub fn get_shipping_exe_candidates(parent: &str) -> (r: Vec<String>)
    ensures
        views(r@) == shipping_exe_candidates(parent@),
        r@.len() == 4,
{
    let mut r: Vec<String> = Vec::new();
    r.push(win64_exe_path(path_join(parent, "Client").as_str()));
    r.push(win64_exe_path(client_dir(parent, "Wuthering Waves Game").as_str()));
    r.push(win64_exe_path(client_dir(parent, "Wuthering Waves").as_str()));
    r.push(win64_exe_path(parent));
    assert(views(r@) =~= shipping_exe_candidates(parent@));
    assert(views(r@).len() == 4);
    r
}

/// The candidate paths of `Client.log` under the game root.
pub fn get_log_candidates(parent: &str) -> (r: Vec<String>)
    ensures
        views(r@) == log_candidates(parent@),
        r@.len() == 5,
{
    let mut r: Vec<String> = Vec::new();
    r.push(saved_log_path(path_join(parent, "Client").as_str()));
    r.push(saved_log_path(client_dir(parent, "Wuthering Waves Game").as_str()));
    r.push(saved_log_path(client_dir(parent, "Wuthering Waves").as_str()));
    r.push(saved_log_path(parent));
    r.push(path_join(parent, "Client.log"));
    assert(views(r@) =~= log_candidates(parent@));
    assert(views(r@).len() == 5);
    r
}

/// The Steam install path read from the registry, when it is not blank.
pub open spec fn spec_steam_path(value: Option<Seq<char>>) -> Option<Seq<char>> {
    match value {
        Some(v) => if spec_trim(v).len() > 0 {
            Some(v)
        } else {
            None
        },
        None => None,
    }
}

/// The text view of an optional string.
pub open spec fn opt_view(o: Option<String>) -> Option<Seq<char>> {
    match o {
        Some(s) => Some(s@),
        None => None,
    }
}

/// The text view of an optional string slice.
pub open spec fn opt_str_view(o: Option<&str>) -> Option<Seq<char>> {
    match o {
        Some(s) => Some(s@),
        None => None,
    }
}

/// The Steam install path, from the `SteamPath` value of the registry key
/// `HKCU\Software\Valve\Steam` as read by the caller: kept unless it is
/// missing or blank.
pub fn get_steam_path_from_registry(steam_path_value: Option<String>) -> (r: Option<String>)
    ensures
        opt_view(r) == spec_steam_path(opt_view(steam_path_value)),
{
    match steam_path_value {
        Some(steam_path) => {
            if !trim(steam_path.as_str()).as_str().is_empty() {
                Some(steam_path)
            } else {
                None
            }
        },
        None => None,
    }
}

/// The install folder that Steam uses when the registry names no Steam path.
pub open spec fn default_game_dir() -> Seq<char> {
    "C:\\Program Files (x86)\\Steam\\steamapps\\common\\Wuthering Waves"@
}

/// `steam/steamapps/common/Wuthering Waves`.
pub open spec fn steam_game_dir(steam: Seq<char>) -> Seq<char> {
    spec_path_join(spec_path_join(spec_path_join(steam, "steamapps"@), "common"@), "Wuthering Waves"@)
}

/// The game root: derived from the executable Steam passed, else from the
/// Steam install path, else the default Steam library folder.
pub open spec fn spec_game_parent_dir(input_exe: Option<Seq<char>>, steam_path: Option<Seq<char>>) -> Seq<char> {
    match input_exe {
        Some(exe) => spec_game_root_dir(exe),
        None => match steam_path {
            Some(steam) => steam_game_dir(steam),
            None => default_game_dir(),
        },
    }
}

/// The game root that the candidate paths hang from.
pub fn game_parent_dir(input_exe: Option<&str>, steam_path: Option<&str>) -> (r: String)
    ensures
        r@ == spec_game_parent_dir(opt_str_view(input_exe), opt_str_view(steam_path)),
{
    match input_exe {
        Some(input_str) => get_game_root_dir(input_str),
        None => match steam_path {
            Some(steam) => {
                let steamapps = path_join(steam, "steamapps");
                let common = path_join(steamapps.as_str(), "common");
                path_join(common.as_str(), "Wuthering Waves")
            },
            None => "C:\\Program Files (x86)\\Steam\\steamapps\\common\\Wuthering Waves".to_owned(),
        },
    }
}

/// Flag `i` is present and set.
pub open spec fn flag(flags: Seq<bool>, i: int) -> bool {
    0 <= i < flags.len() && flags[i]
}

/// The first index in `i..n` whose flag is set, or `n`.
pub open spec fn first_set(flags: Seq<bool>, i: int, n: int) -> int
    decreases n - i,
{
    if i < n && !flag(flags, i) {
        first_set(flags, i + 1, n)
    } else {
        i
    }
}

/// The first existing candidate, else the first candidate.
pub open spec fn first_existing(cands: Seq<Seq<char>>, exists: Seq<bool>) -> Seq<char> {
    let k = first_set(exists, 0, cands.len() as int);
    if k < cands.len() {
        cands[k]
    } else {
        cands[0]
    }
}

/// The executable to launch: the first existing shipping executable, else the
/// one Steam passed when it exists, else the first candidate.
pub open spec fn select_game_exe(
    cands: Seq<Seq<char>>,
    exists: Seq<bool>,
    input_exe: Option<Seq<char>>,
    input_exists: bool,
) -> Seq<char> {
    let k = first_set(exists, 0, cands.len() as int);
    if k < cands.len() {
        cands[k]
    } else {
        match input_exe {
            Some(exe) => if input_exists {
                exe
            } else {
                cands[0]
            },
            None => cands[0],
        }
    }
}

fn first_set_index(flags: &[bool], n: usize) -> (k: usize)
    ensures
        k == first_set(flags@, 0, n as int),
        k <= n,
{
    let mut i: usize = 0;
    while i < n && !(i < flags.len() && flags[i])
        invariant
            i <= n,
            first_set(flags@, i as int, n as int) == first_set(flags@, 0, n as int),
        decreases n - i,
    {
        i = i + 1;
    }
    i
}

/// Resolves the executable to launch, the log to watch and the extra launch
/// arguments. `exe_exists[i]` and `log_exists[i]` tell whether the `i`-th
/// candidate of `get_shipping_exe_candidates` and `get_log_candidates` (under
/// `game_parent_dir(input_exe, steam_path)`) exists; a missing flag counts as
/// false. `input_exists` tells whether `input_exe` exists.
pub fn resolve_paths(
    input_exe: Option<&str>,
    steam_path: Option<&str>,
    exe_exists: &[bool],
    input_exists: bool,
    log_exists: &[bool],
) -> (r: (String, String, Vec<String>))
    ensures
        ({
            let parent = spec_game_parent_dir(opt_str_view(input_exe), opt_str_view(steam_path));
            &&& r.0@ == select_game_exe(
                shipping_exe_candidates(parent),
                exe_exists@,
                opt_str_view(input_exe),
                input_exists,
            )
            &&& r.1@ == first_existing(log_candidates(parent), log_exists@)
            &&& r.2@.len() == 0
        }),
{
    let parent = game_parent_dir(input_exe, steam_path);
    let exe_candidates = get_shipping_exe_candidates(parent.as_str());
    let exe_index = first_set_index(exe_exists, exe_candidates.len());
    let game_exe = if exe_index < exe_candidates.len() {
        exe_candidates[exe_index].clone()
    } else if let Some(input_str) = input_exe {
        if input_exists {
            input_str.to_owned()
        } else {
            exe_candidates[0].clone()
        }
    } else {
        exe_candidates[0].clone()
    };
    let log_candidates = get_log_candidates(parent.as_str());
    let log_index = first_set_index(log_exists, log_candidates.len());
    let log_path = if log_index < log_candidates.len() {
        log_candidates[log_index].clone()
    } else {
        log_candidates[0].clone()
    };
    (game_exe, log_path, Vec::new())
}

/// `arg.to_ascii_lowercase().ends_with(".exe")`.
pub open spec fn ends_with_exe(a: Seq<char>) -> bool {
    let n = a.len() as int;
    n >= 4 && a[n - 4] == '.' && (a[n - 3] == 'e' || a[n - 3] == 'E') && (a[n - 2] == 'x'
        || a[n - 2] == 'X') && (a[n - 1] == 'e' || a[n - 1] == 'E')
}

/// The first `n` arguments joined the way the wrapper rebuilds a command
/// line: a space goes before each argument once the text so far is not empty.
pub open spec fn joined_command(args: Seq<Seq<char>>, n: int) -> Seq<char>
    decreases n,
{
    if n <= 0 {
        Seq::empty()
    } else {
        let c = joined_command(args, n - 1);
        (if c.len() > 0 {
            c.push(' ')
        } else {
            c
        }) + args[n - 1]
    }
}

/// Argument `k` ends the executable's path: the text up to it is a file, or
/// it ends in `.exe`.
pub open spec fn ends_command(args: Seq<Seq<char>>, prefix_is_file: Seq<bool>, k: int) -> bool {
    flag(prefix_is_file, k) || ends_with_exe(args[k])
}

/// The first argument at or after `i` that ends the executable's path, or the
/// number of arguments when none does.
pub open spec fn command_stop(args: Seq<Seq<char>>, prefix_is_file: Seq<bool>, i: int) -> int
    decreases args.len() - i,
{
    if 0 <= i < args.len() && !ends_command(args, prefix_is_file, i) {
        command_stop(args, prefix_is_file, i + 1)
    } else {
        i
    }
}

/// Steam's `%command%` arguments split into the executable path (which may
/// itself contain spaces) and the arguments for the game. When no argument
/// ends the path, the whole line is the command and the game gets every
/// argument but the first.
pub open spec fn spec_split_command(args: Seq<Seq<char>>, prefix_is_file: Seq<bool>) -> (
    Option<Seq<char>>,
    Seq<Seq<char>>,
) {
    if args.len() == 0 {
        (None, Seq::empty())
    } else {
        let k = command_stop(args, prefix_is_file, 0);
        if k < args.len() {
            (Some(joined_command(args, k + 1)), args.subrange(k + 1, args.len() as int))
        } else {
            (Some(joined_command(args, args.len() as int)), args.subrange(1, args.len() as int))
        }
    }
}

fn ends_with_exe_exec(arg: &str) -> (b: bool)
    ensures
        b == ends_with_exe(arg@),
{
    let a = chars_of(arg);
    let n = a.len();
    n >= 4 && a[n - 4] == '.' && (a[n - 3] == 'e' || a[n - 3] == 'E') && (a[n - 2] == 'x' || a[n
        - 2] == 'X') && (a[n - 1] == 'e' || a[n - 1] == 'E')
}

fn command_stop_index(args: &[String], prefix_is_file: &[bool]) -> (k: usize)
    ensures
        k == command_stop(views(args@), prefix_is_file@, 0),
        k <= args.len(),
{
    let ghost av = views(args@);
    let mut i: usize = 0;
    while i < args.len()
        invariant
            i <= args.len(),
            av == views(args@),
            command_stop(av, prefix_is_file@, i as int) == command_stop(av, prefix_is_file@, 0),
        decreases args.len() - i,
    {
        if (i < prefix_is_file.len() && prefix_is_file[i]) || ends_with_exe_exec(args[i].as_str()) {
            return i;
        }
        i = i + 1;
    }
    i
}

/// Appends argument `arg` to the command text being rebuilt.
fn push_argument(command: &mut String, arg: &str)
    ensures
        final(command)@ == (if old(command)@.len() > 0 {
            old(command)@.push(' ')
        } else {
            old(command)@
        }) + arg@,
{
    if !command.as_str().is_empty() {
        crate::text::push_char(command, ' ');
    }
    command.append(arg);
}

/// The command text of each prefix of the arguments: element `i` joins the
/// first `i + 1` arguments. The caller checks which of them names a file.
pub fn steam_command_prefixes(args: &[String]) -> (r: Vec<String>)
    ensures
        r@.len() == args@.len(),
        forall|i: int| 0 <= i < args@.len() ==> #[trigger] r@[i]@ == joined_command(views(args@), i + 1),
{
    let ghost av = views(args@);
    let mut r: Vec<String> = Vec::new();
    let mut command = String::new();
    let mut i: usize = 0;
    while i < args.len()
        invariant
            i <= args.len(),
            av == views(args@),
            r@.len() == i,
            command@ == joined_command(av, i as int),
            forall|j: int| 0 <= j < i ==> #[trigger] r@[j]@ == joined_command(av, j + 1),
        decreases args.len() - i,
    {
        push_argument(&mut command, args[i].as_str());
        r.push(command.clone());
        i = i + 1;
    }
    r
}

fn join_arguments(args: &[String], n: usize) -> (command: String)
    requires
        n <= args.len(),
    ensures
        command@ == joined_command(views(args@), n as int),
{
    let ghost av = views(args@);
    let mut command = String::new();
    let mut i: usize = 0;
    while i < n
        invariant
            i <= n <= args.len(),
            av == views(args@),
            command@ == joined_command(av, i as int),
        decreases n - i,
    {
        push_argument(&mut command, args[i].as_str());
        i = i + 1;
    }
    command
}

fn arguments_from(args: &[String], start: usize) -> (rest: Vec<String>)
    requires
        start <= args.len(),
    ensures
        views(rest@) == views(args@).subrange(start as int, args@.len() as int),
{
    let mut rest: Vec<String> = Vec::new();
    let mut i = start;
    while i < args.len()
        invariant
            start <= i <= args.len(),
            views(rest@) == views(args@).subrange(start as int, i as int),
        decreases args.len() - i,
    {
        let ghost old_rest = rest@;
        rest.push(args[i].clone());
        assert(views(rest@) =~= views(old_rest).push(args@[i as int]@));
        i = i + 1;
        assert(views(rest@) =~= views(args@).subrange(start as int, i as int));
    }
    rest
}

/// Splits the arguments Steam passed into the executable path and the game's
/// arguments. `prefix_is_file[i]` tells whether the element `i` of
/// `steam_command_prefixes(args)` names an existing file; a missing flag
/// counts as false.
pub fn split_steam_command_args(args: &[String], prefix_is_file: &[bool]) -> (r: (
    Option<String>,
    Vec<String>,
))
    ensures
        opt_view(r.0) == spec_split_command(views(args@), prefix_is_file@).0,
        views(r.1@) == spec_split_command(views(args@), prefix_is_file@).1,
{
    if args.len() == 0 {
        let empty: Vec<String> = Vec::new();
        assert(views(empty@) =~= Seq::<Seq<char>>::empty());
        return (None, empty);
    }
    let k = command_stop_index(args, prefix_is_file);
    if k < args.len() {
        let command = join_arguments(args, k + 1);
        (Some(command), arguments_from(args, k + 1))
    } else {
        let command = join_arguments(args, args.len());
        (Some(command), arguments_from(args, 1))
    }
}

/// The text views of a sequence of string slices.
pub open spec fn str_views(v: Seq<&str>) -> Seq<Seq<char>> {
    v.map_values(|s: &str| s@)
}

/// `split_steam_command_args` on string slices.
pub fn split_steam_command_args_for_test(args: &[&str], prefix_is_file: &[bool]) -> (r: (
    Option<String>,
    Vec<String>,
))
    ensures
        opt_view(r.0) == spec_split_command(str_views(args@), prefix_is_file@).0,
        views(r.1@) == spec_split_command(str_views(args@), prefix_is_file@).1,
{
    let mut owned: Vec<String> = Vec::new();
    let mut i: usize = 0;
    while i < args.len()
        invariant
            i <= args.len(),
            views(owned@) == str_views(args@).take(i as int),
        decreases args.len() - i,
    {
        let ghost old_owned = owned@;
        owned.push(args[i].to_owned());
        assert(views(owned@) =~= views(old_owned).push(args@[i as int]@));
        i = i + 1;
        assert(views(owned@) =~= str_views(args@).take(i as int));
    }
    assert(str_views(args@).take(args@.len() as int) =~= str_views(args@));
    split_steam_command_args(&owned, prefix_is_file)
}

/// The game root is never the empty path: an empty directory becomes `.`.
pub proof fn lemma_game_root_never_empty(p: Seq<char>)
    ensures
        spec_game_root_dir(p).len() > 0,
{
    reveal_strlit(".");
}

/// When the first argument already ends in `.exe` (in any ASCII case), it is
/// the whole command and every other argument goes to the game.
pub proof fn lemma_exe_argument_ends_command(args: Seq<Seq<char>>, prefix_is_file: Seq<bool>)
    requires
        args.len() > 0,
        ends_with_exe(args[0]),
    ensures
        spec_split_command(args, prefix_is_file) == (
            Some(args[0]),
            args.subrange(1, args.len() as int),
        ),
{
    reveal_with_fuel(joined_command, 2);
    assert(Seq::<char>::empty() + args[0] =~= args[0]);
}

/// Steam's command line always yields a command once it has an argument, and
/// never hands the game more arguments than it received after the first.
pub proof fn lemma_split_yields_command(args: Seq<Seq<char>>, prefix_is_file: Seq<bool>)
    requires
        args.len() > 0,
    ensures
        spec_split_command(args, prefix_is_file).0 is Some,
        spec_split_command(args, prefix_is_file).1.len() < args.len(),
{
    lemma_command_stop_bounds(args, prefix_is_file, 0);
}

proof fn lemma_command_stop_bounds(args: Seq<Seq<char>>, prefix_is_file: Seq<bool>, i: int)
    requires
        0 <= i <= args.len(),
    ensures
        i <= command_stop(args, prefix_is_file, i) <= args.len(),
    decreases args.len() - i,
{
    if i < args.len() && !ends_command(args, prefix_is_file, i) {
        lemma_command_stop_bounds(args, prefix_is_file, i + 1);
    }
}

/// An existing shipping executable always wins over the path Steam passed.
pub proof fn lemma_existing_candidate_preferred(
    cands: Seq<Seq<char>>,
    exists: Seq<bool>,
    input_exe: Option<Seq<char>>,
    input_exists: bool,
    k: int,
)
    requires
        0 <= k < cands.len(),
        flag(exists, k),
    ensures
        exists|j: int|
            0 <= j <= k && #[trigger] cands[j] == select_game_exe(
                cands,
                exists,
                input_exe,
                input_exists,
            ),
{
    lemma_first_set_at_most(exists, 0, cands.len() as int, k);
    let j = first_set(exists, 0, cands.len() as int);
    assert(cands[j] == select_game_exe(cands, exists, input_exe, input_exists));
}

proof fn lemma_first_set_at_most(flags: Seq<bool>, i: int, n: int, k: int)
    requires
        0 <= i <= k < n,
        flag(flags, k),
    ensures
        i <= first_set(flags, i, n) <= k,
    decreases k - i,
{
    if i < k && !flag(flags, i) {
        lemma_first_set_at_most(flags, i + 1, n, k);
    }
}

/// An executable in the `Client/Binaries/Win64` folder of a game root, named
/// with forward slashes or with backslashes in any letter case, has that root
/// (its fourth ancestor, `.` when empty) as game root.
pub proof fn lemma_win64_layout_root(p: Seq<char>)
    requires
        seq_contains(spec_to_lowercase(p), "client/binaries/win64"@) || seq_contains(
            spec_to_lowercase(p),
            "client\\binaries\\win64"@,
        ),
        ancestor(p, 4) is Some,
    ensures
        spec_game_root_dir(p) == or_dot(ancestor(p, 4)->0),
        spec_game_root_dir(p).len() > 0,
{
    reveal_strlit(".");
}

/// An executable outside that layout, or too close to the top of the path to
/// have four ancestors, has its own folder as game root.
pub proof fn lemma_other_layout_root(p: Seq<char>)
    requires
        !seq_contains(spec_to_lowercase(p), "client/binaries/win64"@),
        !seq_contains(spec_to_lowercase(p), "client\\binaries\\win64"@),
    ensures
        spec_game_root_dir(p) == (match spec_path_parent(p) {
            Some(q) => or_dot(q),
            None => "."@,
        }),
{
}

/// The log to watch is the first candidate that exists; when none exists it
/// is the first candidate.
pub proof fn lemma_first_existing_log(cands: Seq<Seq<char>>, exists: Seq<bool>, k: int)
    requires
        0 <= k < cands.len(),
        flag(exists, k),
        forall|j: int| 0 <= j < k ==> !flag(exists, j),
    ensures
        first_existing(cands, exists) == cands[k],
{
    lemma_first_set_exact(exists, 0, cands.len() as int, k);
}

/// With no existing candidate, the first candidate is used.
pub proof fn lemma_no_existing_log(cands: Seq<Seq<char>>, exists: Seq<bool>)
    requires
        cands.len() > 0,
        forall|j: int| 0 <= j < cands.len() ==> !flag(exists, j),
    ensures
        first_existing(cands, exists) == cands[0],
{
    lemma_first_set_none(exists, 0, cands.len() as int);
}

/// The executable to launch is the first shipping executable that exists,
/// whatever Steam passed.
pub proof fn lemma_first_existing_exe(
    cands: Seq<Seq<char>>,
    exists: Seq<bool>,
    input_exe: Option<Seq<char>>,
    input_exists: bool,
    k: int,
)
    requires
        0 <= k < cands.len(),
        flag(exists, k),
        forall|j: int| 0 <= j < k ==> !flag(exists, j),
    ensures
        select_game_exe(cands, exists, input_exe, input_exists) == cands[k],
{
    lemma_first_set_exact(exists, 0, cands.len() as int, k);
}

/// With no shipping executable on disk, the path Steam passed is used when
/// it exists, else the first candidate.
pub proof fn lemma_no_existing_exe(
    cands: Seq<Seq<char>>,
    exists: Seq<bool>,
    input_exe: Option<Seq<char>>,
    input_exists: bool,
)
    requires
        cands.len() > 0,
        forall|j: int| 0 <= j < cands.len() ==> !flag(exists, j),
    ensures
        select_game_exe(cands, exists, input_exe, input_exists) == (match input_exe {
            Some(exe) => if input_exists {
                exe
            } else {
                cands[0]
            },
            None => cands[0],
        }),
{
    lemma_first_set_none(exists, 0, cands.len() as int);
}

proof fn lemma_first_set_exact(flags: Seq<bool>, i: int, n: int, k: int)
    requires
        0 <= i <= k < n,
        flag(flags, k),
        forall|j: int| i <= j < k ==> !flag(flags, j),
    ensures
        first_set(flags, i, n) == k,
    decreases k - i,
{
    if i < k {
        lemma_first_set_exact(flags, i + 1, n, k);
    }
}

proof fn lemma_first_set_none(flags: Seq<bool>, i: int, n: int)
    requires
        0 <= i <= n,
        forall|j: int| i <= j < n ==> !flag(flags, j),
    ensures
        first_set(flags, i, n) == n,
    decreases n - i,
{
    if i < n {
        lemma_first_set_none(flags, i + 1, n);
    }
}

/// An argument counts as ending in `.exe` in any ASCII letter case.
pub proof fn lemma_exe_suffix_any_case(t: Seq<char>, e1: char, x: char, e2: char)
    requires
        e1 == 'e' || e1 == 'E',
        x == 'x' || x == 'X',
        e2 == 'e' || e2 == 'E',
    ensures
        ends_with_exe(t + seq!['.', e1, x, e2]),
        !ends_with_exe(t + seq!['.', e1, x]),
{
    let a = t + seq!['.', e1, x, e2];
    assert(a[a.len() - 4] == '.');
    assert(a[a.len() - 3] == e1);
    assert(a[a.len() - 2] == x);
    assert(a[a.len() - 1] == e2);
    let b = t + seq!['.', e1, x];
    if b.len() >= 4 {
        assert(b[b.len() - 1] == x);
    }
}

/// A Steam path from the registry is used exactly when it holds a character
/// that is not whitespace.
pub proof fn lemma_blank_steam_path_ignored(v: Seq<char>)
    ensures
        spec_steam_path(Some(v)) is Some <==> exists|i: int| 0 <= i < v.len() && !is_white_space(#[trigger] v[i]),
        spec_steam_path(Some(v)) matches Some(p) ==> p == v,
        spec_steam_path(None) is None,
{
    lemma_trim_empty_iff_blank(v);
}

/// Every executable candidate names `Client-Win64-Shipping.exe` inside some
/// folder, and every log candidate names `Client.log` inside some folder.
pub proof fn lemma_candidate_file_names(parent: Seq<char>)
    ensures
        forall|i: int|
            0 <= i < shipping_exe_candidates(parent).len() ==> exists|d: Seq<char>| #[trigger] shipping_exe_candidates(parent)[i]
                == spec_path_join(d, "Client-Win64-Shipping.exe"@),
        forall|i: int|
            0 <= i < log_candidates(parent).len() ==> exists|d: Seq<char>| #[trigger] log_candidates(parent)[i]
                == spec_path_join(d, "Client.log"@),
        shipping_exe_candidates(parent).len() == 4,
        log_candidates(parent).len() == 5,
{
    let e = shipping_exe_candidates(parent);
    let l = log_candidates(parent);
    assert forall|i: int| 0 <= i < e.len() implies exists|d: Seq<char>| #[trigger] e[i] == spec_path_join(
        d,
        "Client-Win64-Shipping.exe"@,
    ) by {
        let dirs = seq![
            spec_path_join(parent, "Client"@),
            client_dir_under(parent, "Wuthering Waves Game"@),
            client_dir_under(parent, "Wuthering Waves"@),
            parent,
        ];
        let d = spec_path_join(spec_path_join(dirs[i], "Binaries"@), "Win64"@);
        assert(e[i] == spec_path_join(d, "Client-Win64-Shipping.exe"@));
    }
    assert forall|i: int| 0 <= i < l.len() implies exists|d: Seq<char>| #[trigger] l[i] == spec_path_join(
        d,
        "Client.log"@,
    ) by {
        if i < 4 {
            let dirs = seq![
                spec_path_join(parent, "Client"@),
                client_dir_under(parent, "Wuthering Waves Game"@),
                client_dir_under(parent, "Wuthering Waves"@),
                parent,
            ];
            let d = spec_path_join(spec_path_join(dirs[i], "Saved"@), "Logs"@);
            assert(l[i] == spec_path_join(d, "Client.log"@));
        } else {
            assert(l[i] == spec_path_join(parent, "Client.log"@));
        }
    }
}

} // verus!
