//! The Ayux shell: its state (user, working directory, history), path
//! resolution, command parsing and command suggestions.
use vstd::prelude::*;

use crate::paths::{home_of, user_home, ROOT_ROOT};
use crate::strs::{self, chars_of, last_pos, owned, str_eq, views};
use crate::text::{split_words, trim, trim_str, words};

verus! {

// ---------------------------------------------------------------------
// Edit distance
// ---------------------------------------------------------------------

pub open spec fn min3(a: int, b: int, c: int) -> int {
    let m = if a <= b { a } else { b };
    if m <= c { m } else { c }
}

/// Levenshtein distance: the fewest single-character insertions, deletions
/// and substitutions turning `a` into `b`.
pub open spec fn lev(a: Seq<char>, b: Seq<char>) -> int
    decreases a.len() + b.len(),
{
    if a.len() == 0 {
        b.len() as int
    } else if b.len() == 0 {
        a.len() as int
    } else {
        min3(
            lev(a.drop_last(), b) + 1,
            lev(a, b.drop_last()) + 1,
            lev(a.drop_last(), b.drop_last()) + if a.last() == b.last() { 0int } else { 1int },
        )
    }
}

/// The distance is never more than the two lengths together.
pub proof fn lemma_lev_bounds(a: Seq<char>, b: Seq<char>)
    ensures
        0 <= lev(a, b) <= a.len() + b.len(),
    decreases a.len() + b.len(),
{
    if a.len() > 0 && b.len() > 0 {
        lemma_lev_bounds(a.drop_last(), b);
        lemma_lev_bounds(a, b.drop_last());
        lemma_lev_bounds(a.drop_last(), b.drop_last());
    }
}

/// A string is at distance zero from itself.
pub proof fn lemma_lev_self_zero(a: Seq<char>)
    ensures
        lev(a, a) == 0,
    decreases a.len(),
{
    if a.len() > 0 {
        lemma_lev_self_zero(a.drop_last());
        lemma_lev_bounds(a.drop_last(), a);
        lemma_lev_bounds(a, a.drop_last());
    }
}

/// Two strings are at distance zero exactly when they are equal, and the
/// distance from the empty string is the other string's length.
pub proof fn lemma_lev_zero_iff_equal(a: Seq<char>, b: Seq<char>)
    ensures
        lev(a, b) == 0 <==> a == b,
        lev(Seq::<char>::empty(), b) == b.len(),
    decreases a.len() + b.len(),
{
    if a == b {
        lemma_lev_self_zero(a);
    } else if a.len() > 0 && b.len() > 0 {
        lemma_lev_bounds(a.drop_last(), b);
        lemma_lev_bounds(a, b.drop_last());
        lemma_lev_bounds(a.drop_last(), b.drop_last());
        lemma_lev_zero_iff_equal(a.drop_last(), b.drop_last());
        if lev(a, b) == 0 {
            assert(a.last() == b.last());
            assert(a.drop_last() == b.drop_last());
            assert(a =~= a.drop_last().push(a.last()));
            assert(b =~= b.drop_last().push(b.last()));
        }
    } else if a.len() == 0 {
        if b.len() == 0 {
            assert(a =~= b);
        }
    } else {
        if a.len() == 0 {
            assert(a =~= b);
        }
    }
}

/// The distance does not depend on the order of its arguments.
pub proof fn lemma_lev_symmetric(a: Seq<char>, b: Seq<char>)
    ensures
        lev(a, b) == lev(b, a),
    decreases a.len() + b.len(),
{
    if a.len() > 0 && b.len() > 0 {
        lemma_lev_symmetric(a.drop_last(), b);
        lemma_lev_symmetric(a, b.drop_last());
        lemma_lev_symmetric(a.drop_last(), b.drop_last());
    }
}


// ---------------------------------------------------------------------
// Paths
// ---------------------------------------------------------------------

/// The parent of a path as `PathBuf::pop` computes it (`None` when there is
/// no parent to go to).
pub uninterp spec fn parent_path(path: Seq<char>) -> Option<Seq<char>>;

/// An absolute path whose components are all plain names: no empty
/// component (`//`), no `.` component, and no trailing `/` unless it is the
/// root itself.
pub open spec fn plain_dir(p: Seq<char>) -> bool {
    &&& p.len() > 0 && p[0] == '/'
    &&& forall|i: int| 0 <= i < p.len() - 1 && #[trigger] p[i] == '/' ==> p[i + 1] != '/'
    &&& p.len() > 1 ==> p.last() != '/'
    &&& forall|i: int| 1 <= i < p.len() && #[trigger] p[i] == '.' && p[i - 1] == '/' ==> i + 1 < p.len() && p[i + 1] != '/'
}

/// The directory above a plain absolute path: the text before its last
/// `/`, or the root when that `/` is the first character.
pub open spec fn up_from(p: Seq<char>) -> Seq<char> {
    if last_pos(p, '/') <= 0 {
        "/"@
    } else {
        p.take(last_pos(p, '/'))
    }
}

/// `PathBuf::pop` on the path `p`: the parent directory's path, or `None`
/// when the path has no parent (the root or an empty path). As `Path::parent`
/// documents it ("the path without its final component"), for a plain
/// absolute path other than the root that is the text before the last
/// `/` (the root when nothing is left), and the root has none.
#[verifier::external_body]
pub(crate) fn path_parent(p: &str) -> (r: Option<String>)
    ensures
        match r {
            Some(s) => parent_path(p@) == Some(s@),
            None => parent_path(p@) is None,
        },
        plain_dir(p@) && p@.len() > 1 ==> r is Some && r->0@ == up_from(p@),
        p@ == "/"@ ==> r is None,
{
    let mut buf = std::path::PathBuf::from(p);
    if buf.pop() {
        Some(buf.to_string_lossy().into_owned())
    } else {
        None
    }
}

/// Where `path` leads from the working directory `cwd`.
pub open spec fn resolved(cwd: Seq<char>, path: Seq<char>) -> Seq<char> {
    if path.len() > 0 && path[0] == '/' {
        path
    } else if path == ".."@ {
        match parent_path(cwd) {
            Some(p) => p,
            None => "/"@,
        }
    } else if path == "."@ || path.len() == 0 {
        cwd
    } else if cwd.len() > 0 && cwd.last() == '/' {
        cwd + path
    } else {
        cwd + "/"@ + path
    }
}

pub fn resolve_path(cwd: &str, path: &str) -> (r: String)
    ensures
        r@ == resolved(cwd@, path@),
        path@ == ".."@ && plain_dir(cwd@) ==> r@ == up_from(cwd@),
{
    let pc = chars_of(path);
    if pc.len() > 0 && pc[0] == '/' {
        proof {
            reveal_strlit("..");
            assert(path@ != ".."@);
        }
        return owned(path);
    }
    if str_eq(path, "..") {
        proof {
            if plain_dir(cwd@) && cwd@.len() == 1 {
                reveal_strlit("/");
                assert(cwd@ =~= "/"@);
                assert(last_pos(cwd@.drop_last(), '/') == -1);
            }
        }
        return match path_parent(cwd) {
            Some(p) => p,
            None => owned("/"),
        };
    }
    if str_eq(path, ".") || pc.len() == 0 {
        return owned(cwd);
    }
    let cc = chars_of(cwd);
    let mut base = owned(cwd);
    if !(cc.len() > 0 && cc[cc.len() - 1] == '/') {
        base.append("/");
    }
    base.append(path);
    base
}

// ---------------------------------------------------------------------
// Commands
// ---------------------------------------------------------------------

/// A command line of the shell, as the shell understands it.
#[derive(Debug)]
pub enum ShellCommand {
    Exit,
    Help,
    Pwd,
    Cd(String),
    Ls(String),
    Cat(Option<String>),
    Mkdir(Option<String>),
    Touch(Option<String>),
    Echo(String),
    Clear,
    Whoami,
    Hostname,
    Date,
    Reboot,
    Shutdown,
    History,
    ConfirmDeletion,
    CreateUser(Option<String>),
    DeleteUser(Option<String>),
    ListUsers,
    UsbAuthorize,
    UsbUnauthorize,
    UsbStatus,
    Unknown(String),
}

/// The words joined with single spaces.
pub open spec fn joined(ws: Seq<Seq<char>>) -> Seq<char>
    decreases ws.len(),
{
    if ws.len() == 0 {
        Seq::empty()
    } else if ws.len() == 1 {
        ws[0]
    } else {
        joined(ws.drop_last()) + " "@ + ws.last()
    }
}

/// The optional argument at position 1.
pub open spec fn arg1(ws: Seq<Seq<char>>, o: Option<String>) -> bool {
    if ws.len() > 1 { o matches Some(a) && a@ == ws[1] } else { o is None }
}

/// `cmd` is the command named by the words `ws` (which are not empty).
pub open spec fn command_of(ws: Seq<Seq<char>>, cmd: ShellCommand) -> bool {
    let w = ws[0];
    if w == "exit"@ || w == "logout"@ {
        cmd is Exit
    } else if w == "help"@ {
        cmd is Help
    } else if w == "pwd"@ {
        cmd is Pwd
    } else if w == "cd"@ {
        cmd matches ShellCommand::Cd(a) && a@ == (if ws.len() > 1 { ws[1] } else { Seq::empty() })
    } else if w == "ls"@ {
        cmd matches ShellCommand::Ls(a) && a@ == (if ws.len() > 1 { ws[1] } else { "."@ })
    } else if w == "cat"@ {
        cmd matches ShellCommand::Cat(o) && arg1(ws, o)
    } else if w == "mkdir"@ {
        cmd matches ShellCommand::Mkdir(o) && arg1(ws, o)
    } else if w == "touch"@ {
        cmd matches ShellCommand::Touch(o) && arg1(ws, o)
    } else if w == "echo"@ {
        cmd matches ShellCommand::Echo(t) && t@ == joined(ws.drop_first())
    } else if w == "clear"@ {
        cmd is Clear
    } else if w == "whoami"@ {
        cmd is Whoami
    } else if w == "hostname"@ {
        cmd is Hostname
    } else if w == "date"@ {
        cmd is Date
    } else if w == "reboot"@ {
        cmd is Reboot
    } else if w == "shutdown"@ {
        cmd is Shutdown
    } else if w == "history"@ {
        cmd is History
    } else if w == "confirm_deletion"@ {
        cmd is ConfirmDeletion
    } else if w == "create_user"@ {
        cmd matches ShellCommand::CreateUser(o) && arg1(ws, o)
    } else if w == "delete_user"@ {
        cmd matches ShellCommand::DeleteUser(o) && arg1(ws, o)
    } else if w == "list_users"@ {
        cmd is ListUsers
    } else if w == "usb_authorize"@ {
        cmd is UsbAuthorize
    } else if w == "usb_unauthorize"@ {
        cmd is UsbUnauthorize
    } else if w == "usb_status"@ {
        cmd is UsbStatus
    } else {
        cmd matches ShellCommand::Unknown(c) && c@ == w
    }
}

fn join_words(ws: &Vec<String>, from: usize) -> (r: String)
    requires
        from <= ws@.len(),
    ensures
        r@ == joined(ws@.map_values(|w: String| w@).subrange(from as int, ws@.len() as int)),
{
    let ghost all = ws@.map_values(|w: String| w@);
    let mut r = String::new();
    let mut i = from;
    while i < ws.len()
        invariant
            from <= i <= ws@.len(),
            all == ws@.map_values(|w: String| w@),
            r@ == joined(all.subrange(from as int, i as int)),
        decreases ws@.len() - i,
    {
        let ghost part = all.subrange(from as int, i + 1);
        assert(part.drop_last() =~= all.subrange(from as int, i as int));
        if i > from {
            r.append(" ");
        } else {
            assert(all.subrange(from as int, i as int).len() == 0);
        }
        r.append(ws[i].as_str());
        i = i + 1;
    }
    r
}

fn opt_arg(ws: &Vec<String>) -> (o: Option<String>)
    ensures
        arg1(ws@.map_values(|w: String| w@), o),
{
    if ws.len() > 1 { Some(ws[1].clone()) } else { None }
}

/// The command named by a line of input, or `None` for a blank line.
pub fn parse_command(line: &str) -> (c: Option<ShellCommand>)
    ensures
        words(line@).len() == 0 ==> c is None,
        words(line@).len() > 0 ==> (c matches Some(cmd) && command_of(words(line@), cmd)),
{
    let parts = split_words(line);
    if parts.len() == 0 {
        return None;
    }
    let ghost ws = parts@.map_values(|w: String| w@);
    let w = parts[0].as_str();
    let cmd = if str_eq(w, "exit") || str_eq(w, "logout") {
        ShellCommand::Exit
    } else if str_eq(w, "help") {
        ShellCommand::Help
    } else if str_eq(w, "pwd") {
        ShellCommand::Pwd
    } else if str_eq(w, "cd") {
        ShellCommand::Cd(if parts.len() > 1 { parts[1].clone() } else { String::new() })
    } else if str_eq(w, "ls") {
        ShellCommand::Ls(if parts.len() > 1 { parts[1].clone() } else { owned(".") })
    } else if str_eq(w, "cat") {
        ShellCommand::Cat(opt_arg(&parts))
    } else if str_eq(w, "mkdir") {
        ShellCommand::Mkdir(opt_arg(&parts))
    } else if str_eq(w, "touch") {
        ShellCommand::Touch(opt_arg(&parts))
    } else if str_eq(w, "echo") {
        let t = join_words(&parts, 1);
        assert(ws.subrange(1, ws.len() as int) =~= ws.drop_first());
        ShellCommand::Echo(t)
    } else if str_eq(w, "clear") {
        ShellCommand::Clear
    } else if str_eq(w, "whoami") {
        ShellCommand::Whoami
    } else if str_eq(w, "hostname") {
        ShellCommand::Hostname
    } else if str_eq(w, "date") {
        ShellCommand::Date
    } else if str_eq(w, "reboot") {
        ShellCommand::Reboot
    } else if str_eq(w, "shutdown") {
        ShellCommand::Shutdown
    } else if str_eq(w, "history") {
        ShellCommand::History
    } else if str_eq(w, "confirm_deletion") {
        ShellCommand::ConfirmDeletion
    } else if str_eq(w, "create_user") {
        ShellCommand::CreateUser(opt_arg(&parts))
    } else if str_eq(w, "delete_user") {
        ShellCommand::DeleteUser(opt_arg(&parts))
    } else if str_eq(w, "list_users") {
        ShellCommand::ListUsers
    } else if str_eq(w, "usb_authorize") {
        ShellCommand::UsbAuthorize
    } else if str_eq(w, "usb_unauthorize") {
        ShellCommand::UsbUnauthorize
    } else if str_eq(w, "usb_status") {
        ShellCommand::UsbStatus
    } else {
        ShellCommand::Unknown(parts[0].clone())
    };
    Some(cmd)
}

/// Every command the shell knows, in the order suggestions are listed.
pub open spec fn command_names() -> Seq<Seq<char>> {
    seq![
        "help"@, "exit"@, "logout"@, "pwd"@, "cd"@, "ls"@, "cat"@, "mkdir"@, "touch"@, "echo"@, "clear"@,
        "whoami"@, "hostname"@, "date"@, "reboot"@, "shutdown"@, "history"@, "confirm_deletion"@,
        "create_user"@, "delete_user"@, "list_users"@, "usb_authorize"@, "usb_unauthorize"@,
        "usb_status"@,
    ]
}

proof fn lemma_command_names_short(k: int)
    requires
        0 <= k < 24,
    ensures
        command_names()[k].len() <= 16,
{
    if k == 0 {
        reveal_strlit("help");
        assert(command_names()[k] == "help"@);
    } else if k == 1 {
        reveal_strlit("exit");
        assert(command_names()[k] == "exit"@);
    } else if k == 2 {
        reveal_strlit("logout");
        assert(command_names()[k] == "logout"@);
    } else if k == 3 {
        reveal_strlit("pwd");
        assert(command_names()[k] == "pwd"@);
    } else if k == 4 {
        reveal_strlit("cd");
        assert(command_names()[k] == "cd"@);
    } else if k == 5 {
        reveal_strlit("ls");
        assert(command_names()[k] == "ls"@);
    } else if k == 6 {
        reveal_strlit("cat");
        assert(command_names()[k] == "cat"@);
    } else if k == 7 {
        reveal_strlit("mkdir");
        assert(command_names()[k] == "mkdir"@);
    } else if k == 8 {
        reveal_strlit("touch");
        assert(command_names()[k] == "touch"@);
    } else if k == 9 {
        reveal_strlit("echo");
        assert(command_names()[k] == "echo"@);
    } else if k == 10 {
        reveal_strlit("clear");
        assert(command_names()[k] == "clear"@);
    } else if k == 11 {
        reveal_strlit("whoami");
        assert(command_names()[k] == "whoami"@);
    } else if k == 12 {
        reveal_strlit("hostname");
        assert(command_names()[k] == "hostname"@);
    } else if k == 13 {
        reveal_strlit("date");
        assert(command_names()[k] == "date"@);
    } else if k == 14 {
        reveal_strlit("reboot");
        assert(command_names()[k] == "reboot"@);
    } else if k == 15 {
        reveal_strlit("shutdown");
        assert(command_names()[k] == "shutdown"@);
    } else if k == 16 {
        reveal_strlit("history");
        assert(command_names()[k] == "history"@);
    } else if k == 17 {
        reveal_strlit("confirm_deletion");
        assert(command_names()[k] == "confirm_deletion"@);
    } else if k == 18 {
        reveal_strlit("create_user");
        assert(command_names()[k] == "create_user"@);
    } else if k == 19 {
        reveal_strlit("delete_user");
        assert(command_names()[k] == "delete_user"@);
    } else if k == 20 {
        reveal_strlit("list_users");
        assert(command_names()[k] == "list_users"@);
    } else if k == 21 {
        reveal_strlit("usb_authorize");
        assert(command_names()[k] == "usb_authorize"@);
    } else if k == 22 {
        reveal_strlit("usb_unauthorize");
        assert(command_names()[k] == "usb_unauthorize"@);
    } else if k == 23 {
        reveal_strlit("usb_status");
        assert(command_names()[k] == "usb_status"@);
    }
}

fn command_list() -> (v: Vec<&'static str>)
    ensures
        v@.map_values(|s: &str| s@) == command_names(),
{
    let v = vec![
        "help", "exit", "logout", "pwd", "cd", "ls", "cat", "mkdir", "touch", "echo", "clear",
        "whoami", "hostname", "date", "reboot", "shutdown", "history", "confirm_deletion",
        "create_user", "delete_user", "list_users", "usb_authorize", "usb_unauthorize",
        "usb_status",
    ];
    assert(v@.map_values(|s: &str| s@) =~= command_names());
    v
}


// ---------------------------------------------------------------------
// Shell state
// ---------------------------------------------------------------------

pub struct Shell {
    pub username: String,
    pub display_name: String,
    pub internal_id: String,
    pub token: String,
    pub cwd: String,
    pub history: Vec<String>,
}

/// Where a user's shell starts, and where `cd` without argument goes.
pub open spec fn start_dir(username: Seq<char>, internal_id: Seq<char>) -> Seq<char> {
    if username == "root"@ { ROOT_ROOT@ } else { home_of(internal_id) }
}

fn home_for(username: &str, internal_id: &str) -> (p: String)
    ensures
        p@ == start_dir(username@, internal_id@),
{
    if str_eq(username, "root") {
        owned(ROOT_ROOT)
    } else {
        user_home(internal_id)
    }
}

impl Shell {

    /// Levenshtein distance of two strings.
    pub fn levenshtein_distance(&self, s1: &str, s2: &str) -> (d: usize)
        requires
            s1@.len() + s2@.len() < usize::MAX,
        ensures
            d == lev(s1@, s2@),
    {
        let v1 = chars_of(s1);
        let v2 = chars_of(s2);
        let n = v1.len();
        let m = v2.len();
        // prev[j] = lev(v1[..i-1], v2[..j]); row 0 first.
        let mut prev: Vec<usize> = Vec::new();
        for j in 0..m + 1
            invariant
                v2@ == s2@,
                m == v2@.len(),
                prev@.len() == j,
                forall|k: int| 0 <= k < j ==> prev@[k] == lev(Seq::<char>::empty(), v2@.subrange(0, k)),
        {
            prev.push(j);
        }
        let mut i: usize = 1;
        while i <= n
            invariant
                v1@ == s1@,
                v2@ == s2@,
                n == v1@.len(),
                m == v2@.len(),
                n + m < usize::MAX,
                1 <= i <= n + 1,
                prev@.len() == m + 1,
                forall|k: int| 0 <= k <= m ==> prev@[k] == lev(v1@.subrange(0, i - 1), v2@.subrange(0, k)),
            decreases n + 1 - i,
        {
            let ghost a = v1@.subrange(0, i as int);
            assert(a.drop_last() =~= v1@.subrange(0, i - 1));
            let mut cur: Vec<usize> = Vec::new();
            proof {
                lemma_lev_bounds(a, Seq::<char>::empty());
            }
            cur.push(i);
            let mut j: usize = 1;
            while j <= m
                invariant
                    v1@ == s1@,
                    v2@ == s2@,
                    n == v1@.len(),
                    m == v2@.len(),
                    n + m < usize::MAX,
                    1 <= i <= n,
                    1 <= j <= m + 1,
                    a == v1@.subrange(0, i as int),
                    a.drop_last() == v1@.subrange(0, i - 1),
                    prev@.len() == m + 1,
                    cur@.len() == j,
                    forall|k: int| 0 <= k <= m ==> prev@[k] == lev(a.drop_last(), v2@.subrange(0, k)),
                    forall|k: int| 0 <= k < j ==> cur@[k] == lev(a, v2@.subrange(0, k)),
                decreases m + 1 - j,
            {
                let ghost b = v2@.subrange(0, j as int);
                assert(b.drop_last() =~= v2@.subrange(0, j - 1));
                proof {
                    lemma_lev_bounds(a.drop_last(), b);
                    lemma_lev_bounds(a, b.drop_last());
                    lemma_lev_bounds(a.drop_last(), b.drop_last());
                }
                let cost: usize = if v1[i - 1] == v2[j - 1] { 0 } else { 1 };
                let del = prev[j] + 1;
                let ins = cur[j - 1] + 1;
                let sub = prev[j - 1] + cost;
                let mut best = if del <= ins { del } else { ins };
                if sub < best {
                    best = sub;
                }
                assert(a.last() == v1@[i - 1]);
                assert(b.last() == v2@[j - 1]);
                assert(best == lev(a, b));
                cur.push(best);
                j = j + 1;
            }
            prev = cur;
            i = i + 1;
        }
        assert(v1@.subrange(0, n as int) =~= s1@);
        assert(v2@.subrange(0, m as int) =~= s2@);
        prev[m]
    }

    /// The known commands within edit distance 2 of `cmd`, in list order.
    pub fn suggest_command(&self, cmd: &str) -> (s: Vec<String>)
        requires
            cmd@.len() + 17 < usize::MAX,
        ensures
            s@.map_values(|x: String| x@) == command_names().filter(|c: Seq<char>| lev(cmd@, c) <= 2),
    {
        let names = command_list();
        let ghost all = names@.map_values(|s: &str| s@);
        let mut out: Vec<String> = Vec::new();
        for i in 0..names.len()
            invariant
                all == names@.map_values(|s: &str| s@),
                all == command_names(),
                all.len() == 24,
                cmd@.len() + 17 < usize::MAX,
                out@.map_values(|x: String| x@) == all.subrange(0, i as int).filter(|c: Seq<char>| lev(cmd@, c) <= 2),
        {
            let c = names[i];
            proof {
                lemma_command_names_short(i as int);
            }
            let ghost before = out@.map_values(|x: String| x@);
            let ghost pre = all.subrange(0, i as int);
            assert(all.subrange(0, i + 1).drop_last() =~= pre);
            reveal_with_fuel(Seq::filter, 1);
            if self.levenshtein_distance(cmd, c) <= 2 {
                out.push(owned(c));
                assert(out@.map_values(|x: String| x@) =~= before.push(c@));
            }
        }
        assert(all.subrange(0, all.len() as int) =~= all);
        out
    }

    /// A shell for the session described by the environment: the
    /// administrator starts in the administrator workspace, anyone else in
    /// their home directory.
    pub fn new(username: String, display_name: String, internal_id: String, token: String) -> (s: Shell)
        ensures
            s.username == username,
            s.display_name == display_name,
            s.internal_id == internal_id,
            s.token == token,
            s.cwd@ == start_dir(username@, internal_id@),
            s.history@.len() == 0,
    {
        let cwd = home_for(username.as_str(), internal_id.as_str());
        Shell { username, display_name, internal_id, token, cwd, history: Vec::new() }
    }

    /// Where `path` leads from the working directory.
    pub fn resolve_path(&self, path: &str) -> (r: String)
        ensures
            r@ == resolved(self.cwd@, path@),
            path@ == ".."@ && plain_dir(self.cwd@) ==> r@ == up_from(self.cwd@),
    {
        resolve_path(self.cwd.as_str(), path)
    }

    /// Changes the working directory; without argument, to the start
    /// directory.
    pub fn cd(&mut self, path: &str)
        ensures
            final(self).cwd@ == (if path@.len() == 0 {
                start_dir(old(self).username@, old(self).internal_id@)
            } else {
                resolved(old(self).cwd@, path@)
            }),
            path@ == ".."@ && plain_dir(old(self).cwd@) ==> final(self).cwd@ == up_from(old(self).cwd@),
            final(self).username == old(self).username,
            final(self).internal_id == old(self).internal_id,
            final(self).token == old(self).token,
            final(self).history == old(self).history,
    {
        if path.unicode_len() == 0 {
            proof {
                reveal_strlit("..");
            }
            self.cwd = home_for(self.username.as_str(), self.internal_id.as_str());
            return;
        }
        let new_path = self.resolve_path(path);
        self.cwd = new_path;
    }

    /// Reads one line of input: blank lines are ignored; otherwise the
    /// trimmed line joins the history unless it repeats the last entry, and
    /// the line's command is returned.
    pub fn accept_line(&mut self, input: &str) -> (c: Option<ShellCommand>)
        ensures
            final(self).cwd == old(self).cwd,
            final(self).username == old(self).username,
            trim(input@).len() == 0 ==> c is None && final(self).history == old(self).history,
            trim(input@).len() > 0 ==> {
                &&& (old(self).history@.len() > 0 && old(self).history@.last()@ == trim(input@))
                    ==> final(self).history@ == old(self).history@
                &&& !(old(self).history@.len() > 0 && old(self).history@.last()@ == trim(input@))
                    ==> (final(self).history@.len() == old(self).history@.len() + 1
                        && final(self).history@.drop_last() == old(self).history@
                        && final(self).history@.last()@ == trim(input@))
                &&& words(input@).len() > 0 ==> (c matches Some(cmd) && command_of(words(input@), cmd))
                &&& words(input@).len() == 0 ==> c is None
            },
            views(final(self).history@) == history_step(views(old(self).history@), input@),
    {
        let t = trim_str(input);
        if t.unicode_len() == 0 {
            return None;
        }
        let n = self.history.len();
        let repeat = n > 0 && self.history[n - 1] == t;
        let ghost before = self.history@;
        proof {
            if n > 0 {
                assert(views(before).last() == before.last()@);
            }
        }
        if !repeat {
            self.history.push(t);
            assert(self.history@.drop_last() =~= before);
            assert(views(self.history@) =~= views(before).push(trim(input@)));
        }
        parse_command(input)
    }
}

/// The history after reading one line: a blank line leaves it as it is;
/// otherwise the trimmed line is added unless it repeats the last entry.
pub open spec fn history_step(h: Seq<Seq<char>>, line: Seq<char>) -> Seq<Seq<char>> {
    let t = trim(line);
    if t.len() == 0 || (h.len() > 0 && h.last() == t) {
        h
    } else {
        h.push(t)
    }
}

/// The history after reading `lines` in order.
pub open spec fn history_after(h: Seq<Seq<char>>, lines: Seq<Seq<char>>) -> Seq<Seq<char>>
    decreases lines.len(),
{
    if lines.len() == 0 {
        h
    } else {
        history_step(history_after(h, lines.drop_last()), lines.last())
    }
}

/// No entry is blank and no two neighbouring entries are equal.
pub open spec fn clean_history(h: Seq<Seq<char>>) -> bool {
    &&& forall|i: int| 0 <= i < h.len() ==> (#[trigger] h[i]).len() > 0
    &&& forall|i: int| 0 < i < h.len() ==> #[trigger] h[i] != h[i - 1]
}

/// Over any run of input lines the history only grows, keeping what it
/// had; and a history without blank entries or neighbouring repeats keeps
/// that form.
pub proof fn lemma_history_over_lines(h: Seq<Seq<char>>, lines: Seq<Seq<char>>)
    requires
        clean_history(h),
    ensures
        clean_history(history_after(h, lines)),
        h.len() <= history_after(h, lines).len(),
        history_after(h, lines).subrange(0, h.len() as int) == h,
    decreases lines.len(),
{
    if lines.len() > 0 {
        lemma_history_over_lines(h, lines.drop_last());
        let g = history_after(h, lines.drop_last());
        let n = history_step(g, lines.last());
        if n != g {
            assert(n == g.push(trim(lines.last())));
            assert forall|i: int| 0 < i < n.len() implies #[trigger] n[i] != n[i - 1] by {
                if i < g.len() {
                    assert(n[i] == g[i] && n[i - 1] == g[i - 1]);
                }
            }
            assert forall|i: int| 0 <= i < n.len() implies (#[trigger] n[i]).len() > 0 by {
                if i < g.len() {
                    assert(n[i] == g[i]);
                }
            }
            assert(n.subrange(0, h.len() as int) =~= g.subrange(0, h.len() as int));
        }
    }
}

/// The first word of a command line decides the command, and the commands
/// on files take the second word as their file: "mkdir" makes a directory
/// (`Mkdir`), "touch" a file (`Touch`), "cat" shows one (`Cat`), "ls" lists
/// one (`Ls`, the current directory without a second word), "cd" enters
/// one (`Cd`); "exit" and "logout" leave; "create_user" and "delete_user"
/// take the account as their second word; each other keyword names its own
/// command, and any other word is an unknown command carrying that word.
pub proof fn lemma_command_keywords(ws: Seq<Seq<char>>, cmd: ShellCommand)
    requires
        ws.len() > 0,
        command_of(ws, cmd),
    ensures
        ws[0] == "mkdir"@ ==> (cmd matches ShellCommand::Mkdir(o)
            && (ws.len() > 1 ==> (o matches Some(a) && a@ == ws[1])) && (ws.len() == 1 ==> o is None)),
        ws[0] == "touch"@ ==> (cmd matches ShellCommand::Touch(o)
            && (ws.len() > 1 ==> (o matches Some(a) && a@ == ws[1])) && (ws.len() == 1 ==> o is None)),
        ws[0] == "cat"@ ==> (cmd matches ShellCommand::Cat(o)
            && (ws.len() > 1 ==> (o matches Some(a) && a@ == ws[1])) && (ws.len() == 1 ==> o is None)),
        ws[0] == "create_user"@ ==> (cmd matches ShellCommand::CreateUser(o)
            && (ws.len() > 1 ==> (o matches Some(a) && a@ == ws[1])) && (ws.len() == 1 ==> o is None)),
        ws[0] == "delete_user"@ ==> (cmd matches ShellCommand::DeleteUser(o)
            && (ws.len() > 1 ==> (o matches Some(a) && a@ == ws[1])) && (ws.len() == 1 ==> o is None)),
        ws[0] == "ls"@ ==> (cmd matches ShellCommand::Ls(a)
            && (ws.len() > 1 ==> a@ == ws[1]) && (ws.len() == 1 ==> a@ == "."@)),
        ws[0] == "cd"@ ==> (cmd matches ShellCommand::Cd(a)
            && (ws.len() > 1 ==> a@ == ws[1]) && (ws.len() == 1 ==> a@.len() == 0)),
        ws[0] == "echo"@ ==> cmd is Echo,
        ws[0] == "exit"@ || ws[0] == "logout"@ <==> cmd is Exit,
        ws[0] == "help"@ <==> cmd is Help,
        ws[0] == "pwd"@ <==> cmd is Pwd,
        ws[0] == "clear"@ <==> cmd is Clear,
        ws[0] == "whoami"@ <==> cmd is Whoami,
        ws[0] == "hostname"@ <==> cmd is Hostname,
        ws[0] == "date"@ <==> cmd is Date,
        ws[0] == "reboot"@ <==> cmd is Reboot,
        ws[0] == "shutdown"@ <==> cmd is Shutdown,
        ws[0] == "history"@ <==> cmd is History,
        ws[0] == "confirm_deletion"@ <==> cmd is ConfirmDeletion,
        ws[0] == "list_users"@ <==> cmd is ListUsers,
        ws[0] == "usb_authorize"@ <==> cmd is UsbAuthorize,
        ws[0] == "usb_unauthorize"@ <==> cmd is UsbUnauthorize,
        ws[0] == "usb_status"@ <==> cmd is UsbStatus,
        cmd is Mkdir <==> ws[0] == "mkdir"@,
        cmd is Touch <==> ws[0] == "touch"@,
        cmd is Cat <==> ws[0] == "cat"@,
        cmd is Ls <==> ws[0] == "ls"@,
        cmd is Cd <==> ws[0] == "cd"@,
        cmd is Echo <==> ws[0] == "echo"@,
        cmd is CreateUser <==> ws[0] == "create_user"@,
        cmd is DeleteUser <==> ws[0] == "delete_user"@,
        cmd is Unknown ==> cmd->Unknown_0@ == ws[0],
{
    reveal_strlit("exit");
    reveal_strlit("logout");
    reveal_strlit("help");
    reveal_strlit("pwd");
    reveal_strlit("cd");
    reveal_strlit("ls");
    reveal_strlit("cat");
    reveal_strlit("mkdir");
    reveal_strlit("touch");
    reveal_strlit("echo");
    reveal_strlit("clear");
    reveal_strlit("whoami");
    reveal_strlit("hostname");
    reveal_strlit("date");
    reveal_strlit("reboot");
    reveal_strlit("shutdown");
    reveal_strlit("history");
    reveal_strlit("confirm_deletion");
    reveal_strlit("create_user");
    reveal_strlit("delete_user");
    reveal_strlit("list_users");
    reveal_strlit("usb_authorize");
    reveal_strlit("usb_unauthorize");
    reveal_strlit("usb_status");
    reveal_strlit(".");
    let w = ws[0];
    if w == "exit"@ {
        assert(w != "logout"@) by { assert(w.len() != "logout"@.len()); }
        assert(w != "help"@) by { assert(w[0] != "help"@[0]); }
        assert(w != "pwd"@) by { assert(w.len() != "pwd"@.len()); }
        assert(w != "cd"@) by { assert(w.len() != "cd"@.len()); }
        assert(w != "ls"@) by { assert(w.len() != "ls"@.len()); }
        assert(w != "cat"@) by { assert(w.len() != "cat"@.len()); }
        assert(w != "mkdir"@) by { assert(w.len() != "mkdir"@.len()); }
        assert(w != "touch"@) by { assert(w.len() != "touch"@.len()); }
        assert(w != "echo"@) by { assert(w[1] != "echo"@[1]); }
        assert(w != "clear"@) by { assert(w.len() != "clear"@.len()); }
        assert(w != "whoami"@) by { assert(w.len() != "whoami"@.len()); }
        assert(w != "hostname"@) by { assert(w.len() != "hostname"@.len()); }
        assert(w != "date"@) by { assert(w[0] != "date"@[0]); }
        assert(w != "reboot"@) by { assert(w.len() != "reboot"@.len()); }
        assert(w != "shutdown"@) by { assert(w.len() != "shutdown"@.len()); }
        assert(w != "history"@) by { assert(w.len() != "history"@.len()); }
        assert(w != "confirm_deletion"@) by { assert(w.len() != "confirm_deletion"@.len()); }
        assert(w != "create_user"@) by { assert(w.len() != "create_user"@.len()); }
        assert(w != "delete_user"@) by { assert(w.len() != "delete_user"@.len()); }
        assert(w != "list_users"@) by { assert(w.len() != "list_users"@.len()); }
        assert(w != "usb_authorize"@) by { assert(w.len() != "usb_authorize"@.len()); }
        assert(w != "usb_unauthorize"@) by { assert(w.len() != "usb_unauthorize"@.len()); }
        assert(w != "usb_status"@) by { assert(w.len() != "usb_status"@.len()); }
    } else if w == "logout"@ {
        assert(w != "exit"@) by { assert(w.len() != "exit"@.len()); }
        assert(w != "help"@) by { assert(w.len() != "help"@.len()); }
        assert(w != "pwd"@) by { assert(w.len() != "pwd"@.len()); }
        assert(w != "cd"@) by { assert(w.len() != "cd"@.len()); }
        assert(w != "ls"@) by { assert(w.len() != "ls"@.len()); }
        assert(w != "cat"@) by { assert(w.len() != "cat"@.len()); }
        assert(w != "mkdir"@) by { assert(w.len() != "mkdir"@.len()); }
        assert(w != "touch"@) by { assert(w.len() != "touch"@.len()); }
        assert(w != "echo"@) by { assert(w.len() != "echo"@.len()); }
        assert(w != "clear"@) by { assert(w.len() != "clear"@.len()); }
        assert(w != "whoami"@) by { assert(w[0] != "whoami"@[0]); }
        assert(w != "hostname"@) by { assert(w.len() != "hostname"@.len()); }
        assert(w != "date"@) by { assert(w.len() != "date"@.len()); }
        assert(w != "reboot"@) by { assert(w[0] != "reboot"@[0]); }
        assert(w != "shutdown"@) by { assert(w.len() != "shutdown"@.len()); }
        assert(w != "history"@) by { assert(w.len() != "history"@.len()); }
        assert(w != "confirm_deletion"@) by { assert(w.len() != "confirm_deletion"@.len()); }
        assert(w != "create_user"@) by { assert(w.len() != "create_user"@.len()); }
        assert(w != "delete_user"@) by { assert(w.len() != "delete_user"@.len()); }
        assert(w != "list_users"@) by { assert(w.len() != "list_users"@.len()); }
        assert(w != "usb_authorize"@) by { assert(w.len() != "usb_authorize"@.len()); }
        assert(w != "usb_unauthorize"@) by { assert(w.len() != "usb_unauthorize"@.len()); }
        assert(w != "usb_status"@) by { assert(w.len() != "usb_status"@.len()); }
    } else if w == "help"@ {
        assert(w != "exit"@) by { assert(w[0] != "exit"@[0]); }
        assert(w != "logout"@) by { assert(w.len() != "logout"@.len()); }
        assert(w != "pwd"@) by { assert(w.len() != "pwd"@.len()); }
        assert(w != "cd"@) by { assert(w.len() != "cd"@.len()); }
        assert(w != "ls"@) by { assert(w.len() != "ls"@.len()); }
        assert(w != "cat"@) by { assert(w.len() != "cat"@.len()); }
        assert(w != "mkdir"@) by { assert(w.len() != "mkdir"@.len()); }
        assert(w != "touch"@) by { assert(w.len() != "touch"@.len()); }
        assert(w != "echo"@) by { assert(w[0] != "echo"@[0]); }
        assert(w != "clear"@) by { assert(w.len() != "clear"@.len()); }
        assert(w != "whoami"@) by { assert(w.len() != "whoami"@.len()); }
        assert(w != "hostname"@) by { assert(w.len() != "hostname"@.len()); }
        assert(w != "date"@) by { assert(w[0] != "date"@[0]); }
        assert(w != "reboot"@) by { assert(w.len() != "reboot"@.len()); }
        assert(w != "shutdown"@) by { assert(w.len() != "shutdown"@.len()); }
        assert(w != "history"@) by { assert(w.len() != "history"@.len()); }
        assert(w != "confirm_deletion"@) by { assert(w.len() != "confirm_deletion"@.len()); }
        assert(w != "create_user"@) by { assert(w.len() != "create_user"@.len()); }
        assert(w != "delete_user"@) by { assert(w.len() != "delete_user"@.len()); }
        assert(w != "list_users"@) by { assert(w.len() != "list_users"@.len()); }
        assert(w != "usb_authorize"@) by { assert(w.len() != "usb_authorize"@.len()); }
        assert(w != "usb_unauthorize"@) by { assert(w.len() != "usb_unauthorize"@.len()); }
        assert(w != "usb_status"@) by { assert(w.len() != "usb_status"@.len()); }
    } else if w == "pwd"@ {
        assert(w != "exit"@) by { assert(w.len() != "exit"@.len()); }
        assert(w != "logout"@) by { assert(w.len() != "logout"@.len()); }
        assert(w != "help"@) by { assert(w.len() != "help"@.len()); }
        assert(w != "cd"@) by { assert(w.len() != "cd"@.len()); }
        assert(w != "ls"@) by { assert(w.len() != "ls"@.len()); }
        assert(w != "cat"@) by { assert(w[0] != "cat"@[0]); }
        assert(w != "mkdir"@) by { assert(w.len() != "mkdir"@.len()); }
        assert(w != "touch"@) by { assert(w.len() != "touch"@.len()); }
        assert(w != "echo"@) by { assert(w.len() != "echo"@.len()); }
        assert(w != "clear"@) by { assert(w.len() != "clear"@.len()); }
        assert(w != "whoami"@) by { assert(w.len() != "whoami"@.len()); }
        assert(w != "hostname"@) by { assert(w.len() != "hostname"@.len()); }
        assert(w != "date"@) by { assert(w.len() != "date"@.len()); }
        assert(w != "reboot"@) by { assert(w.len() != "reboot"@.len()); }
        assert(w != "shutdown"@) by { assert(w.len() != "shutdown"@.len()); }
        assert(w != "history"@) by { assert(w.len() != "history"@.len()); }
        assert(w != "confirm_deletion"@) by { assert(w.len() != "confirm_deletion"@.len()); }
        assert(w != "create_user"@) by { assert(w.len() != "create_user"@.len()); }
        assert(w != "delete_user"@) by { assert(w.len() != "delete_user"@.len()); }
        assert(w != "list_users"@) by { assert(w.len() != "list_users"@.len()); }
        assert(w != "usb_authorize"@) by { assert(w.len() != "usb_authorize"@.len()); }
        assert(w != "usb_unauthorize"@) by { assert(w.len() != "usb_unauthorize"@.len()); }
        assert(w != "usb_status"@) by { assert(w.len() != "usb_status"@.len()); }
    } else if w == "cd"@ {
        assert(w != "exit"@) by { assert(w.len() != "exit"@.len()); }
        assert(w != "logout"@) by { assert(w.len() != "logout"@.len()); }
        assert(w != "help"@) by { assert(w.len() != "help"@.len()); }
        assert(w != "pwd"@) by { assert(w.len() != "pwd"@.len()); }
        assert(w != "ls"@) by { assert(w[0] != "ls"@[0]); }
        assert(w != "cat"@) by { assert(w.len() != "cat"@.len()); }
        assert(w != "mkdir"@) by { assert(w.len() != "mkdir"@.len()); }
        assert(w != "touch"@) by { assert(w.len() != "touch"@.len()); }
        assert(w != "echo"@) by { assert(w.len() != "echo"@.len()); }
        assert(w != "clear"@) by { assert(w.len() != "clear"@.len()); }
        assert(w != "whoami"@) by { assert(w.len() != "whoami"@.len()); }
        assert(w != "hostname"@) by { assert(w.len() != "hostname"@.len()); }
        assert(w != "date"@) by { assert(w.len() != "date"@.len()); }
        assert(w != "reboot"@) by { assert(w.len() != "reboot"@.len()); }
        assert(w != "shutdown"@) by { assert(w.len() != "shutdown"@.len()); }
        assert(w != "history"@) by { assert(w.len() != "history"@.len()); }
        assert(w != "confirm_deletion"@) by { assert(w.len() != "confirm_deletion"@.len()); }
        assert(w != "create_user"@) by { assert(w.len() != "create_user"@.len()); }
        assert(w != "delete_user"@) by { assert(w.len() != "delete_user"@.len()); }
        assert(w != "list_users"@) by { assert(w.len() != "list_users"@.len()); }
        assert(w != "usb_authorize"@) by { assert(w.len() != "usb_authorize"@.len()); }
        assert(w != "usb_unauthorize"@) by { assert(w.len() != "usb_unauthorize"@.len()); }
        assert(w != "usb_status"@) by { assert(w.len() != "usb_status"@.len()); }
    } else if w == "ls"@ {
        assert(w != "exit"@) by { assert(w.len() != "exit"@.len()); }
        assert(w != "logout"@) by { assert(w.len() != "logout"@.len()); }
        assert(w != "help"@) by { assert(w.len() != "help"@.len()); }
        assert(w != "pwd"@) by { assert(w.len() != "pwd"@.len()); }
        assert(w != "cd"@) by { assert(w[0] != "cd"@[0]); }
        assert(w != "cat"@) by { assert(w.len() != "cat"@.len()); }
        assert(w != "mkdir"@) by { assert(w.len() != "mkdir"@.len()); }
        assert(w != "touch"@) by { assert(w.len() != "touch"@.len()); }
        assert(w != "echo"@) by { assert(w.len() != "echo"@.len()); }
        assert(w != "clear"@) by { assert(w.len() != "clear"@.len()); }
        assert(w != "whoami"@) by { assert(w.len() != "whoami"@.len()); }
        assert(w != "hostname"@) by { assert(w.len() != "hostname"@.len()); }
        assert(w != "date"@) by { assert(w.len() != "date"@.len()); }
        assert(w != "reboot"@) by { assert(w.len() != "reboot"@.len()); }
        assert(w != "shutdown"@) by { assert(w.len() != "shutdown"@.len()); }
        assert(w != "history"@) by { assert(w.len() != "history"@.len()); }
        assert(w != "confirm_deletion"@) by { assert(w.len() != "confirm_deletion"@.len()); }
        assert(w != "create_user"@) by { assert(w.len() != "create_user"@.len()); }
        assert(w != "delete_user"@) by { assert(w.len() != "delete_user"@.len()); }
        assert(w != "list_users"@) by { assert(w.len() != "list_users"@.len()); }
        assert(w != "usb_authorize"@) by { assert(w.len() != "usb_authorize"@.len()); }
        assert(w != "usb_unauthorize"@) by { assert(w.len() != "usb_unauthorize"@.len()); }
        assert(w != "usb_status"@) by { assert(w.len() != "usb_status"@.len()); }
    } else if w == "cat"@ {
        assert(w != "exit"@) by { assert(w.len() != "exit"@.len()); }
        assert(w != "logout"@) by { assert(w.len() != "logout"@.len()); }
        assert(w != "help"@) by { assert(w.len() != "help"@.len()); }
        assert(w != "pwd"@) by { assert(w[0] != "pwd"@[0]); }
        assert(w != "cd"@) by { assert(w.len() != "cd"@.len()); }
        assert(w != "ls"@) by { assert(w.len() != "ls"@.len()); }
        assert(w != "mkdir"@) by { assert(w.len() != "mkdir"@.len()); }
        assert(w != "touch"@) by { assert(w.len() != "touch"@.len()); }
        assert(w != "echo"@) by { assert(w.len() != "echo"@.len()); }
        assert(w != "clear"@) by { assert(w.len() != "clear"@.len()); }
        assert(w != "whoami"@) by { assert(w.len() != "whoami"@.len()); }
        assert(w != "hostname"@) by { assert(w.len() != "hostname"@.len()); }
        assert(w != "date"@) by { assert(w.len() != "date"@.len()); }
        assert(w != "reboot"@) by { assert(w.len() != "reboot"@.len()); }
        assert(w != "shutdown"@) by { assert(w.len() != "shutdown"@.len()); }
        assert(w != "history"@) by { assert(w.len() != "history"@.len()); }
        assert(w != "confirm_deletion"@) by { assert(w.len() != "confirm_deletion"@.len()); }
        assert(w != "create_user"@) by { assert(w.len() != "create_user"@.len()); }
        assert(w != "delete_user"@) by { assert(w.len() != "delete_user"@.len()); }
        assert(w != "list_users"@) by { assert(w.len() != "list_users"@.len()); }
        assert(w != "usb_authorize"@) by { assert(w.len() != "usb_authorize"@.len()); }
        assert(w != "usb_unauthorize"@) by { assert(w.len() != "usb_unauthorize"@.len()); }
        assert(w != "usb_status"@) by { assert(w.len() != "usb_status"@.len()); }
    } else if w == "mkdir"@ {
        assert(w != "exit"@) by { assert(w.len() != "exit"@.len()); }
        assert(w != "logout"@) by { assert(w.len() != "logout"@.len()); }
        assert(w != "help"@) by { assert(w.len() != "help"@.len()); }
        assert(w != "pwd"@) by { assert(w.len() != "pwd"@.len()); }
        assert(w != "cd"@) by { assert(w.len() != "cd"@.len()); }
        assert(w != "ls"@) by { assert(w.len() != "ls"@.len()); }
        assert(w != "cat"@) by { assert(w.len() != "cat"@.len()); }
        assert(w != "touch"@) by { assert(w[0] != "touch"@[0]); }
        assert(w != "echo"@) by { assert(w.len() != "echo"@.len()); }
        assert(w != "clear"@) by { assert(w[0] != "clear"@[0]); }
        assert(w != "whoami"@) by { assert(w.len() != "whoami"@.len()); }
        assert(w != "hostname"@) by { assert(w.len() != "hostname"@.len()); }
        assert(w != "date"@) by { assert(w.len() != "date"@.len()); }
        assert(w != "reboot"@) by { assert(w.len() != "reboot"@.len()); }
        assert(w != "shutdown"@) by { assert(w.len() != "shutdown"@.len()); }
        assert(w != "history"@) by { assert(w.len() != "history"@.len()); }
        assert(w != "confirm_deletion"@) by { assert(w.len() != "confirm_deletion"@.len()); }
        assert(w != "create_user"@) by { assert(w.len() != "create_user"@.len()); }
        assert(w != "delete_user"@) by { assert(w.len() != "delete_user"@.len()); }
        assert(w != "list_users"@) by { assert(w.len() != "list_users"@.len()); }
        assert(w != "usb_authorize"@) by { assert(w.len() != "usb_authorize"@.len()); }
        assert(w != "usb_unauthorize"@) by { assert(w.len() != "usb_unauthorize"@.len()); }
        assert(w != "usb_status"@) by { assert(w.len() != "usb_status"@.len()); }
    } else if w == "touch"@ {
        assert(w != "exit"@) by { assert(w.len() != "exit"@.len()); }
        assert(w != "logout"@) by { assert(w.len() != "logout"@.len()); }
        assert(w != "help"@) by { assert(w.len() != "help"@.len()); }
        assert(w != "pwd"@) by { assert(w.len() != "pwd"@.len()); }
        assert(w != "cd"@) by { assert(w.len() != "cd"@.len()); }
        assert(w != "ls"@) by { assert(w.len() != "ls"@.len()); }
        assert(w != "cat"@) by { assert(w.len() != "cat"@.len()); }
        assert(w != "mkdir"@) by { assert(w[0] != "mkdir"@[0]); }
        assert(w != "echo"@) by { assert(w.len() != "echo"@.len()); }
        assert(w != "clear"@) by { assert(w[0] != "clear"@[0]); }
        assert(w != "whoami"@) by { assert(w.len() != "whoami"@.len()); }
        assert(w != "hostname"@) by { assert(w.len() != "hostname"@.len()); }
        assert(w != "date"@) by { assert(w.len() != "date"@.len()); }
        assert(w != "reboot"@) by { assert(w.len() != "reboot"@.len()); }
        assert(w != "shutdown"@) by { assert(w.len() != "shutdown"@.len()); }
        assert(w != "history"@) by { assert(w.len() != "history"@.len()); }
        assert(w != "confirm_deletion"@) by { assert(w.len() != "confirm_deletion"@.len()); }
        assert(w != "create_user"@) by { assert(w.len() != "create_user"@.len()); }
        assert(w != "delete_user"@) by { assert(w.len() != "delete_user"@.len()); }
        assert(w != "list_users"@) by { assert(w.len() != "list_users"@.len()); }
        assert(w != "usb_authorize"@) by { assert(w.len() != "usb_authorize"@.len()); }
        assert(w != "usb_unauthorize"@) by { assert(w.len() != "usb_unauthorize"@.len()); }
        assert(w != "usb_status"@) by { assert(w.len() != "usb_status"@.len()); }
    } else if w == "echo"@ {
        assert(w != "exit"@) by { assert(w[1] != "exit"@[1]); }
        assert(w != "logout"@) by { assert(w.len() != "logout"@.len()); }
        assert(w != "help"@) by { assert(w[0] != "help"@[0]); }
        assert(w != "pwd"@) by { assert(w.len() != "pwd"@.len()); }
        assert(w != "cd"@) by { assert(w.len() != "cd"@.len()); }
        assert(w != "ls"@) by { assert(w.len() != "ls"@.len()); }
        assert(w != "cat"@) by { assert(w.len() != "cat"@.len()); }
        assert(w != "mkdir"@) by { assert(w.len() != "mkdir"@.len()); }
        assert(w != "touch"@) by { assert(w.len() != "touch"@.len()); }
        assert(w != "clear"@) by { assert(w.len() != "clear"@.len()); }
        assert(w != "whoami"@) by { assert(w.len() != "whoami"@.len()); }
        assert(w != "hostname"@) by { assert(w.len() != "hostname"@.len()); }
        assert(w != "date"@) by { assert(w[0] != "date"@[0]); }
        assert(w != "reboot"@) by { assert(w.len() != "reboot"@.len()); }
        assert(w != "shutdown"@) by { assert(w.len() != "shutdown"@.len()); }
        assert(w != "history"@) by { assert(w.len() != "history"@.len()); }
        assert(w != "confirm_deletion"@) by { assert(w.len() != "confirm_deletion"@.len()); }
        assert(w != "create_user"@) by { assert(w.len() != "create_user"@.len()); }
        assert(w != "delete_user"@) by { assert(w.len() != "delete_user"@.len()); }
        assert(w != "list_users"@) by { assert(w.len() != "list_users"@.len()); }
        assert(w != "usb_authorize"@) by { assert(w.len() != "usb_authorize"@.len()); }
        assert(w != "usb_unauthorize"@) by { assert(w.len() != "usb_unauthorize"@.len()); }
        assert(w != "usb_status"@) by { assert(w.len() != "usb_status"@.len()); }
    } else if w == "clear"@ {
        assert(w != "exit"@) by { assert(w.len() != "exit"@.len()); }
        assert(w != "logout"@) by { assert(w.len() != "logout"@.len()); }
        assert(w != "help"@) by { assert(w.len() != "help"@.len()); }
        assert(w != "pwd"@) by { assert(w.len() != "pwd"@.len()); }
        assert(w != "cd"@) by { assert(w.len() != "cd"@.len()); }
        assert(w != "ls"@) by { assert(w.len() != "ls"@.len()); }
        assert(w != "cat"@) by { assert(w.len() != "cat"@.len()); }
        assert(w != "mkdir"@) by { assert(w[0] != "mkdir"@[0]); }
        assert(w != "touch"@) by { assert(w[0] != "touch"@[0]); }
        assert(w != "echo"@) by { assert(w.len() != "echo"@.len()); }
        assert(w != "whoami"@) by { assert(w.len() != "whoami"@.len()); }
        assert(w != "hostname"@) by { assert(w.len() != "hostname"@.len()); }
        assert(w != "date"@) by { assert(w.len() != "date"@.len()); }
        assert(w != "reboot"@) by { assert(w.len() != "reboot"@.len()); }
        assert(w != "shutdown"@) by { assert(w.len() != "shutdown"@.len()); }
        assert(w != "history"@) by { assert(w.len() != "history"@.len()); }
        assert(w != "confirm_deletion"@) by { assert(w.len() != "confirm_deletion"@.len()); }
        assert(w != "create_user"@) by { assert(w.len() != "create_user"@.len()); }
        assert(w != "delete_user"@) by { assert(w.len() != "delete_user"@.len()); }
        assert(w != "list_users"@) by { assert(w.len() != "list_users"@.len()); }
        assert(w != "usb_authorize"@) by { assert(w.len() != "usb_authorize"@.len()); }
        assert(w != "usb_unauthorize"@) by { assert(w.len() != "usb_unauthorize"@.len()); }
        assert(w != "usb_status"@) by { assert(w.len() != "usb_status"@.len()); }
    } else if w == "whoami"@ {
        assert(w != "exit"@) by { assert(w.len() != "exit"@.len()); }
        assert(w != "logout"@) by { assert(w[0] != "logout"@[0]); }
        assert(w != "help"@) by { assert(w.len() != "help"@.len()); }
        assert(w != "pwd"@) by { assert(w.len() != "pwd"@.len()); }
        assert(w != "cd"@) by { assert(w.len() != "cd"@.len()); }
        assert(w != "ls"@) by { assert(w.len() != "ls"@.len()); }
        assert(w != "cat"@) by { assert(w.len() != "cat"@.len()); }
        assert(w != "mkdir"@) by { assert(w.len() != "mkdir"@.len()); }
        assert(w != "touch"@) by { assert(w.len() != "touch"@.len()); }
        assert(w != "echo"@) by { assert(w.len() != "echo"@.len()); }
        assert(w != "clear"@) by { assert(w.len() != "clear"@.len()); }
        assert(w != "hostname"@) by { assert(w.len() != "hostname"@.len()); }
        assert(w != "date"@) by { assert(w.len() != "date"@.len()); }
        assert(w != "reboot"@) by { assert(w[0] != "reboot"@[0]); }
        assert(w != "shutdown"@) by { assert(w.len() != "shutdown"@.len()); }
        assert(w != "history"@) by { assert(w.len() != "history"@.len()); }
        assert(w != "confirm_deletion"@) by { assert(w.len() != "confirm_deletion"@.len()); }
        assert(w != "create_user"@) by { assert(w.len() != "create_user"@.len()); }
        assert(w != "delete_user"@) by { assert(w.len() != "delete_user"@.len()); }
        assert(w != "list_users"@) by { assert(w.len() != "list_users"@.len()); }
        assert(w != "usb_authorize"@) by { assert(w.len() != "usb_authorize"@.len()); }
        assert(w != "usb_unauthorize"@) by { assert(w.len() != "usb_unauthorize"@.len()); }
        assert(w != "usb_status"@) by { assert(w.len() != "usb_status"@.len()); }
    } else if w == "hostname"@ {
        assert(w != "exit"@) by { assert(w.len() != "exit"@.len()); }
        assert(w != "logout"@) by { assert(w.len() != "logout"@.len()); }
        assert(w != "help"@) by { assert(w.len() != "help"@.len()); }
        assert(w != "pwd"@) by { assert(w.len() != "pwd"@.len()); }
        assert(w != "cd"@) by { assert(w.len() != "cd"@.len()); }
        assert(w != "ls"@) by { assert(w.len() != "ls"@.len()); }
        assert(w != "cat"@) by { assert(w.len() != "cat"@.len()); }
        assert(w != "mkdir"@) by { assert(w.len() != "mkdir"@.len()); }
        assert(w != "touch"@) by { assert(w.len() != "touch"@.len()); }
        assert(w != "echo"@) by { assert(w.len() != "echo"@.len()); }
        assert(w != "clear"@) by { assert(w.len() != "clear"@.len()); }
        assert(w != "whoami"@) by { assert(w.len() != "whoami"@.len()); }
        assert(w != "date"@) by { assert(w.len() != "date"@.len()); }
        assert(w != "reboot"@) by { assert(w.len() != "reboot"@.len()); }
        assert(w != "shutdown"@) by { assert(w[0] != "shutdown"@[0]); }
        assert(w != "history"@) by { assert(w.len() != "history"@.len()); }
        assert(w != "confirm_deletion"@) by { assert(w.len() != "confirm_deletion"@.len()); }
        assert(w != "create_user"@) by { assert(w.len() != "create_user"@.len()); }
        assert(w != "delete_user"@) by { assert(w.len() != "delete_user"@.len()); }
        assert(w != "list_users"@) by { assert(w.len() != "list_users"@.len()); }
        assert(w != "usb_authorize"@) by { assert(w.len() != "usb_authorize"@.len()); }
        assert(w != "usb_unauthorize"@) by { assert(w.len() != "usb_unauthorize"@.len()); }
        assert(w != "usb_status"@) by { assert(w.len() != "usb_status"@.len()); }
    } else if w == "date"@ {
        assert(w != "exit"@) by { assert(w[0] != "exit"@[0]); }
        assert(w != "logout"@) by { assert(w.len() != "logout"@.len()); }
        assert(w != "help"@) by { assert(w[0] != "help"@[0]); }
        assert(w != "pwd"@) by { assert(w.len() != "pwd"@.len()); }
        assert(w != "cd"@) by { assert(w.len() != "cd"@.len()); }
        assert(w != "ls"@) by { assert(w.len() != "ls"@.len()); }
        assert(w != "cat"@) by { assert(w.len() != "cat"@.len()); }
        assert(w != "mkdir"@) by { assert(w.len() != "mkdir"@.len()); }
        assert(w != "touch"@) by { assert(w.len() != "touch"@.len()); }
        assert(w != "echo"@) by { assert(w[0] != "echo"@[0]); }
        assert(w != "clear"@) by { assert(w.len() != "clear"@.len()); }
        assert(w != "whoami"@) by { assert(w.len() != "whoami"@.len()); }
        assert(w != "hostname"@) by { assert(w.len() != "hostname"@.len()); }
        assert(w != "reboot"@) by { assert(w.len() != "reboot"@.len()); }
        assert(w != "shutdown"@) by { assert(w.len() != "shutdown"@.len()); }
        assert(w != "history"@) by { assert(w.len() != "history"@.len()); }
        assert(w != "confirm_deletion"@) by { assert(w.len() != "confirm_deletion"@.len()); }
        assert(w != "create_user"@) by { assert(w.len() != "create_user"@.len()); }
        assert(w != "delete_user"@) by { assert(w.len() != "delete_user"@.len()); }
        assert(w != "list_users"@) by { assert(w.len() != "list_users"@.len()); }
        assert(w != "usb_authorize"@) by { assert(w.len() != "usb_authorize"@.len()); }
        assert(w != "usb_unauthorize"@) by { assert(w.len() != "usb_unauthorize"@.len()); }
        assert(w != "usb_status"@) by { assert(w.len() != "usb_status"@.len()); }
    } else if w == "reboot"@ {
        assert(w != "exit"@) by { assert(w.len() != "exit"@.len()); }
        assert(w != "logout"@) by { assert(w[0] != "logout"@[0]); }
        assert(w != "help"@) by { assert(w.len() != "help"@.len()); }
        assert(w != "pwd"@) by { assert(w.len() != "pwd"@.len()); }
        assert(w != "cd"@) by { assert(w.len() != "cd"@.len()); }
        assert(w != "ls"@) by { assert(w.len() != "ls"@.len()); }
        assert(w != "cat"@) by { assert(w.len() != "cat"@.len()); }
        assert(w != "mkdir"@) by { assert(w.len() != "mkdir"@.len()); }
        assert(w != "touch"@) by { assert(w.len() != "touch"@.len()); }
        assert(w != "echo"@) by { assert(w.len() != "echo"@.len()); }
        assert(w != "clear"@) by { assert(w.len() != "clear"@.len()); }
        assert(w != "whoami"@) by { assert(w[0] != "whoami"@[0]); }
        assert(w != "hostname"@) by { assert(w.len() != "hostname"@.len()); }
        assert(w != "date"@) by { assert(w.len() != "date"@.len()); }
        assert(w != "shutdown"@) by { assert(w.len() != "shutdown"@.len()); }
        assert(w != "history"@) by { assert(w.len() != "history"@.len()); }
        assert(w != "confirm_deletion"@) by { assert(w.len() != "confirm_deletion"@.len()); }
        assert(w != "create_user"@) by { assert(w.len() != "create_user"@.len()); }
        assert(w != "delete_user"@) by { assert(w.len() != "delete_user"@.len()); }
        assert(w != "list_users"@) by { assert(w.len() != "list_users"@.len()); }
        assert(w != "usb_authorize"@) by { assert(w.len() != "usb_authorize"@.len()); }
        assert(w != "usb_unauthorize"@) by { assert(w.len() != "usb_unauthorize"@.len()); }
        assert(w != "usb_status"@) by { assert(w.len() != "usb_status"@.len()); }
    } else if w == "shutdown"@ {
        assert(w != "exit"@) by { assert(w.len() != "exit"@.len()); }
        assert(w != "logout"@) by { assert(w.len() != "logout"@.len()); }
        assert(w != "help"@) by { assert(w.len() != "help"@.len()); }
        assert(w != "pwd"@) by { assert(w.len() != "pwd"@.len()); }
        assert(w != "cd"@) by { assert(w.len() != "cd"@.len()); }
        assert(w != "ls"@) by { assert(w.len() != "ls"@.len()); }
        assert(w != "cat"@) by { assert(w.len() != "cat"@.len()); }
        assert(w != "mkdir"@) by { assert(w.len() != "mkdir"@.len()); }
        assert(w != "touch"@) by { assert(w.len() != "touch"@.len()); }
        assert(w != "echo"@) by { assert(w.len() != "echo"@.len()); }
        assert(w != "clear"@) by { assert(w.len() != "clear"@.len()); }
        assert(w != "whoami"@) by { assert(w.len() != "whoami"@.len()); }
        assert(w != "hostname"@) by { assert(w[0] != "hostname"@[0]); }
        assert(w != "date"@) by { assert(w.len() != "date"@.len()); }
        assert(w != "reboot"@) by { assert(w.len() != "reboot"@.len()); }
        assert(w != "history"@) by { assert(w.len() != "history"@.len()); }
        assert(w != "confirm_deletion"@) by { assert(w.len() != "confirm_deletion"@.len()); }
        assert(w != "create_user"@) by { assert(w.len() != "create_user"@.len()); }
        assert(w != "delete_user"@) by { assert(w.len() != "delete_user"@.len()); }
        assert(w != "list_users"@) by { assert(w.len() != "list_users"@.len()); }
        assert(w != "usb_authorize"@) by { assert(w.len() != "usb_authorize"@.len()); }
        assert(w != "usb_unauthorize"@) by { assert(w.len() != "usb_unauthorize"@.len()); }
        assert(w != "usb_status"@) by { assert(w.len() != "usb_status"@.len()); }
    } else if w == "history"@ {
        assert(w != "exit"@) by { assert(w.len() != "exit"@.len()); }
        assert(w != "logout"@) by { assert(w.len() != "logout"@.len()); }
        assert(w != "help"@) by { assert(w.len() != "help"@.len()); }
        assert(w != "pwd"@) by { assert(w.len() != "pwd"@.len()); }
        assert(w != "cd"@) by { assert(w.len() != "cd"@.len()); }
        assert(w != "ls"@) by { assert(w.len() != "ls"@.len()); }
        assert(w != "cat"@) by { assert(w.len() != "cat"@.len()); }
        assert(w != "mkdir"@) by { assert(w.len() != "mkdir"@.len()); }
        assert(w != "touch"@) by { assert(w.len() != "touch"@.len()); }
        assert(w != "echo"@) by { assert(w.len() != "echo"@.len()); }
        assert(w != "clear"@) by { assert(w.len() != "clear"@.len()); }
        assert(w != "whoami"@) by { assert(w.len() != "whoami"@.len()); }
        assert(w != "hostname"@) by { assert(w.len() != "hostname"@.len()); }
        assert(w != "date"@) by { assert(w.len() != "date"@.len()); }
        assert(w != "reboot"@) by { assert(w.len() != "reboot"@.len()); }
        assert(w != "shutdown"@) by { assert(w.len() != "shutdown"@.len()); }
        assert(w != "confirm_deletion"@) by { assert(w.len() != "confirm_deletion"@.len()); }
        assert(w != "create_user"@) by { assert(w.len() != "create_user"@.len()); }
        assert(w != "delete_user"@) by { assert(w.len() != "delete_user"@.len()); }
        assert(w != "list_users"@) by { assert(w.len() != "list_users"@.len()); }
        assert(w != "usb_authorize"@) by { assert(w.len() != "usb_authorize"@.len()); }
        assert(w != "usb_unauthorize"@) by { assert(w.len() != "usb_unauthorize"@.len()); }
        assert(w != "usb_status"@) by { assert(w.len() != "usb_status"@.len()); }
    } else if w == "confirm_deletion"@ {
        assert(w != "exit"@) by { assert(w.len() != "exit"@.len()); }
        assert(w != "logout"@) by { assert(w.len() != "logout"@.len()); }
        assert(w != "help"@) by { assert(w.len() != "help"@.len()); }
        assert(w != "pwd"@) by { assert(w.len() != "pwd"@.len()); }
        assert(w != "cd"@) by { assert(w.len() != "cd"@.len()); }
        assert(w != "ls"@) by { assert(w.len() != "ls"@.len()); }
        assert(w != "cat"@) by { assert(w.len() != "cat"@.len()); }
        assert(w != "mkdir"@) by { assert(w.len() != "mkdir"@.len()); }
        assert(w != "touch"@) by { assert(w.len() != "touch"@.len()); }
        assert(w != "echo"@) by { assert(w.len() != "echo"@.len()); }
        assert(w != "clear"@) by { assert(w.len() != "clear"@.len()); }
        assert(w != "whoami"@) by { assert(w.len() != "whoami"@.len()); }
        assert(w != "hostname"@) by { assert(w.len() != "hostname"@.len()); }
        assert(w != "date"@) by { assert(w.len() != "date"@.len()); }
        assert(w != "reboot"@) by { assert(w.len() != "reboot"@.len()); }
        assert(w != "shutdown"@) by { assert(w.len() != "shutdown"@.len()); }
        assert(w != "history"@) by { assert(w.len() != "history"@.len()); }
        assert(w != "create_user"@) by { assert(w.len() != "create_user"@.len()); }
        assert(w != "delete_user"@) by { assert(w.len() != "delete_user"@.len()); }
        assert(w != "list_users"@) by { assert(w.len() != "list_users"@.len()); }
        assert(w != "usb_authorize"@) by { assert(w.len() != "usb_authorize"@.len()); }
        assert(w != "usb_unauthorize"@) by { assert(w.len() != "usb_unauthorize"@.len()); }
        assert(w != "usb_status"@) by { assert(w.len() != "usb_status"@.len()); }
    } else if w == "create_user"@ {
        assert(w != "exit"@) by { assert(w.len() != "exit"@.len()); }
        assert(w != "logout"@) by { assert(w.len() != "logout"@.len()); }
        assert(w != "help"@) by { assert(w.len() != "help"@.len()); }
        assert(w != "pwd"@) by { assert(w.len() != "pwd"@.len()); }
        assert(w != "cd"@) by { assert(w.len() != "cd"@.len()); }
        assert(w != "ls"@) by { assert(w.len() != "ls"@.len()); }
        assert(w != "cat"@) by { assert(w.len() != "cat"@.len()); }
        assert(w != "mkdir"@) by { assert(w.len() != "mkdir"@.len()); }
        assert(w != "touch"@) by { assert(w.len() != "touch"@.len()); }
        assert(w != "echo"@) by { assert(w.len() != "echo"@.len()); }
        assert(w != "clear"@) by { assert(w.len() != "clear"@.len()); }
        assert(w != "whoami"@) by { assert(w.len() != "whoami"@.len()); }
        assert(w != "hostname"@) by { assert(w.len() != "hostname"@.len()); }
        assert(w != "date"@) by { assert(w.len() != "date"@.len()); }
        assert(w != "reboot"@) by { assert(w.len() != "reboot"@.len()); }
        assert(w != "shutdown"@) by { assert(w.len() != "shutdown"@.len()); }
        assert(w != "history"@) by { assert(w.len() != "history"@.len()); }
        assert(w != "confirm_deletion"@) by { assert(w.len() != "confirm_deletion"@.len()); }
        assert(w != "delete_user"@) by { assert(w[0] != "delete_user"@[0]); }
        assert(w != "list_users"@) by { assert(w.len() != "list_users"@.len()); }
        assert(w != "usb_authorize"@) by { assert(w.len() != "usb_authorize"@.len()); }
        assert(w != "usb_unauthorize"@) by { assert(w.len() != "usb_unauthorize"@.len()); }
        assert(w != "usb_status"@) by { assert(w.len() != "usb_status"@.len()); }
    } else if w == "delete_user"@ {
        assert(w != "exit"@) by { assert(w.len() != "exit"@.len()); }
        assert(w != "logout"@) by { assert(w.len() != "logout"@.len()); }
        assert(w != "help"@) by { assert(w.len() != "help"@.len()); }
        assert(w != "pwd"@) by { assert(w.len() != "pwd"@.len()); }
        assert(w != "cd"@) by { assert(w.len() != "cd"@.len()); }
        assert(w != "ls"@) by { assert(w.len() != "ls"@.len()); }
        assert(w != "cat"@) by { assert(w.len() != "cat"@.len()); }
        assert(w != "mkdir"@) by { assert(w.len() != "mkdir"@.len()); }
        assert(w != "touch"@) by { assert(w.len() != "touch"@.len()); }
        assert(w != "echo"@) by { assert(w.len() != "echo"@.len()); }
        assert(w != "clear"@) by { assert(w.len() != "clear"@.len()); }
        assert(w != "whoami"@) by { assert(w.len() != "whoami"@.len()); }
        assert(w != "hostname"@) by { assert(w.len() != "hostname"@.len()); }
        assert(w != "date"@) by { assert(w.len() != "date"@.len()); }
        assert(w != "reboot"@) by { assert(w.len() != "reboot"@.len()); }
        assert(w != "shutdown"@) by { assert(w.len() != "shutdown"@.len()); }
        assert(w != "history"@) by { assert(w.len() != "history"@.len()); }
        assert(w != "confirm_deletion"@) by { assert(w.len() != "confirm_deletion"@.len()); }
        assert(w != "create_user"@) by { assert(w[0] != "create_user"@[0]); }
        assert(w != "list_users"@) by { assert(w.len() != "list_users"@.len()); }
        assert(w != "usb_authorize"@) by { assert(w.len() != "usb_authorize"@.len()); }
        assert(w != "usb_unauthorize"@) by { assert(w.len() != "usb_unauthorize"@.len()); }
        assert(w != "usb_status"@) by { assert(w.len() != "usb_status"@.len()); }
    } else if w == "list_users"@ {
        assert(w != "exit"@) by { assert(w.len() != "exit"@.len()); }
        assert(w != "logout"@) by { assert(w.len() != "logout"@.len()); }
        assert(w != "help"@) by { assert(w.len() != "help"@.len()); }
        assert(w != "pwd"@) by { assert(w.len() != "pwd"@.len()); }
        assert(w != "cd"@) by { assert(w.len() != "cd"@.len()); }
        assert(w != "ls"@) by { assert(w.len() != "ls"@.len()); }
        assert(w != "cat"@) by { assert(w.len() != "cat"@.len()); }
        assert(w != "mkdir"@) by { assert(w.len() != "mkdir"@.len()); }
        assert(w != "touch"@) by { assert(w.len() != "touch"@.len()); }
        assert(w != "echo"@) by { assert(w.len() != "echo"@.len()); }
        assert(w != "clear"@) by { assert(w.len() != "clear"@.len()); }
        assert(w != "whoami"@) by { assert(w.len() != "whoami"@.len()); }
        assert(w != "hostname"@) by { assert(w.len() != "hostname"@.len()); }
        assert(w != "date"@) by { assert(w.len() != "date"@.len()); }
        assert(w != "reboot"@) by { assert(w.len() != "reboot"@.len()); }
        assert(w != "shutdown"@) by { assert(w.len() != "shutdown"@.len()); }
        assert(w != "history"@) by { assert(w.len() != "history"@.len()); }
        assert(w != "confirm_deletion"@) by { assert(w.len() != "confirm_deletion"@.len()); }
        assert(w != "create_user"@) by { assert(w.len() != "create_user"@.len()); }
        assert(w != "delete_user"@) by { assert(w.len() != "delete_user"@.len()); }
        assert(w != "usb_authorize"@) by { assert(w.len() != "usb_authorize"@.len()); }
        assert(w != "usb_unauthorize"@) by { assert(w.len() != "usb_unauthorize"@.len()); }
        assert(w != "usb_status"@) by { assert(w[0] != "usb_status"@[0]); }
    } else if w == "usb_authorize"@ {
        assert(w != "exit"@) by { assert(w.len() != "exit"@.len()); }
        assert(w != "logout"@) by { assert(w.len() != "logout"@.len()); }
        assert(w != "help"@) by { assert(w.len() != "help"@.len()); }
        assert(w != "pwd"@) by { assert(w.len() != "pwd"@.len()); }
        assert(w != "cd"@) by { assert(w.len() != "cd"@.len()); }
        assert(w != "ls"@) by { assert(w.len() != "ls"@.len()); }
        assert(w != "cat"@) by { assert(w.len() != "cat"@.len()); }
        assert(w != "mkdir"@) by { assert(w.len() != "mkdir"@.len()); }
        assert(w != "touch"@) by { assert(w.len() != "touch"@.len()); }
        assert(w != "echo"@) by { assert(w.len() != "echo"@.len()); }
        assert(w != "clear"@) by { assert(w.len() != "clear"@.len()); }
        assert(w != "whoami"@) by { assert(w.len() != "whoami"@.len()); }
        assert(w != "hostname"@) by { assert(w.len() != "hostname"@.len()); }
        assert(w != "date"@) by { assert(w.len() != "date"@.len()); }
        assert(w != "reboot"@) by { assert(w.len() != "reboot"@.len()); }
        assert(w != "shutdown"@) by { assert(w.len() != "shutdown"@.len()); }
        assert(w != "history"@) by { assert(w.len() != "history"@.len()); }
        assert(w != "confirm_deletion"@) by { assert(w.len() != "confirm_deletion"@.len()); }
        assert(w != "create_user"@) by { assert(w.len() != "create_user"@.len()); }
        assert(w != "delete_user"@) by { assert(w.len() != "delete_user"@.len()); }
        assert(w != "list_users"@) by { assert(w.len() != "list_users"@.len()); }
        assert(w != "usb_unauthorize"@) by { assert(w.len() != "usb_unauthorize"@.len()); }
        assert(w != "usb_status"@) by { assert(w.len() != "usb_status"@.len()); }
    } else if w == "usb_unauthorize"@ {
        assert(w != "exit"@) by { assert(w.len() != "exit"@.len()); }
        assert(w != "logout"@) by { assert(w.len() != "logout"@.len()); }
        assert(w != "help"@) by { assert(w.len() != "help"@.len()); }
        assert(w != "pwd"@) by { assert(w.len() != "pwd"@.len()); }
        assert(w != "cd"@) by { assert(w.len() != "cd"@.len()); }
        assert(w != "ls"@) by { assert(w.len() != "ls"@.len()); }
        assert(w != "cat"@) by { assert(w.len() != "cat"@.len()); }
        assert(w != "mkdir"@) by { assert(w.len() != "mkdir"@.len()); }
        assert(w != "touch"@) by { assert(w.len() != "touch"@.len()); }
        assert(w != "echo"@) by { assert(w.len() != "echo"@.len()); }
        assert(w != "clear"@) by { assert(w.len() != "clear"@.len()); }
        assert(w != "whoami"@) by { assert(w.len() != "whoami"@.len()); }
        assert(w != "hostname"@) by { assert(w.len() != "hostname"@.len()); }
        assert(w != "date"@) by { assert(w.len() != "date"@.len()); }
        assert(w != "reboot"@) by { assert(w.len() != "reboot"@.len()); }
        assert(w != "shutdown"@) by { assert(w.len() != "shutdown"@.len()); }
        assert(w != "history"@) by { assert(w.len() != "history"@.len()); }
        assert(w != "confirm_deletion"@) by { assert(w.len() != "confirm_deletion"@.len()); }
        assert(w != "create_user"@) by { assert(w.len() != "create_user"@.len()); }
        assert(w != "delete_user"@) by { assert(w.len() != "delete_user"@.len()); }
        assert(w != "list_users"@) by { assert(w.len() != "list_users"@.len()); }
        assert(w != "usb_authorize"@) by { assert(w.len() != "usb_authorize"@.len()); }
        assert(w != "usb_status"@) by { assert(w.len() != "usb_status"@.len()); }
    } else if w == "usb_status"@ {
        assert(w != "exit"@) by { assert(w.len() != "exit"@.len()); }
        assert(w != "logout"@) by { assert(w.len() != "logout"@.len()); }
        assert(w != "help"@) by { assert(w.len() != "help"@.len()); }
        assert(w != "pwd"@) by { assert(w.len() != "pwd"@.len()); }
        assert(w != "cd"@) by { assert(w.len() != "cd"@.len()); }
        assert(w != "ls"@) by { assert(w.len() != "ls"@.len()); }
        assert(w != "cat"@) by { assert(w.len() != "cat"@.len()); }
        assert(w != "mkdir"@) by { assert(w.len() != "mkdir"@.len()); }
        assert(w != "touch"@) by { assert(w.len() != "touch"@.len()); }
        assert(w != "echo"@) by { assert(w.len() != "echo"@.len()); }
        assert(w != "clear"@) by { assert(w.len() != "clear"@.len()); }
        assert(w != "whoami"@) by { assert(w.len() != "whoami"@.len()); }
        assert(w != "hostname"@) by { assert(w.len() != "hostname"@.len()); }
        assert(w != "date"@) by { assert(w.len() != "date"@.len()); }
        assert(w != "reboot"@) by { assert(w.len() != "reboot"@.len()); }
        assert(w != "shutdown"@) by { assert(w.len() != "shutdown"@.len()); }
        assert(w != "history"@) by { assert(w.len() != "history"@.len()); }
        assert(w != "confirm_deletion"@) by { assert(w.len() != "confirm_deletion"@.len()); }
        assert(w != "create_user"@) by { assert(w.len() != "create_user"@.len()); }
        assert(w != "delete_user"@) by { assert(w.len() != "delete_user"@.len()); }
        assert(w != "list_users"@) by { assert(w[0] != "list_users"@[0]); }
        assert(w != "usb_authorize"@) by { assert(w.len() != "usb_authorize"@.len()); }
        assert(w != "usb_unauthorize"@) by { assert(w.len() != "usb_unauthorize"@.len()); }
    }
}

/// The commands the shell suggests for a mistyped word are exactly the
/// commands it understands: a command line whose first word is one of the
/// suggested names is parsed as that command, and any other first word is
/// an unknown command.
pub proof fn lemma_suggestions_are_known_commands(ws: Seq<Seq<char>>, cmd: ShellCommand)
    requires
        ws.len() > 0,
        command_of(ws, cmd),
    ensures
        cmd is Unknown <==> !command_names().contains(ws[0]),
{
    lemma_command_keywords(ws, cmd);
    let names = command_names();
    let w = ws[0];
    if names.contains(w) {
        let k = choose|k: int| 0 <= k < names.len() && names[k] == w;
        if k == 0 {
            assert(w == "help"@);
        } else if k == 1 {
            assert(w == "exit"@);
        } else if k == 2 {
            assert(w == "logout"@);
        } else if k == 3 {
            assert(w == "pwd"@);
        } else if k == 4 {
            assert(w == "cd"@);
        } else if k == 5 {
            assert(w == "ls"@);
        } else if k == 6 {
            assert(w == "cat"@);
        } else if k == 7 {
            assert(w == "mkdir"@);
        } else if k == 8 {
            assert(w == "touch"@);
        } else if k == 9 {
            assert(w == "echo"@);
        } else if k == 10 {
            assert(w == "clear"@);
        } else if k == 11 {
            assert(w == "whoami"@);
        } else if k == 12 {
            assert(w == "hostname"@);
        } else if k == 13 {
            assert(w == "date"@);
        } else if k == 14 {
            assert(w == "reboot"@);
        } else if k == 15 {
            assert(w == "shutdown"@);
        } else if k == 16 {
            assert(w == "history"@);
        } else if k == 17 {
            assert(w == "confirm_deletion"@);
        } else if k == 18 {
            assert(w == "create_user"@);
        } else if k == 19 {
            assert(w == "delete_user"@);
        } else if k == 20 {
            assert(w == "list_users"@);
        } else if k == 21 {
            assert(w == "usb_authorize"@);
        } else if k == 22 {
            assert(w == "usb_unauthorize"@);
        } else if k == 23 {
            assert(w == "usb_status"@);
        }
    } else {
        if !(cmd is Unknown) {
            if w == "help"@ {
                assert(names[0] == w);
            }
            if w == "exit"@ {
                assert(names[1] == w);
            }
            if w == "logout"@ {
                assert(names[2] == w);
            }
            if w == "pwd"@ {
                assert(names[3] == w);
            }
            if w == "cd"@ {
                assert(names[4] == w);
            }
            if w == "ls"@ {
                assert(names[5] == w);
            }
            if w == "cat"@ {
                assert(names[6] == w);
            }
            if w == "mkdir"@ {
                assert(names[7] == w);
            }
            if w == "touch"@ {
                assert(names[8] == w);
            }
            if w == "echo"@ {
                assert(names[9] == w);
            }
            if w == "clear"@ {
                assert(names[10] == w);
            }
            if w == "whoami"@ {
                assert(names[11] == w);
            }
            if w == "hostname"@ {
                assert(names[12] == w);
            }
            if w == "date"@ {
                assert(names[13] == w);
            }
            if w == "reboot"@ {
                assert(names[14] == w);
            }
            if w == "shutdown"@ {
                assert(names[15] == w);
            }
            if w == "history"@ {
                assert(names[16] == w);
            }
            if w == "confirm_deletion"@ {
                assert(names[17] == w);
            }
            if w == "create_user"@ {
                assert(names[18] == w);
            }
            if w == "delete_user"@ {
                assert(names[19] == w);
            }
            if w == "list_users"@ {
                assert(names[20] == w);
            }
            if w == "usb_authorize"@ {
                assert(names[21] == w);
            }
            if w == "usb_unauthorize"@ {
                assert(names[22] == w);
            }
            if w == "usb_status"@ {
                assert(names[23] == w);
            }
        }
    }
}

} // verus!
