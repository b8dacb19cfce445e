//! Start-at-login entries: the XDG autostart desktop entry and the macOS
//! LaunchAgent property list that launch the application with
//! `--autostart`, and reading back which executable an existing desktop
//! entry starts. Creating and removing the files is done by the application.

use vstd::prelude::*;
use crate::filesystem::{contains_chars, contains_text};
use crate::text::{chars_of, is_whitespace, is_ws, push_char, skip_ws, string_of, trim_start_spec};

verus! {

/// The argument the application is started with at login.
pub const AUTOSTART_ARG: &'static str = "--autostart";

/// `s` with every `"` preceded by a backslash.
pub open spec fn escape_quotes(s: Seq<char>) -> Seq<char>
    decreases s.len(),
{
    if s.len() == 0 {
        seq![]
    } else {
        let last = s.last();
        escape_quotes(s.drop_last()) + if last == '"' {
            seq!['\\', '"']
        } else {
            seq![last]
        }
    }
}

/// The path as written in an `Exec=` line: in double quotes, with inner
/// double quotes escaped.
pub open spec fn quote_exec_spec(path: Seq<char>) -> Seq<char> {
    seq!['"'] + escape_quotes(path) + seq!['"']
}

/// Quotes a path for an `Exec=` line.
pub fn quote_exec(path: &str) -> (s: String)
    ensures
        s@ == quote_exec_spec(path@),
{
    let cs = chars_of(path);
    let mut s = String::new();
    push_char(&mut s, '"');
    let mut i: usize = 0;
    while i < cs.len()
        invariant
            0 <= i <= cs@.len(),
            cs@ == path@,
            s@ == seq!['"'] + escape_quotes(cs@.take(i as int)),
        decreases cs@.len() - i,
    {
        let c = cs[i];
        if c == '"' {
            push_char(&mut s, '\\');
        }
        push_char(&mut s, c);
        assert(cs@.take(i + 1).drop_last() == cs@.take(i as int));
        i = i + 1;
    }
    push_char(&mut s, '"');
    assert(cs@.take(cs@.len() as int) == cs@);
    s
}

/// The characters of a quoted `Exec=` value after the opening quote, up to
/// the closing quote: a backslash takes the next character literally.
pub open spec fn unquote(s: Seq<char>) -> Seq<char>
    decreases s.len(),
{
    if s.len() == 0 {
        seq![]
    } else if s[0] == '\\' {
        if s.len() >= 2 {
            seq![s[1]] + unquote(s.skip(2))
        } else {
            seq![]
        }
    } else if s[0] == '"' {
        seq![]
    } else {
        seq![s[0]] + unquote(s.drop_first())
    }
}

/// The leading run of non-whitespace characters.
pub open spec fn first_token(s: Seq<char>) -> Seq<char>
    decreases s.len(),
{
    if s.len() == 0 || is_ws(s[0]) {
        seq![]
    } else {
        seq![s[0]] + first_token(s.drop_first())
    }
}

/// Whether `s` begins with `"Exec="`.
pub open spec fn starts_with_exec(s: Seq<char>) -> bool {
    s.len() >= 5 && s[0] == 'E' && s[1] == 'x' && s[2] == 'e' && s[3] == 'c' && s[4] == '='
}

/// The executable named by an `Exec=` line: the first token of the value,
/// where a token starting with a double quote runs to the closing quote
/// with backslash escapes undone. `None` for other lines and empty values.
pub open spec fn exec_binary_spec(line: Seq<char>) -> Option<Seq<char>> {
    if !starts_with_exec(line) {
        None
    } else {
        let v = trim_start_spec(line.skip(5));
        let b = if v.len() > 0 && v[0] == '"' {
            unquote(v.drop_first())
        } else {
            first_token(v)
        };
        if b.len() == 0 {
            None
        } else {
            Some(b)
        }
    }
}

fn unquote_from(cs: &[char], i: usize, out: &mut String)
    requires
        i <= cs@.len(),
    ensures
        final(out)@ == old(out)@ + unquote(cs@.skip(i as int)),
    decreases cs@.len() - i,
{
    let ghost rest = cs@.skip(i as int);
    if i == cs.len() {
        return;
    }
    let c = cs[i];
    if c == '\\' {
        if i + 1 < cs.len() {
            push_char(out, cs[i + 1]);
            assert(rest.skip(2) == cs@.skip(i + 2));
            unquote_from(cs, i + 2, out);
        }
    } else if c == '"' {
    } else {
        push_char(out, c);
        assert(rest.drop_first() == cs@.skip(i + 1));
        unquote_from(cs, i + 1, out);
    }
}

fn token_end(cs: &[char], i: usize) -> (j: usize)
    requires
        i <= cs@.len(),
    ensures
        i <= j <= cs@.len(),
        first_token(cs@.skip(i as int)) == cs@.subrange(i as int, j as int),
    decreases cs@.len() - i,
{
    if i == cs.len() || is_whitespace(cs[i]) {
        i
    } else {
        let j = token_end(cs, i + 1);
        assert(cs@.skip(i as int).drop_first() == cs@.skip(i + 1));
        assert(cs@.subrange(i as int, j as int) == seq![cs@[i as int]] + cs@.subrange(
            i + 1,
            j as int,
        ));
        j
    }
}

fn exec_binary_chars(cs: &[char]) -> (r: Option<String>)
    ensures
        match r {
            Some(s) => exec_binary_spec(cs@) == Some(s@),
            None => exec_binary_spec(cs@) is None,
        },
{
    if !(cs.len() >= 5 && cs[0] == 'E' && cs[1] == 'x' && cs[2] == 'e' && cs[3] == 'c' && cs[4]
        == '=') {
        return None;
    }
    let i = skip_ws(cs, 5);
    let ghost v = cs@.skip(i as int);
    let mut binary = String::new();
    if i < cs.len() && cs[i] == '"' {
        assert(v.drop_first() == cs@.skip(i + 1));
        unquote_from(cs, i + 1, &mut binary);
    } else {
        let j = token_end(cs, i);
        binary = string_of(&cs[i..j]);
    }
    if binary.as_str().is_empty() {
        None
    } else {
        Some(binary)
    }
}

/// The executable named by an `Exec=` line of a desktop entry.
pub fn exec_binary(exec_line: &str) -> (r: Option<String>)
    ensures
        match r {
            Some(s) => exec_binary_spec(exec_line@) == Some(s@),
            None => exec_binary_spec(exec_line@) is None,
        },
{
    let cs = chars_of(exec_line);
    exec_binary_chars(cs.as_slice())
}

/// The desktop-entry text before the quoted executable.
pub open spec fn desktop_entry_head() -> Seq<char> {
    "[Desktop Entry]\nType=Application\nVersion=1.0\nName=Connected\nComment=High-speed, offline, cross-platform ecosystem bridging devices\nExec="@
}

/// The desktop-entry text after the start argument.
pub open spec fn desktop_entry_tail() -> Seq<char> {
    "\nIcon=connected-desktop\nTerminal=false\nCategories=Utility;Network;FileTransfer;\nX-GNOME-Autostart-enabled=true\n"@
}

/// The XDG autostart entry that starts `exe` with the start argument.
pub open spec fn desktop_entry_spec(exe: Seq<char>) -> Seq<char> {
    desktop_entry_head() + quote_exec_spec(exe) + " "@ + AUTOSTART_ARG@ + desktop_entry_tail()
}

/// The XDG autostart desktop entry for the executable at `exe`.
pub fn desktop_entry(exe: &str) -> (s: String)
    ensures
        s@ == desktop_entry_spec(exe@),
{
    let mut s = String::from_str(
        "[Desktop Entry]\nType=Application\nVersion=1.0\nName=Connected\nComment=High-speed, offline, cross-platform ecosystem bridging devices\nExec=",
    );
    let q = quote_exec(exe);
    s.append(q.as_str());
    s.append(" ");
    s.append(AUTOSTART_ARG);
    s.append(
        "\nIcon=connected-desktop\nTerminal=false\nCategories=Utility;Network;FileTransfer;\nX-GNOME-Autostart-enabled=true\n",
    );
    s
}

/// `s` with the XML special characters `& < > " '` written as entities.
pub open spec fn xml_escape_spec(s: Seq<char>) -> Seq<char>
    decreases s.len(),
{
    if s.len() == 0 {
        seq![]
    } else {
        let c = s.last();
        xml_escape_spec(s.drop_last()) + if c == '&' {
            "&amp;"@
        } else if c == '<' {
            "&lt;"@
        } else if c == '>' {
            "&gt;"@
        } else if c == '"' {
            "&quot;"@
        } else if c == '\'' {
            "&apos;"@
        } else {
            seq![c]
        }
    }
}

/// Escapes text for inclusion in XML.
pub fn xml_escape(input: &str) -> (s: String)
    ensures
        s@ == xml_escape_spec(input@),
{
    let cs = chars_of(input);
    let mut s = String::new();
    let mut i: usize = 0;
    while i < cs.len()
        invariant
            0 <= i <= cs@.len(),
            cs@ == input@,
            s@ == xml_escape_spec(cs@.take(i as int)),
        decreases cs@.len() - i,
    {
        let c = cs[i];
        if c == '&' {
            s.append("&amp;");
        } else if c == '<' {
            s.append("&lt;");
        } else if c == '>' {
            s.append("&gt;");
        } else if c == '"' {
            s.append("&quot;");
        } else if c == '\'' {
            s.append("&apos;");
        } else {
            push_char(&mut s, c);
        }
        assert(cs@.take(i + 1).drop_last() == cs@.take(i as int));
        i = i + 1;
    }
    assert(cs@.take(cs@.len() as int) == cs@);
    s
}

/// The property-list text before the escaped executable.
pub open spec fn plist_head() -> Seq<char> {
    "<?xml version=\"1.0\" encoding=\"UTF-8\"?>\n<!DOCTYPE plist PUBLIC \"-//Apple//DTD PLIST 1.0//EN\" \"http://www.apple.com/DTDs/PropertyList-1.0.dtd\">\n<plist version=\"1.0\">\n<dict>\n    <key>Label</key>\n    <string>io.connected.desktop</string>\n    <key>ProgramArguments</key>\n    <array>\n        <string>"@
}

/// The property-list text between the executable and the start argument.
pub open spec fn plist_middle() -> Seq<char> {
    "</string>\n        <string>"@
}

/// The property-list text after the start argument.
pub open spec fn plist_tail() -> Seq<char> {
    "</string>\n    </array>\n    <key>RunAtLoad</key>\n    <true/>\n</dict>\n</plist>\n"@
}

/// The LaunchAgent that starts `exe` with the start argument at login.
pub open spec fn launch_agent_plist_spec(exe: Seq<char>) -> Seq<char> {
    plist_head() + xml_escape_spec(exe) + plist_middle() + AUTOSTART_ARG@ + plist_tail()
}

/// The macOS LaunchAgent property list for the executable at `exe`.
pub fn launch_agent_plist(exe: &str) -> (s: String)
    ensures
        s@ == launch_agent_plist_spec(exe@),
{
    let mut s = String::from_str(
        "<?xml version=\"1.0\" encoding=\"UTF-8\"?>\n<!DOCTYPE plist PUBLIC \"-//Apple//DTD PLIST 1.0//EN\" \"http://www.apple.com/DTDs/PropertyList-1.0.dtd\">\n<plist version=\"1.0\">\n<dict>\n    <key>Label</key>\n    <string>io.connected.desktop</string>\n    <key>ProgramArguments</key>\n    <array>\n        <string>",
    );
    let executable = xml_escape(exe);
    s.append(executable.as_str());
    s.append("</string>\n        <string>");
    s.append(AUTOSTART_ARG);
    s.append("</string>\n    </array>\n    <key>RunAtLoad</key>\n    <true/>\n</dict>\n</plist>\n");
    s
}

/// Whether an executable path is a transient build or mount location
/// (a cargo target directory or an AppImage mount), which an autostart
/// entry should not point at when a stable install is on `PATH`.
pub open spec fn is_transient_executable_spec(path: Seq<char>) -> bool {
    ||| contains_text(path, "/target/debug/"@)
    ||| contains_text(path, "/target/release/"@)
    ||| contains_text(path, "/tmp/.mount"@)
}

/// Whether an executable path is a transient build or mount location.
pub fn is_transient_executable(path: &str) -> (b: bool)
    ensures
        b == is_transient_executable_spec(path@),
{
    let p = chars_of(path);
    let debug = chars_of("/target/debug/");
    let release = chars_of("/target/release/");
    let mount = chars_of("/tmp/.mount");
    contains_chars(p.as_slice(), debug.as_slice()) || contains_chars(p.as_slice(), release.as_slice())
        || contains_chars(p.as_slice(), mount.as_slice())
}

/// The value of the Windows `Run` registry entry that starts `exe` at
/// login: the quoted path and the start argument.
pub open spec fn windows_run_value_spec(exe: Seq<char>) -> Seq<char> {
    "\""@ + exe + "\" "@ + AUTOSTART_ARG@
}

/// The value of the Windows `Run` registry entry for the executable.
pub fn windows_run_value(exe: &str) -> (s: String)
    ensures
        s@ == windows_run_value_spec(exe@),
{
    let mut s = String::from_str("\"");
    s.append(exe);
    s.append("\" ");
    s.append(AUTOSTART_ARG);
    s
}

/// The index of the first line feed at or after `i`, or the length.
pub open spec fn line_end(s: Seq<char>, i: int) -> int
    decreases s.len() - i,
{
    if i >= s.len() || s[i] == '\n' {
        i
    } else {
        line_end(s, i + 1)
    }
}

/// A line without its carriage return, as `str::lines` yields it.
pub open spec fn strip_cr(l: Seq<char>) -> Seq<char> {
    if l.len() > 0 && l.last() == '\r' {
        l.drop_last()
    } else {
        l
    }
}

/// The first line at or after position `i` that begins with `"Exec="`.
pub open spec fn first_exec_line(s: Seq<char>, i: int) -> Option<Seq<char>>
    decreases s.len() - i,
{
    if i < 0 || i >= s.len() {
        None
    } else {
        let e = line_end(s, i);
        let line = strip_cr(s.subrange(i, e));
        if starts_with_exec(line) {
            Some(line)
        } else if e < s.len() && e >= i {
            first_exec_line(s, e + 1)
        } else {
            None
        }
    }
}

/// What an autostart entry points at.
#[derive(Debug, Clone)]
pub enum ExecTarget {
    /// An absolute path, which must name an existing file.
    Absolute(String),
    /// A bare command, which must be found on `PATH`.
    Bare(String),
}

/// The executable of an autostart entry's text: the binary of its first
/// `Exec=` line, absolute when it begins with `/`. `None` when there is no
/// such line or it names no binary.
pub open spec fn exec_target_spec(content: Seq<char>) -> Option<(bool, Seq<char>)> {
    match first_exec_line(content, 0) {
        None => None,
        Some(line) => match exec_binary_spec(line) {
            None => None,
            Some(b) => Some((b[0] == '/', b)),
        },
    }
}

proof fn lemma_line_end_bounds(s: Seq<char>, i: int)
    requires
        0 <= i <= s.len(),
    ensures
        i <= line_end(s, i) <= s.len(),
        forall|k: int| i <= k < line_end(s, i) ==> s[k] != '\n',
        line_end(s, i) < s.len() ==> s[line_end(s, i)] == '\n',
    decreases s.len() - i,
{
    if i < s.len() && s[i] != '\n' {
        lemma_line_end_bounds(s, i + 1);
    }
}

/// Finds the executable that an autostart entry's text starts.
pub fn autostart_exec_target(content: &str) -> (r: Option<ExecTarget>)
    ensures
        match r {
            None => exec_target_spec(content@) is None,
            Some(ExecTarget::Absolute(b)) => exec_target_spec(content@) == Some((true, b@)),
            Some(ExecTarget::Bare(b)) => exec_target_spec(content@) == Some((false, b@)),
        },
{
    let cs = chars_of(content);
    let n = cs.len();
    let mut i: usize = 0;
    while i < n
        invariant
            0 <= i <= n,
            n == cs@.len(),
            cs@ == content@,
            first_exec_line(cs@, 0) == first_exec_line(cs@, i as int),
        decreases n - i,
    {
        let mut e = i;
        while e < n && cs[e] != '\n'
            invariant
                i <= e <= n,
                n == cs@.len(),
                line_end(cs@, i as int) == line_end(cs@, e as int),
            decreases n - e,
        {
            e = e + 1;
        }
        let mut le = e;
        if le > i && cs[le - 1] == '\r' {
            le = le - 1;
        }
        let ghost line = strip_cr(cs@.subrange(i as int, e as int));
        assert(cs@.subrange(i as int, le as int) == line);
        let line_chars = &cs[i..le];
        if line_chars.len() >= 5 && line_chars[0] == 'E' && line_chars[1] == 'x' && line_chars[2]
            == 'e' && line_chars[3] == 'c' && line_chars[4] == '=' {
            assert(starts_with_exec(line));
            let b = exec_binary_chars(line_chars);
            return match b {
                None => None,
                Some(b) => {
                    let bc = chars_of(b.as_str());
                    if bc[0] == '/' {
                        Some(ExecTarget::Absolute(b))
                    } else {
                        Some(ExecTarget::Bare(b))
                    }
                },
            };
        }
        assert(!starts_with_exec(line));
        if e == n {
            return None;
        }
        i = e + 1;
    }
    None
}

/// A path written into an `Exec=` line reads back as itself, provided it is
/// not empty and holds no backslash.
pub proof fn lemma_exec_round_trip(path: Seq<char>, rest: Seq<char>)
    requires
        path.len() > 0,
        forall|i: int| 0 <= i < path.len() ==> #[trigger] path[i] != '\\',
    ensures
        exec_binary_spec("Exec="@ + quote_exec_spec(path) + rest) == Some(path),
{
    reveal_strlit("Exec=");
    let line = "Exec="@ + quote_exec_spec(path) + rest;
    assert(line.skip(5) == quote_exec_spec(path) + rest);
    assert(trim_start_spec(line.skip(5)) == line.skip(5));
    assert((quote_exec_spec(path) + rest).drop_first() == escape_quotes(path) + (seq!['"'] + rest));
    lemma_unquote_escape(path, seq!['"'] + rest);
}

proof fn lemma_line_end_is(s: Seq<char>, i: int, j: int)
    requires
        0 <= i <= j < s.len(),
        s[j] == '\n',
        forall|k: int| i <= k < j ==> s[k] != '\n',
    ensures
        line_end(s, i) == j,
    decreases j - i,
{
    if i < j {
        lemma_line_end_is(s, i + 1, j);
    }
}

proof fn lemma_skip_other_line(s: Seq<char>, i: int, j: int)
    requires
        0 <= i < j < s.len(),
        s[j] == '\n',
        forall|k: int| i <= k < j ==> s[k] != '\n',
        s[i] != 'E',
    ensures
        first_exec_line(s, i) == first_exec_line(s, j + 1),
{
    lemma_line_end_is(s, i, j);
    let line = strip_cr(s.subrange(i, j));
    if line.len() > 0 {
        assert(line[0] == s[i]);
    }
    assert(!starts_with_exec(line));
}

proof fn lemma_escape_plain(p: Seq<char>)
    requires
        forall|i: int| 0 <= i < p.len() ==> #[trigger] p[i] != '\n' && p[i] != '\r',
    ensures
        forall|k: int| 0 <= k < escape_quotes(p).len() ==> #[trigger] escape_quotes(p)[k] != '\n'
            && escape_quotes(p)[k] != '\r',
    decreases p.len(),
{
    if p.len() > 0 {
        let q = p.drop_last();
        assert forall|i: int| 0 <= i < q.len() implies #[trigger] q[i] != '\n' && q[i] != '\r' by {
            assert(q[i] == p[i]);
        }
        lemma_escape_plain(q);
        let last = p.last();
        assert(last != '\n' && last != '\r');
        let tail = if last == '"' {
            seq!['\\', '"']
        } else {
            seq![last]
        };
        let eq = escape_quotes(q);
        assert(escape_quotes(p) == eq + tail);
        assert forall|k: int| 0 <= k < escape_quotes(p).len() implies #[trigger] escape_quotes(p)[k] != '\n'
            && escape_quotes(p)[k] != '\r' by {
            if k < eq.len() {
                assert(escape_quotes(p)[k] == eq[k]);
            } else {
                assert(escape_quotes(p)[k] == tail[k - eq.len()]);
            }
        }
    }
}

/// The autostart entry written for an executable names it: its first
/// `Exec=` line is the one written for the path, and that line reads back
/// as the path, provided the path is not empty and holds no backslash and
/// no line break.
pub proof fn lemma_desktop_entry_names_exe(path: Seq<char>)
    requires
        path.len() > 0,
        forall|i: int| 0 <= i < path.len() ==> #[trigger] path[i] != '\\' && path[i] != '\n' && path[i] != '\r',
    ensures
        first_exec_line(desktop_entry_spec(path), 0) == Some("Exec="@ + quote_exec_spec(path) + " "@ + AUTOSTART_ARG@),
        exec_target_spec(desktop_entry_spec(path)) == Some((path[0] == '/', path)),
{
    reveal_strlit("[Desktop Entry]\nType=Application\nVersion=1.0\nName=Connected\nComment=High-speed, offline, cross-platform ecosystem bridging devices\nExec=");
    reveal_strlit("\nIcon=connected-desktop\nTerminal=false\nCategories=Utility;Network;FileTransfer;\nX-GNOME-Autostart-enabled=true\n");
    reveal_strlit(" ");
    reveal_strlit("--autostart");
    reveal_strlit("Exec=");
    let h = desktop_entry_head();
    let q = quote_exec_spec(path);
    let a = " "@ + AUTOSTART_ARG@;
    let t = desktop_entry_tail();
    let s = desktop_entry_spec(path);
    assert(s == h + q + a + t);
    assert(h.len() == 136);
    assert(a.len() == 12);
    lemma_escape_plain(path);
    let ql = q.len() as int;
    assert forall|k: int| 0 <= k < ql implies #[trigger] q[k] != '\n' && q[k] != '\r' by {
        if k > 0 && k < ql - 1 {
            assert(q[k] == escape_quotes(path)[k - 1]);
        }
    }
    assert forall|k: int| 0 <= k < 136 implies #[trigger] s[k] == h[k] by {}
    assert forall|k: int| 136 <= k < 136 + ql implies #[trigger] s[k] == q[k - 136] by {}
    assert forall|k: int| 136 + ql <= k < 148 + ql implies #[trigger] s[k] == a[k - 136 - ql] by {}
    assert(s[148 + ql] == t[0]);
    assert(t[0] == '\n');
    assert(s[15] == '\n' && s[32] == '\n' && s[44] == '\n' && s[59] == '\n' && s[130] == '\n');
    assert forall|k: int| 0 <= k < 15 implies s[k] != '\n' by { assert(s[k] == h[k]); }
    assert forall|k: int| 16 <= k < 32 implies s[k] != '\n' by { assert(s[k] == h[k]); }
    assert forall|k: int| 33 <= k < 44 implies s[k] != '\n' by { assert(s[k] == h[k]); }
    assert forall|k: int| 45 <= k < 59 implies s[k] != '\n' by { assert(s[k] == h[k]); }
    assert forall|k: int| 60 <= k < 130 implies s[k] != '\n' by { assert(s[k] == h[k]); }
    lemma_skip_other_line(s, 0, 15);
    lemma_skip_other_line(s, 16, 32);
    lemma_skip_other_line(s, 33, 44);
    lemma_skip_other_line(s, 45, 59);
    lemma_skip_other_line(s, 60, 130);
    let e = 148 + ql;
    assert forall|k: int| 131 <= k < e implies s[k] != '\n' by {
        if k < 136 {
            assert(s[k] == h[k]);
        } else if k < 136 + ql {
            assert(s[k] == q[k - 136]);
        } else {
            assert(s[k] == a[k - 136 - ql]);
        }
    }
    lemma_line_end_is(s, 131, e);
    let line = s.subrange(131, e);
    assert(line =~= "Exec="@ + q + a);
    assert(line.last() == 't');
    assert(strip_cr(line) == line);
    assert(starts_with_exec(line));
    lemma_exec_round_trip(path, a);
    assert("Exec="@ + q + a == "Exec="@ + quote_exec_spec(path) + a);
}

proof fn lemma_unquote_escape(p: Seq<char>, rest: Seq<char>)
    requires
        forall|i: int| 0 <= i < p.len() ==> #[trigger] p[i] != '\\',
        rest.len() > 0 && rest[0] == '"',
    ensures
        unquote(escape_quotes(p) + rest) == p,
    decreases p.len(),
{
    if p.len() == 0 {
        assert(escape_quotes(p) + rest == rest);
    } else {
        let c = p[0];
        let tail = p.drop_first();
        lemma_escape_first(p);
        assert forall|i: int| 0 <= i < tail.len() implies #[trigger] tail[i] != '\\' by {
            assert(tail[i] == p[i + 1]);
        }
        lemma_unquote_escape(tail, rest);
        let e = escape_quotes(p) + rest;
        if c == '"' {
            assert(e == seq!['\\', '"'] + (escape_quotes(tail) + rest));
            assert(e.skip(2) == escape_quotes(tail) + rest);
            assert(unquote(e) == seq!['"'] + unquote(e.skip(2)));
        } else {
            assert(p[0] != '\\');
            assert(e == seq![c] + (escape_quotes(tail) + rest));
            assert(e.drop_first() == escape_quotes(tail) + rest);
        }
        assert(p == seq![c] + tail);
    }
}

proof fn lemma_escape_first(p: Seq<char>)
    requires
        p.len() > 0,
    ensures
        escape_quotes(p) == (if p[0] == '"' {
            seq!['\\', '"']
        } else {
            seq![p[0]]
        }) + escape_quotes(p.drop_first()),
    decreases p.len(),
{
    if p.len() == 1 {
        assert(p.drop_last().len() == 0);
        assert(p.drop_first().len() == 0);
        assert(escape_quotes(p.drop_first()) == Seq::<char>::empty());
        assert(escape_quotes(p.drop_last()) == Seq::<char>::empty());
    } else {
        lemma_escape_first(p.drop_last());
        assert(p.drop_last()[0] == p[0]);
        assert(p.drop_last().drop_first() == p.drop_first().drop_last());
        assert(p.drop_first().last() == p.last());
    }
}

} // verus!
