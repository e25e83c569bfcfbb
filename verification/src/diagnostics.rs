//! Pure parts of the desktop shell's diagnostic log: file naming, text bounding and timestamps.
use crate::text::{
    is_whitespace_spec, str_equal, trim_bounds, trim_end_spec, trim_spec, trim_start_spec,
};
use vstd::prelude::*;
use vstd::string::{StrSliceExecFns, StringExecFns};

verus! {

/// Longest event text, in characters, written to the shell log before truncation.
pub const MAX_LOG_TEXT_CHARS: usize = 600;

/// Paths of the shell's log directory and log file, as shown to the startup screen.
pub struct ShellLogInfo {
    pub log_dir: String,
    pub log_file: String,
}

pub open spec fn log_file_name_spec() -> Seq<char> {
    seq!['s', 'h', 'e', 'l', 'l', '.', 'l', 'o', 'g']
}

/// How the platform writes paths, which decides how a file name is joined to a directory.
#[derive(Clone, Copy, PartialEq, Eq, Structural, Debug)]
pub enum PathStyle {
    /// `/` separates and joins.
    Unix,
    /// `\` and `/` both separate; `\` joins.
    Windows,
}

pub open spec fn is_separator(style: PathStyle, c: char) -> bool {
    c == '/' || (style == PathStyle::Windows && c == '\\')
}

pub open spec fn main_separator(style: PathStyle) -> char {
    match style {
        PathStyle::Unix => '/',
        PathStyle::Windows => '\\',
    }
}

/// A bare Windows drive such as `C:`, to which a relative name is joined without a separator.
pub open spec fn is_bare_drive(dir: Seq<char>) -> bool {
    dir.len() == 2 && dir[1] == ':' && (('a' <= dir[0] && dir[0] <= 'z') || ('A' <= dir[0]
        && dir[0] <= 'Z'))
}

/// A Windows verbatim path: it begins with `\\?\`.
pub open spec fn is_verbatim(dir: Seq<char>) -> bool {
    dir.len() >= 4 && dir[0] == '\\' && dir[1] == '\\' && dir[2] == '?' && dir[3] == '\\'
}

pub open spec fn is_ascii_letter(c: char) -> bool {
    ('a' <= c && c <= 'z') || ('A' <= c && c <= 'Z')
}

/// The position of the first `\` in `s` at or after `from`, or the length of `s`.
pub open spec fn first_backslash_from(s: Seq<char>, from: int) -> int
    decreases s.len() - from,
{
    if from >= s.len() {
        s.len() as int
    } else if s[from] == '\\' {
        from
    } else {
        first_backslash_from(s, from + 1)
    }
}

/// How many characters of the verbatim path `dir` its prefix takes, as Windows reads it:
/// `\\?\UNC\` with a server and, when it is not empty, `\` and a share; `\\?\` with a drive
/// letter and a colon that the end or a separator follows; else `\\?\` and the text up to the
/// next `\`.
pub open spec fn verbatim_prefix_len(dir: Seq<char>) -> int {
    let n = dir.len() as int;
    if n >= 8 && dir[4] == 'U' && dir[5] == 'N' && dir[6] == 'C' && (dir[7] == '\\' || dir[7]
        == '/') {
        let server_end = first_backslash_from(dir, 8);
        if server_end < n {
            let share_end = first_backslash_from(dir, server_end + 1);
            if share_end > server_end + 1 {
                share_end
            } else {
                server_end
            }
        } else {
            n
        }
    } else if n >= 6 && is_ascii_letter(dir[4]) && dir[5] == ':' && (n == 6 || dir[6] == '\\'
        || dir[6] == '/') {
        6
    } else {
        first_backslash_from(dir, 4)
    }
}

/// The components of a verbatim path's body written back: the pieces between backslashes,
/// empty ones dropped, each followed by `\`. `in_piece` says whether a piece is under way.
pub open spec fn verbatim_pieces(s: Seq<char>, in_piece: bool) -> Seq<char>
    decreases s.len(),
{
    if s.len() == 0 {
        if in_piece {
            seq!['\\']
        } else {
            Seq::empty()
        }
    } else if s[0] == '\\' {
        (if in_piece {
            seq!['\\']
        } else {
            Seq::empty()
        }) + verbatim_pieces(s.drop_first(), false)
    } else {
        seq![s[0]] + verbatim_pieces(s.drop_first(), true)
    }
}

/// A verbatim directory joined with a relative file name: the path is rebuilt from its
/// components, the prefix kept as written, a root (`\` or `/` right after the prefix) written
/// as `\`, and every other component followed by `\`, before the name.
pub open spec fn verbatim_join(dir: Seq<char>, name: Seq<char>) -> Seq<char> {
    let k = verbatim_prefix_len(dir);
    let rest = dir.skip(k);
    let body = if rest.len() > 0 && rest[0] == '/' {
        rest.drop_first()
    } else {
        rest
    };
    dir.take(k) + seq!['\\'] + verbatim_pieces(body, false) + name
}

/// `dir` joined with a relative file name as `Path::join` does in `style`. A Windows verbatim
/// directory is rebuilt from its components (`verbatim_join`); otherwise a separator is put
/// between them when `dir` is not empty, does not already end with a separator, and (on
/// Windows) is not a bare drive.
pub open spec fn join_path_spec(style: PathStyle, dir: Seq<char>, name: Seq<char>) -> Seq<char> {
    if style == PathStyle::Windows && is_verbatim(dir) {
        verbatim_join(dir, name)
    } else if dir.len() > 0 && !is_separator(style, dir.last()) && !(style == PathStyle::Windows
        && is_bare_drive(dir)) {
        dir + seq![main_separator(style)] + name
    } else {
        dir + name
    }
}

fn first_backslash(s: &str, n: usize, from: usize) -> (r: usize)
    requires
        n == s@.len(),
        from <= n,
    ensures
        r == first_backslash_from(s@, from as int),
        from <= r <= n,
{
    let mut i = from;
    while i < n && s.get_char(i) != '\\'
        invariant
            n == s@.len(),
            from <= i <= n,
            first_backslash_from(s@, from as int) == first_backslash_from(s@, i as int),
        decreases n - i,
    {
        i = i + 1;
    }
    i
}

fn verbatim_prefix_length(dir: &str, n: usize) -> (r: usize)
    requires
        n == dir@.len(),
        is_verbatim(dir@),
    ensures
        r == verbatim_prefix_len(dir@),
        4 <= r <= n,
{
    let unc = n >= 8 && dir.get_char(4) == 'U' && dir.get_char(5) == 'N' && dir.get_char(6) == 'C'
        && (dir.get_char(7) == '\\' || dir.get_char(7) == '/');
    if unc {
        let server_end = first_backslash(dir, n, 8);
        if server_end < n {
            let share_end = first_backslash(dir, n, server_end + 1);
            if share_end > server_end + 1 {
                share_end
            } else {
                server_end
            }
        } else {
            n
        }
    } else {
        let drive = n >= 6 && (('a' <= dir.get_char(4) && dir.get_char(4) <= 'z') || ('A'
            <= dir.get_char(4) && dir.get_char(4) <= 'Z')) && dir.get_char(5) == ':' && (n == 6
            || dir.get_char(6) == '\\' || dir.get_char(6) == '/');
        if drive {
            6
        } else {
            first_backslash(dir, n, 4)
        }
    }
}

/// Appends `verbatim_join(dir, name)` for a verbatim `dir` to the empty `path`.
fn append_verbatim_join(path: &mut String, dir: &str, n: usize, name: &str)
    requires
        n == dir@.len(),
        is_verbatim(dir@),
        old(path)@.len() == 0,
    ensures
        final(path)@ == verbatim_join(dir@, name@),
{
    proof {
        reveal_strlit("\\");
        assert("\\"@ =~= seq!['\\']);
    }
    let k = verbatim_prefix_length(dir, n);
    path.append(dir.substring_char(0, k));
    path.append("\\");
    let ghost rest = dir@.skip(k as int);
    let mut i = k;
    if i < n && dir.get_char(i) == '/' {
        i = i + 1;
    }
    let ghost body = dir@.skip(i as int);
    assert(body =~= if rest.len() > 0 && rest[0] == '/' {
        rest.drop_first()
    } else {
        rest
    });
    let ghost head = path@;
    let mut in_piece = false;
    while i < n
        invariant
            n == dir@.len(),
            i <= n,
            path@ + verbatim_pieces(dir@.skip(i as int), in_piece) == head + verbatim_pieces(
                body,
                false,
            ),
        decreases n - i,
    {
        let c = dir.get_char(i);
        let ghost s = dir@.skip(i as int);
        let ghost before = path@;
        let ghost was_in_piece = in_piece;
        proof {
            reveal_strlit("\\");
            assert("\\"@ =~= seq!['\\']);
        }
        assert(s.drop_first() =~= dir@.skip(i + 1));
        assert(s[0] == c);
        if c == '\\' {
            if in_piece {
                path.append("\\");
            }
            in_piece = false;
        } else {
            let piece = dir.substring_char(i, i + 1);
            assert(piece@ =~= seq![c]);
            path.append(piece);
            in_piece = true;
        }
        proof {
            let sep: Seq<char> = if was_in_piece {
                seq!['\\']
            } else {
                Seq::empty()
            };
            if c == '\\' {
                assert(verbatim_pieces(s, was_in_piece) == sep + verbatim_pieces(s.drop_first(), false));
                assert(path@ =~= before + sep);
                assert(path@ + verbatim_pieces(s.drop_first(), in_piece) =~= before + (sep
                    + verbatim_pieces(s.drop_first(), false)));
            } else {
                assert(verbatim_pieces(s, was_in_piece) == seq![c] + verbatim_pieces(s.drop_first(), true));
                assert(path@ =~= before + seq![c]);
                assert(path@ + verbatim_pieces(s.drop_first(), in_piece) =~= before + (seq![c]
                    + verbatim_pieces(s.drop_first(), true)));
            }
        }
        i = i + 1;
    }
    assert(dir@.skip(n as int) =~= Seq::<char>::empty());
    let ghost tail = path@;
    if in_piece {
        path.append("\\");
    }
    assert(path@ =~= head + verbatim_pieces(body, false)) by {
        assert(tail + verbatim_pieces(Seq::<char>::empty(), in_piece) == head + verbatim_pieces(
            body,
            false,
        ));
    }
    path.append(name);
    assert(head =~= dir@.take(k as int) + seq!['\\']);
    assert(path@ =~= dir@.take(k as int) + seq!['\\'] + verbatim_pieces(body, false) + name@);
}

proof fn lemma_first_backslash_bounds(s: Seq<char>, from: int)
    requires
        0 <= from <= s.len(),
    ensures
        from <= first_backslash_from(s, from) <= s.len(),
    decreases s.len() - from,
{
    if from < s.len() && s[from] != '\\' {
        lemma_first_backslash_bounds(s, from + 1);
    }
}

proof fn lemma_pieces_end_with_backslash(s: Seq<char>, in_piece: bool)
    ensures
        verbatim_pieces(s, in_piece).len() == 0 || verbatim_pieces(s, in_piece).last() == '\\',
    decreases s.len(),
{
    if s.len() > 0 {
        lemma_pieces_end_with_backslash(s.drop_first(), s[0] != '\\');
    }
}

/// The log file sits inside the log directory under its stable name: the path ends with
/// `shell.log`, right after a separator unless the directory is empty or a bare Windows drive.
/// Outside Windows verbatim directories the path begins with the directory as written; a
/// verbatim directory keeps its prefix as written.
pub proof fn law_log_file_is_named_inside_the_directory(style: PathStyle, dir: Seq<char>)
    ensures
        ({
            let name = log_file_name_spec();
            let r = join_path_spec(style, dir, name);
            &&& r.len() >= name.len()
            &&& r.skip(r.len() - name.len()) == name
            &&& (dir.len() > 0 && !(style == PathStyle::Windows && is_bare_drive(dir))) ==> is_separator(
                style,
                r[r.len() - name.len() - 1],
            )
            &&& !(style == PathStyle::Windows && is_verbatim(dir)) ==> r.take(dir.len() as int) == dir
            &&& (style == PathStyle::Windows && is_verbatim(dir)) ==> r.take(
                verbatim_prefix_len(dir),
            ) == dir.take(verbatim_prefix_len(dir))
        }),
{
    let name = log_file_name_spec();
    let r = join_path_spec(style, dir, name);
    if style == PathStyle::Windows && is_verbatim(dir) {
        let k = verbatim_prefix_len(dir);
        lemma_first_backslash_bounds(dir, 4);
        if dir.len() >= 8 {
            lemma_first_backslash_bounds(dir, 8);
            let server_end = first_backslash_from(dir, 8);
            if server_end < dir.len() {
                lemma_first_backslash_bounds(dir, server_end + 1);
            }
        }
        assert(4 <= k <= dir.len());
        let rest = dir.skip(k);
        let body = if rest.len() > 0 && rest[0] == '/' {
            rest.drop_first()
        } else {
            rest
        };
        let head = dir.take(k) + seq!['\\'] + verbatim_pieces(body, false);
        lemma_pieces_end_with_backslash(body, false);
        assert(r == head + name);
        assert(head.last() == '\\');
        assert(r.skip(r.len() - name.len()) =~= name);
        assert(r[r.len() - name.len() - 1] == head.last());
        assert(r.take(k) =~= dir.take(k));
    } else if dir.len() > 0 && !is_separator(style, dir.last()) && !(style == PathStyle::Windows
        && is_bare_drive(dir)) {
        assert(r.skip(r.len() - name.len()) =~= name);
        assert(r.take(dir.len() as int) =~= dir);
    } else {
        assert(r.skip(r.len() - name.len()) =~= name);
        assert(r.take(dir.len() as int) =~= dir);
    }
}

/// The log file's stable name inside the log directory, joined in the platform's `style`.
pub fn shell_log_file_path(log_dir: &str, style: PathStyle) -> (r: String)
    ensures
        r@ == join_path_spec(style, log_dir@, log_file_name_spec()),
{
    proof {
        reveal_strlit("shell.log");
        reveal_strlit("/");
        reveal_strlit("\\");
    }
    let n = log_dir.unicode_len();
    if style == PathStyle::Windows && n >= 4 && log_dir.get_char(0) == '\\' && log_dir.get_char(1)
        == '\\' && log_dir.get_char(2) == '?' && log_dir.get_char(3) == '\\' {
        let mut path = String::new();
        append_verbatim_join(&mut path, log_dir, n, "shell.log");
        return path;
    }
    let mut path = String::from_str(log_dir);
    if n > 0 {
        let last = log_dir.get_char(n - 1);
        let windows = style == PathStyle::Windows;
        let separated = last == '/' || (windows && last == '\\');
        let bare_drive = n == 2 && log_dir.get_char(1) == ':' && {
            let d = log_dir.get_char(0);
            ('a' <= d && d <= 'z') || ('A' <= d && d <= 'Z')
        };
        if !separated && !(windows && bare_drive) {
            if windows {
                path.append("\\");
            } else {
                path.append("/");
            }
        }
    }
    path.append("shell.log");
    path
}

/// The names of `fields`, in order.
pub open spec fn field_names<V>(fields: Seq<(String, V)>) -> Seq<Seq<char>> {
    fields.map_values(|f: (String, V)| f.0@)
}

/// The fields as a map from name to value, a later field of a name overriding an earlier one.
pub open spec fn field_map<V>(fields: Seq<(String, V)>) -> Map<Seq<char>, V>
    decreases fields.len(),
{
    if fields.len() == 0 {
        Map::empty()
    } else {
        field_map(fields.drop_last()).insert(fields.last().0@, fields.last().1)
    }
}

/// The fields of a log line: `tsUnixMs` and `event`, then the caller's fields, which override
/// either of the two when they carry the same name.
pub open spec fn log_entry_map<V>(ts: V, event: V, fields: Seq<(String, V)>) -> Map<Seq<char>, V> {
    map!["tsUnixMs"@ => ts, "event"@ => event].union_prefer_right(field_map(fields))
}

proof fn lemma_field_map_domain<V>(fields: Seq<(String, V)>)
    ensures
        forall|k: Seq<char>|
            #[trigger] field_map(fields).dom().contains(k) <==> field_names(fields).contains(k),
    decreases fields.len(),
{
    if fields.len() > 0 {
        lemma_field_map_domain(fields.drop_last());
        let init = fields.drop_last();
        assert(field_names(fields) =~= field_names(init).push(fields.last().0@));
        assert(field_names(init).len() == init.len());
        assert(field_map(fields) == field_map(init).insert(fields.last().0@, fields.last().1));
        assert forall|k: Seq<char>|
            #[trigger] field_map(fields).dom().contains(k) <==> field_names(fields).contains(k) by {
            assert(field_map(init).dom().contains(k) <==> field_names(init).contains(k));
            let last = fields.last().0@;
            assert(field_names(fields)[init.len() as int] == last);
            if field_names(init).contains(k) {
                let j = choose|j: int| 0 <= j < field_names(init).len() && field_names(init)[j] == k;
                assert(field_names(fields)[j] == k);
            }
            if field_names(fields).contains(k) {
                let j = choose|j: int| 0 <= j < field_names(fields).len() && field_names(fields)[j] == k;
                if j < init.len() {
                    assert(field_names(init)[j] == k);
                }
            }
        }
    } else {
        assert(field_names(fields) =~= Seq::<Seq<char>>::empty());
    }
}

proof fn lemma_field_map_append<V>(a: Seq<(String, V)>, b: Seq<(String, V)>)
    ensures
        field_map(a + b) == field_map(a).union_prefer_right(field_map(b)),
    decreases b.len(),
{
    if b.len() == 0 {
        assert(a + b =~= a);
        assert(field_map(a).union_prefer_right(field_map(b)) =~= field_map(a));
    } else {
        lemma_field_map_append(a, b.drop_last());
        assert((a + b).drop_last() =~= a + b.drop_last());
        assert((a + b).last() == b.last());
        assert(field_map(a + b) =~= field_map(a).union_prefer_right(field_map(b)));
    }
}

/// Whether a field of `fields` is called `name`.
fn has_field<V>(fields: &Vec<(String, V)>, name: &str) -> (r: bool)
    ensures
        r == field_names(fields@).contains(name@),
{
    let mut i: usize = 0;
    while i < fields.len()
        invariant
            i <= fields.len(),
            forall|j: int| 0 <= j < i ==> (#[trigger] fields@[j]).0@ != name@,
        decreases fields.len() - i,
    {
        if str_equal(fields[i].0.as_str(), name) {
            assert(field_names(fields@)[i as int] == name@);
            return true;
        }
        i = i + 1;
    }
    proof {
        if field_names(fields@).contains(name@) {
            let j = choose|j: int| 0 <= j < field_names(fields@).len() && field_names(fields@)[j] == name@;
            assert(fields@[j].0@ == name@);
        }
    }
    false
}

/// The fields of a log line for `event`, written at `ts`, with the caller's `fields`: see
/// `log_entry_map`. The names come out distinct when the caller's are.
pub fn log_entry_fields<V>(ts: V, event: V, fields: Vec<(String, V)>) -> (r: Vec<(String, V)>)
    requires
        field_names(fields@).no_duplicates(),
    ensures
        field_map(r@) == log_entry_map(ts, event, fields@),
        field_names(r@).no_duplicates(),
{
    proof {
        reveal_strlit("tsUnixMs");
        reveal_strlit("event");
        lemma_field_map_domain(fields@);
    }
    let has_ts = has_field(&fields, "tsUnixMs");
    let has_event = has_field(&fields, "event");
    let mut out: Vec<(String, V)> = Vec::new();
    if !has_ts {
        out.push((String::from_str("tsUnixMs"), ts));
    }
    if !has_event {
        out.push((String::from_str("event"), event));
    }
    let ghost pre = out@;
    let ghost fv = fields@;
    proof {
        let t = "tsUnixMs"@;
        let e = "event"@;
        assert(t != e) by {
            assert(t.len() != e.len());
        }
        let f = field_map(fields@);
        let base = map![t => ts, e => event];
        assert(f.contains_key(t) == has_ts);
        assert(f.contains_key(e) == has_event);
        let empty = Seq::<(String, V)>::empty();
        assert(field_map(empty) == Map::<Seq<char>, V>::empty());
        if !has_ts && !has_event {
            assert(pre[0].0@ == t && pre[0].1 == ts);
            assert(pre[1].0@ == e && pre[1].1 == event);
            assert(pre.drop_last().drop_last() =~= empty);
            assert(pre.drop_last().last() == pre[0]);
            assert(field_map(pre.drop_last()) == field_map(empty).insert(t, ts));
            assert(field_map(pre) == field_map(pre.drop_last()).insert(e, event));
            assert(field_map(pre) =~= base);
        } else if !has_ts {
            assert(pre[0].0@ == t && pre[0].1 == ts);
            assert(pre.drop_last() =~= empty);
            assert(field_map(pre) == field_map(empty).insert(t, ts));
            assert(field_map(pre).union_prefer_right(f) =~= base.union_prefer_right(f));
        } else if !has_event {
            assert(pre[0].0@ == e && pre[0].1 == event);
            assert(pre.drop_last() =~= empty);
            assert(field_map(pre) == field_map(empty).insert(e, event));
            assert(field_map(pre).union_prefer_right(f) =~= base.union_prefer_right(f));
        } else {
            assert(pre =~= empty);
            assert(field_map(pre) =~= Map::<Seq<char>, V>::empty());
            assert(field_map(pre).union_prefer_right(f) =~= base.union_prefer_right(f));
        }
        assert(field_map(pre).union_prefer_right(f) == base.union_prefer_right(f));
        let names = field_names(pre) + field_names(fields@);
        assert forall|i: int, j: int| 0 <= i < j < names.len() implies names[i] != names[j] by {
            if j < pre.len() {
                assert(i == 0 && j == 1);
            } else if i < pre.len() {
                assert(field_names(fields@).contains(names[j]));
                assert(names[j] == field_names(fields@)[j - pre.len()]);
            } else {
                assert(names[i] == field_names(fields@)[i - pre.len()]);
                assert(names[j] == field_names(fields@)[j - pre.len()]);
            }
        }
    }
    let mut rest = fields;
    out.append(&mut rest);
    proof {
        lemma_field_map_append(pre, fv);
        assert(out@ =~= pre + fv);
        assert(field_names(out@) =~= field_names(pre) + field_names(fv));
    }
    out
}

pub open spec fn ellipsis_spec() -> Seq<char> {
    seq!['.', '.', '.']
}

/// What is logged for `value`: the trimmed text, cut to the first 600 characters and
/// marked with `...` when it is longer than that.
pub open spec fn bounded_log_text_spec(value: Seq<char>) -> Seq<char> {
    let t = trim_spec(value);
    if t.len() <= MAX_LOG_TEXT_CHARS {
        t
    } else {
        t.take(MAX_LOG_TEXT_CHARS as int) + ellipsis_spec()
    }
}

pub fn bounded_log_text(value: &str) -> (r: String)
    ensures
        r@ == bounded_log_text_spec(value@),
        r@.len() <= MAX_LOG_TEXT_CHARS + 3,
{
    let (start, end) = trim_bounds(value);
    let trimmed = value.substring_char(start, end);
    if end - start <= MAX_LOG_TEXT_CHARS {
        return String::from_str(trimmed);
    }
    let head = trimmed.substring_char(0, MAX_LOG_TEXT_CHARS);
    let mut truncated = String::from_str(head);
    truncated.append("...");
    proof {
        reveal_strlit("...");
        assert(trimmed@.subrange(0, MAX_LOG_TEXT_CHARS as int) =~= trimmed@.take(
            MAX_LOG_TEXT_CHARS as int,
        ));
    }
    truncated
}

/// Milliseconds since the Unix epoch, saturated at `u64::MAX`; a clock before the epoch logs 0.
pub open spec fn unix_time_ms_spec(elapsed_ms: Option<u128>) -> u64 {
    match elapsed_ms {
        Some(ms) => if ms <= u64::MAX {
            ms as u64
        } else {
            u64::MAX
        },
        None => 0,
    }
}

/// The log timestamp for a clock reading: `elapsed_ms` is the time since the Unix epoch,
/// or `None` when the clock reads earlier than the epoch.
pub fn unix_time_ms_from_elapsed(elapsed_ms: Option<u128>) -> (r: u64)
    ensures
        r == unix_time_ms_spec(elapsed_ms),
{
    match elapsed_ms {
        Some(ms) => if ms <= u64::MAX as u128 {
            ms as u64
        } else {
            u64::MAX
        },
        None => 0,
    }
}

/// A short text is logged as its trimmed self, and logging it again changes nothing.
pub proof fn law_bounded_log_text_short_is_stable(value: Seq<char>)
    requires
        trim_spec(value).len() <= MAX_LOG_TEXT_CHARS,
    ensures
        bounded_log_text_spec(value) == trim_spec(value),
        bounded_log_text_spec(bounded_log_text_spec(value)) == bounded_log_text_spec(value),
{
    lemma_trim_idempotent(value);
}


proof fn lemma_trim_start_first_is_not_whitespace(s: Seq<char>)
    requires
        trim_start_spec(s).len() > 0,
    ensures
        !is_whitespace_spec(trim_start_spec(s)[0]),
    decreases s.len(),
{
    if s.len() > 0 && is_whitespace_spec(s[0]) {
        lemma_trim_start_first_is_not_whitespace(s.drop_first());
    }
}

proof fn lemma_trim_end_is_prefix(s: Seq<char>)
    ensures
        trim_end_spec(s).len() <= s.len(),
        trim_end_spec(s) =~= s.take(trim_end_spec(s).len() as int),
    decreases s.len(),
{
    if s.len() > 0 && is_whitespace_spec(s.last()) {
        lemma_trim_end_is_prefix(s.drop_last());
        let t = trim_end_spec(s.drop_last());
        assert(s.drop_last().take(t.len() as int) =~= s.take(t.len() as int));
    } else {
        assert(s.take(s.len() as int) =~= s);
    }
}

/// Logging a logged text again changes nothing: the bounded text starts and ends without
/// whitespace, and a cut text keeps its first 600 characters and its mark.
pub proof fn law_bounded_log_text_is_idempotent(value: Seq<char>)
    ensures
        bounded_log_text_spec(bounded_log_text_spec(value)) == bounded_log_text_spec(value),
{
    let t = trim_spec(value);
    if t.len() <= MAX_LOG_TEXT_CHARS {
        law_bounded_log_text_short_is_stable(value);
    } else {
        let f = trim_start_spec(value);
        lemma_trim_end_is_prefix(f);
        assert(t[0] == f[0]);
        lemma_trim_start_first_is_not_whitespace(value);
        let b = t.take(MAX_LOG_TEXT_CHARS as int) + ellipsis_spec();
        assert(b[0] == t[0]);
        assert(trim_start_spec(b) == b);
        assert(b.last() == '.');
        assert(trim_end_spec(b) == b);
        assert(trim_spec(b) == b);
        assert(b.take(MAX_LOG_TEXT_CHARS as int) =~= t.take(MAX_LOG_TEXT_CHARS as int));
    }
}

proof fn lemma_trim_start_idempotent(s: Seq<char>)
    ensures
        trim_start_spec(trim_start_spec(s)) == trim_start_spec(s),
    decreases s.len(),
{
    if s.len() > 0 && is_whitespace_spec(s[0]) {
        lemma_trim_start_idempotent(s.drop_first());
    }
}

proof fn lemma_trim_start_len(s: Seq<char>)
    ensures
        trim_start_spec(s).len() <= s.len(),
    decreases s.len(),
{
    if s.len() > 0 && is_whitespace_spec(s[0]) {
        lemma_trim_start_len(s.drop_first());
    }
}

proof fn lemma_trim_end_keeps_start(s: Seq<char>)
    requires
        trim_start_spec(s) == s,
    ensures
        trim_start_spec(trim_end_spec(s)) == trim_end_spec(s),
    decreases s.len(),
{
    if s.len() > 0 && is_whitespace_spec(s.last()) {
        let d = s.drop_last();
        lemma_trim_start_len(s.drop_first());
        assert(!is_whitespace_spec(s[0]));
        if d.len() > 0 {
            assert(d[0] == s[0]);
        }
        lemma_trim_end_keeps_start(d);
    }
}

proof fn lemma_trim_end_idempotent(s: Seq<char>)
    ensures
        trim_end_spec(trim_end_spec(s)) == trim_end_spec(s),
    decreases s.len(),
{
    if s.len() > 0 && is_whitespace_spec(s.last()) {
        lemma_trim_end_idempotent(s.drop_last());
    }
}

proof fn lemma_trim_idempotent(s: Seq<char>)
    ensures
        trim_spec(trim_spec(s)) == trim_spec(s),
{
    lemma_trim_start_idempotent(s);
    let f = trim_start_spec(s);
    lemma_trim_end_keeps_start(f);
    let t = trim_end_spec(f);
    assert(trim_start_spec(t) == t);
    lemma_trim_end_idempotent(f);
}

} // verus!
