//! The interactive SQL client's own logic: login state, meta-command
//! parsing, prompts and the text tables it prints.

use vstd::prelude::*;
use crate::text;
use crate::text::{chars_eq, i64_to_decimal, push_all, str_chars, string_from_chars};

verus! {

broadcast use text::lemma_chars_deep_view;

/// Command-line options of the client.
pub struct LsqlCli {
    /// Server address, `host:port`.
    pub host: String,
    /// Default schema.
    pub schema: Option<String>,
    /// User name.
    pub user: Option<String>,
    /// Password.
    pub password: Option<String>,
    /// A single command to run before exiting.
    pub command: Option<String>,
}

// ---------------------------------------------------------------------------
// Login state
// ---------------------------------------------------------------------------

/// The token of the current login and whether the client counts as
/// authenticated.
pub struct AuthSession {
    pub token: Option<String>,
    pub authenticated: bool,
}

impl AuthSession {
    /// A guest session: no token, not authenticated.
    pub fn new() -> (r: AuthSession)
        ensures
            r.token is None,
            !r.authenticated,
    {
        AuthSession { token: None, authenticated: false }
    }
}

/// Remember the token of a successful login.
pub fn set_auth_token(session: &mut AuthSession, token: String)
    ensures
        final(session).token == Some(token),
        final(session).authenticated,
{
    session.token = Some(token);
    session.authenticated = true;
}

/// The token of the current login, if any.
pub fn get_auth_token(session: &AuthSession) -> (r: Option<String>)
    ensures
        r == session.token,
{
    match &session.token {
        Some(t) => Some(t.clone()),
        None => None,
    }
}

/// Forget the login.
pub fn clear_auth_token(session: &mut AuthSession)
    ensures
        final(session).token is None,
        !final(session).authenticated,
{
    session.token = None;
    session.authenticated = false;
}

/// The interactive prompt: `lsql@{schema}> `, or `lsql@{schema} (guest)> `
/// without a login.
pub open spec fn spec_prompt(schema: Seq<char>, authenticated: bool) -> Seq<char> {
    if authenticated {
        "lsql@"@ + schema + "> "@
    } else {
        "lsql@"@ + schema + " (guest)> "@
    }
}

/// Build the interactive prompt.
pub fn prompt(schema: &str, session: &AuthSession) -> (r: String)
    ensures
        r@ == spec_prompt(schema@, session.authenticated),
{
    let mut p = str_chars("lsql@");
    push_all(&mut p, &str_chars(schema));
    if session.authenticated {
        push_all(&mut p, &str_chars("> "));
    } else {
        push_all(&mut p, &str_chars(" (guest)> "));
    }
    string_from_chars(&p)
}

// ---------------------------------------------------------------------------
// Column types
// ---------------------------------------------------------------------------

/// The name of a column type code; unknown codes as `UNKNOWN({code})`.
pub open spec fn spec_column_type_name(code: i32) -> Seq<char> {
    if code == 0 {
        "STRING"@
    } else if code == 1 {
        "INT64"@
    } else if code == 2 {
        "BYTES"@
    } else if code == 3 {
        "FLOAT"@
    } else if code == 4 {
        "LIST"@
    } else if code == 5 {
        "IMAGE"@
    } else {
        "UNKNOWN("@ + text::signed_decimal(code as int) + seq![')']
    }
}

/// The display name of a column type code.
pub fn column_type_to_string(col_type: i32) -> (r: String)
    ensures
        r@ == spec_column_type_name(col_type),
{
    if col_type == 0 {
        "STRING".to_string()
    } else if col_type == 1 {
        "INT64".to_string()
    } else if col_type == 2 {
        "BYTES".to_string()
    } else if col_type == 3 {
        "FLOAT".to_string()
    } else if col_type == 4 {
        "LIST".to_string()
    } else if col_type == 5 {
        "IMAGE".to_string()
    } else {
        let mut s = str_chars("UNKNOWN(");
        push_all(&mut s, &i64_to_decimal(col_type as i64));
        s.push(')');
        string_from_chars(&s)
    }
}

// ---------------------------------------------------------------------------
// Words and meta commands
// ---------------------------------------------------------------------------

/// Number of leading characters of `s` that are not white space.
pub open spec fn leading_word_len(s: Seq<char>) -> nat
    decreases s.len(),
{
    if s.len() == 0 || text::is_white_space(s[0]) {
        0
    } else {
        1 + leading_word_len(s.drop_first())
    }
}

/// Facts about the length of the leading word.
pub proof fn lemma_leading_word_len(s: Seq<char>)
    ensures
        leading_word_len(s) <= s.len(),
        s.len() > 0 && !text::is_white_space(s[0]) ==> leading_word_len(s) >= 1,
        forall|k: int| 0 <= k < leading_word_len(s) ==> !text::is_white_space(#[trigger] s[k]),
        leading_word_len(s) < s.len() ==> text::is_white_space(s[leading_word_len(s) as int]),
    decreases s.len(),
{
    if s.len() > 0 && !text::is_white_space(s[0]) {
        lemma_leading_word_len(s.drop_first());
        assert forall|k: int| 0 <= k < leading_word_len(s) implies !text::is_white_space(#[trigger] s[k]) by {
            if k > 0 {
                assert(s[k] == s.drop_first()[k - 1]);
            }
        }
    }
}

/// The white-space separated words of `s` (as `str::split_whitespace`).
pub open spec fn split_words(s: Seq<char>) -> Seq<Seq<char>>
    decreases s.len(),
{
    if s.len() == 0 {
        Seq::empty()
    } else if text::is_white_space(s[0]) {
        split_words(s.drop_first())
    } else {
        let n = leading_word_len(s);
        proof {
            lemma_leading_word_len(s);
        }
        seq![s.subrange(0, n as int)] + split_words(s.subrange(n as int, s.len() as int))
    }
}

/// The words of `s` separated by white space.
pub fn split_whitespace_chars(s: &[char]) -> (r: Vec<Vec<char>>)
    ensures
        r.deep_view() == split_words(s@),
{
    let mut words: Vec<Vec<char>> = Vec::new();
    let mut i: usize = 0;
    assert(s@.subrange(0, s@.len() as int) =~= s@);
    while i < s.len()
        invariant
            i <= s.len(),
            words.deep_view() + split_words(s@.subrange(i as int, s@.len() as int)) == split_words(s@),
        decreases s.len() - i,
    {
        let ghost t = s@.subrange(i as int, s@.len() as int);
        if text::is_whitespace_char(s[i]) {
            assert(t.drop_first() =~= s@.subrange(i + 1, s@.len() as int));
            i = i + 1;
        } else {
            let mut j = i;
            let mut w: Vec<char> = Vec::new();
            while j < s.len() && !text::is_whitespace_char(s[j])
                invariant
                    i <= j <= s.len(),
                    w@ == s@.subrange(i as int, j as int),
                    forall|k: int| i <= k < j ==> !text::is_white_space(#[trigger] s@[k]),
                decreases s.len() - j,
            {
                w.push(s[j]);
                j = j + 1;
            }
            proof {
                lemma_leading_word_len(t);
                let n = leading_word_len(t);
                assert(n == j - i) by {
                    if n < j - i {
                        assert(t[n as int] == s@[i + n]);
                    } else if n > j - i {
                        assert(t[(j - i) as int] == s@[j as int]);
                    }
                }
                assert(t.subrange(0, n as int) =~= w@);
                assert(t.subrange(n as int, t.len() as int) =~= s@.subrange(j as int, s@.len() as int));
            }
            let ghost before = words.deep_view();
            let ghost wv = w@;
            words.push(w);
            assert(words.deep_view() =~= before.push(wv));
            assert(before.push(wv) + split_words(s@.subrange(j as int, s@.len() as int)) =~= before + (seq![wv] + split_words(s@.subrange(j as int, s@.len() as int))));
            i = j;
        }
    }
    assert(split_words(s@.subrange(i as int, s@.len() as int)) =~= Seq::<Seq<char>>::empty());
    assert(words.deep_view() + Seq::<Seq<char>>::empty() =~= words.deep_view());
    words
}

/// What an input line of the interactive client is, once trimmed: nothing,
/// a backslash command, or SQL.
pub enum InputLine {
    Empty,
    Meta(String),
    Sql(String),
}

/// The kind of a trimmed line: empty, starting with `\\`, or anything else.
pub open spec fn spec_input_line(line: Seq<char>) -> (int, Seq<char>) {
    let t = text::trim_spec(line);
    if t.len() == 0 {
        (0, t)
    } else if t[0] == '\\' {
        (1, t)
    } else {
        (2, t)
    }
}

/// Read one input line of the interactive client.
pub fn classify_line(line: &str) -> (r: InputLine)
    ensures
        match r {
            InputLine::Empty => spec_input_line(line@).0 == 0,
            InputLine::Meta(t) => spec_input_line(line@) == (1int, t@),
            InputLine::Sql(t) => spec_input_line(line@) == (2int, t@),
        },
{
    let t = text::trim_chars(&str_chars(line));
    if t.len() == 0 {
        InputLine::Empty
    } else if t[0] == '\\' {
        InputLine::Meta(string_from_chars(&t))
    } else {
        InputLine::Sql(string_from_chars(&t))
    }
}

/// The schema the client starts in: the one given, else `sys`.
pub fn default_schema(schema: Option<&str>) -> (r: String)
    ensures
        r@ == match schema {
            Some(s) => s@,
            None => "sys"@,
        },
{
    match schema {
        Some(s) => s.to_string(),
        None => "sys".to_string(),
    }
}

/// Whether a single command given on the command line is a backslash
/// command (it is taken as SQL otherwise).
pub fn is_meta_command(cmd: &str) -> (r: bool)
    ensures
        r == (cmd@.len() > 0 && cmd@[0] == '\\'),
{
    let c = str_chars(cmd);
    c.len() > 0 && c[0] == '\\'
}

/// A backslash command of the client.
pub enum MetaCommand {
    Quit,
    Help,
    Version,
    ListSchemas,
    ListTables,
    Connect(String),
    Describe(String),
    Login,
    Logout,
    ListIndices,
    DescribeIndex(String),
    Search { index: String, query: String },
    IndexStats,
    Unknown,
}

/// A meta command with its arguments as character sequences.
pub enum MetaCommandView {
    Quit,
    Help,
    Version,
    ListSchemas,
    ListTables,
    Connect(Seq<char>),
    Describe(Seq<char>),
    Login,
    Logout,
    ListIndices,
    DescribeIndex(Seq<char>),
    Search { index: Seq<char>, query: Seq<char> },
    IndexStats,
    Unknown,
}

impl View for MetaCommand {
    type V = MetaCommandView;

    open spec fn view(&self) -> MetaCommandView {
        match self {
            MetaCommand::Quit => MetaCommandView::Quit,
            MetaCommand::Help => MetaCommandView::Help,
            MetaCommand::Version => MetaCommandView::Version,
            MetaCommand::ListSchemas => MetaCommandView::ListSchemas,
            MetaCommand::ListTables => MetaCommandView::ListTables,
            MetaCommand::Connect(s) => MetaCommandView::Connect(s@),
            MetaCommand::Describe(s) => MetaCommandView::Describe(s@),
            MetaCommand::Login => MetaCommandView::Login,
            MetaCommand::Logout => MetaCommandView::Logout,
            MetaCommand::ListIndices => MetaCommandView::ListIndices,
            MetaCommand::DescribeIndex(s) => MetaCommandView::DescribeIndex(s@),
            MetaCommand::Search { index, query } => MetaCommandView::Search { index: index@, query: query@ },
            MetaCommand::IndexStats => MetaCommandView::IndexStats,
            MetaCommand::Unknown => MetaCommandView::Unknown,
        }
    }
}

/// What a command line means, read from its words: the first word names the
/// command; `\c`/`\connect`, `\d` and `\dix` need exactly one argument,
/// `\search` an index and at least one query word (joined with spaces).
pub open spec fn spec_meta_command(words: Seq<Seq<char>>) -> MetaCommandView {
    let w = words[0];
    let n = words.len();
    if w == "\\q"@ || w == "\\quit"@ {
        MetaCommandView::Quit
    } else if w == "\\help"@ || w == "\\?"@ || w == "\\h"@ {
        MetaCommandView::Help
    } else if w == "\\version"@ || w == "\\v"@ {
        MetaCommandView::Version
    } else if w == "\\dn"@ || w == "\\schemas"@ {
        MetaCommandView::ListSchemas
    } else if w == "\\dt"@ {
        MetaCommandView::ListTables
    } else if (w == "\\c"@ || w == "\\connect"@) && n == 2 {
        MetaCommandView::Connect(words[1])
    } else if w == "\\d"@ && n == 2 {
        MetaCommandView::Describe(words[1])
    } else if w == "\\login"@ {
        MetaCommandView::Login
    } else if w == "\\logout"@ {
        MetaCommandView::Logout
    } else if w == "\\di"@ || w == "\\indices"@ {
        MetaCommandView::ListIndices
    } else if w == "\\dix"@ && n == 2 {
        MetaCommandView::DescribeIndex(words[1])
    } else if w == "\\search"@ && n >= 3 {
        MetaCommandView::Search {
            index: words[1],
            query: text::join_with(words.subrange(2, n as int), seq![' ']),
        }
    } else if w == "\\dstats"@ {
        MetaCommandView::IndexStats
    } else {
        MetaCommandView::Unknown
    }
}

/// `\dix` with exactly one argument describes the search index it names,
/// and only `\dix` does.
pub proof fn law_describe_index_command(words: Seq<Seq<char>>)
    requires
        words.len() > 0,
    ensures
        (words.len() == 2 && words[0] == "\\dix"@) ==> spec_meta_command(words) == MetaCommandView::DescribeIndex(words[1]),
        spec_meta_command(words) is DescribeIndex ==> words.len() == 2 && words[0] == "\\dix"@
            && spec_meta_command(words) == MetaCommandView::DescribeIndex(words[1]),
{
    reveal_strlit("\\q");
    reveal_strlit("\\quit");
    reveal_strlit("\\help");
    reveal_strlit("\\?");
    reveal_strlit("\\h");
    reveal_strlit("\\version");
    reveal_strlit("\\v");
    reveal_strlit("\\dn");
    reveal_strlit("\\schemas");
    reveal_strlit("\\dt");
    reveal_strlit("\\c");
    reveal_strlit("\\connect");
    reveal_strlit("\\d");
    reveal_strlit("\\login");
    reveal_strlit("\\logout");
    reveal_strlit("\\di");
    reveal_strlit("\\indices");
    reveal_strlit("\\dix");
    reveal_strlit("\\search");
    reveal_strlit("\\dstats");
    let w = words[0];
    if w == "\\dix"@ {
        assert(w.len() == 4 && w[0] == '\\' && w[1] == 'd' && w[2] == 'i' && w[3] == 'x');
        assert(w != "\\q"@ && w != "\\quit"@ && w != "\\help"@ && w != "\\?"@ && w != "\\h"@);
        assert(w != "\\version"@ && w != "\\v"@ && w != "\\dn"@ && w != "\\schemas"@ && w != "\\dt"@);
        assert(w != "\\c"@ && w != "\\connect"@ && w != "\\d"@ && w != "\\login"@ && w != "\\logout"@);
        assert(w != "\\di"@ && w != "\\indices"@);
    }
}

/// Only `\d` with exactly one argument describes a table, the one it names;
/// in particular `\dix` never does.
pub proof fn law_describe_table_command(words: Seq<Seq<char>>)
    requires
        words.len() > 0,
    ensures
        (words.len() == 2 && words[0] == "\\d"@) ==> spec_meta_command(words) == MetaCommandView::Describe(words[1]),
        spec_meta_command(words) is Describe ==> words.len() == 2 && words[0] == "\\d"@
            && spec_meta_command(words) == MetaCommandView::Describe(words[1]),
        words[0] == "\\dix"@ ==> !(spec_meta_command(words) is Describe),
{
    reveal_strlit("\\q");
    reveal_strlit("\\quit");
    reveal_strlit("\\help");
    reveal_strlit("\\?");
    reveal_strlit("\\h");
    reveal_strlit("\\version");
    reveal_strlit("\\v");
    reveal_strlit("\\dn");
    reveal_strlit("\\schemas");
    reveal_strlit("\\dt");
    reveal_strlit("\\c");
    reveal_strlit("\\connect");
    reveal_strlit("\\d");
    reveal_strlit("\\login");
    reveal_strlit("\\logout");
    reveal_strlit("\\di");
    reveal_strlit("\\indices");
    reveal_strlit("\\dix");
    reveal_strlit("\\search");
    reveal_strlit("\\dstats");
    let w = words[0];
    if w == "\\d"@ {
        assert(w.len() == 2 && w[0] == '\\' && w[1] == 'd');
        assert(w != "\\q"@ && w != "\\quit"@ && w != "\\help"@ && w != "\\?"@ && w != "\\h"@);
        assert(w != "\\version"@ && w != "\\v"@ && w != "\\dn"@ && w != "\\schemas"@ && w != "\\dt"@);
        assert(w != "\\c"@ && w != "\\connect"@);
    }
    if w == "\\dix"@ {
        assert(w.len() == 4 && w[3] == 'x');
        assert(w != "\\d"@);
    }
}

fn word_is(w: &[char], lit: &str) -> (r: bool)
    ensures
        r == (w@ == lit@),
{
    chars_eq(w, &str_chars(lit))
}

/// Parse a backslash command line. The line must hold at least one word.
pub fn parse_meta_command(cmd: &str) -> (r: MetaCommand)
    requires
        split_words(cmd@).len() > 0,
    ensures
        r@ == spec_meta_command(split_words(cmd@)),
        (split_words(cmd@).len() == 2 && split_words(cmd@)[0] == "\\dix"@) ==> r@ == MetaCommandView::DescribeIndex(split_words(cmd@)[1]),
        r is Describe ==> split_words(cmd@).len() == 2 && split_words(cmd@)[0] == "\\d"@
            && r@ == MetaCommandView::Describe(split_words(cmd@)[1]),
{
    proof {
        law_describe_index_command(split_words(cmd@));
        law_describe_table_command(split_words(cmd@));
    }
    let words = split_whitespace_chars(&str_chars(cmd));
    let ghost wv = words.deep_view();
    let n = words.len();
    assert(wv[0] == words@[0]@);
    let w = &words[0];
    if word_is(w, "\\q") || word_is(w, "\\quit") {
        MetaCommand::Quit
    } else if word_is(w, "\\help") || word_is(w, "\\?") || word_is(w, "\\h") {
        MetaCommand::Help
    } else if word_is(w, "\\version") || word_is(w, "\\v") {
        MetaCommand::Version
    } else if word_is(w, "\\dn") || word_is(w, "\\schemas") {
        MetaCommand::ListSchemas
    } else if word_is(w, "\\dt") {
        MetaCommand::ListTables
    } else if (word_is(w, "\\c") || word_is(w, "\\connect")) && n == 2 {
        assert(wv[1] == words@[1]@);
        MetaCommand::Connect(string_from_chars(&words[1]))
    } else if word_is(w, "\\d") && n == 2 {
        assert(wv[1] == words@[1]@);
        MetaCommand::Describe(string_from_chars(&words[1]))
    } else if word_is(w, "\\login") {
        MetaCommand::Login
    } else if word_is(w, "\\logout") {
        MetaCommand::Logout
    } else if word_is(w, "\\di") || word_is(w, "\\indices") {
        MetaCommand::ListIndices
    } else if word_is(w, "\\dix") && n == 2 {
        assert(wv[1] == words@[1]@);
        MetaCommand::DescribeIndex(string_from_chars(&words[1]))
    } else if word_is(w, "\\search") && n >= 3 {
        assert(wv[1] == words@[1]@);
        let mut rest: Vec<Vec<char>> = Vec::new();
        let mut i: usize = 2;
        while i < n
            invariant
                2 <= i <= n,
                n == words.len(),
                wv == words.deep_view(),
                rest.deep_view() == wv.subrange(2, i as int),
            decreases n - i,
        {
            let ghost before = rest.deep_view();
            let c = words[i].clone();
            assert(c@ =~= words@[i as int]@);
            assert(wv[i as int] == words@[i as int]@);
            rest.push(c);
            assert(rest.deep_view() =~= before.push(wv[i as int]));
            assert(wv.subrange(2, i + 1) =~= wv.subrange(2, i as int).push(wv[i as int]));
            i = i + 1;
        }
        let space: [char; 1] = [' '];
        assert(space@ =~= seq![' ']);
        let query = text::join_chars(&rest, &space);
        MetaCommand::Search { index: string_from_chars(&words[1]), query: string_from_chars(&query) }
    } else if word_is(w, "\\dstats") {
        MetaCommand::IndexStats
    } else {
        MetaCommand::Unknown
    }
}

// ---------------------------------------------------------------------------
// Text tables
// ---------------------------------------------------------------------------

/// `n` copies of `c`.
pub open spec fn repeat_char(c: char, n: nat) -> Seq<char> {
    Seq::new(n, |i: int| c)
}

/// How a cell is placed in its column.
#[derive(PartialEq, Eq, Structural, Clone, Copy)]
pub enum Align {
    Left,
    Right,
    Center,
}

/// `s` padded with spaces to `width` characters (as `{:<w}`, `{:>w}` and
/// `{:^w}`; the centred form puts the odd space on the right); unchanged
/// when it is already that wide.
pub open spec fn aligned(s: Seq<char>, width: nat, align: Align) -> Seq<char> {
    if s.len() >= width {
        s
    } else {
        let pad = (width - s.len()) as nat;
        match align {
            Align::Left => s + repeat_char(' ', pad),
            Align::Right => repeat_char(' ', pad) + s,
            Align::Center => repeat_char(' ', pad / 2) + s + repeat_char(' ', (pad - pad / 2) as nat),
        }
    }
}

/// `+` followed, for each width, by `width + 2` dashes and a `+`.
pub open spec fn separator_spec(widths: Seq<usize>) -> Seq<char>
    decreases widths.len(),
{
    if widths.len() == 0 {
        seq!['+']
    } else {
        separator_spec(widths.drop_last()) + repeat_char('-', (widths.last() + 2) as nat) + seq!['+']
    }
}

/// `|` followed, for each cell, by ` {cell} |`.
pub open spec fn row_spec(cells: Seq<Seq<char>>) -> Seq<char>
    decreases cells.len(),
{
    if cells.len() == 0 {
        seq!['|']
    } else {
        row_spec(cells.drop_last()) + seq![' '] + cells.last() + " |"@
    }
}

fn push_repeat(out: &mut Vec<char>, c: char, n: usize)
    ensures
        final(out)@ == old(out)@ + repeat_char(c, n as nat),
{
    let ghost start = out@;
    let mut i: usize = 0;
    while i < n
        invariant
            i <= n,
            out@ == start + repeat_char(c, i as nat),
        decreases n - i,
    {
        out.push(c);
        i = i + 1;
        assert(out@ =~= start + repeat_char(c, i as nat));
    }
}

/// Pad a cell to its column width.
pub fn align_cell(s: &[char], width: usize, align: Align) -> (r: Vec<char>)
    ensures
        r@ == aligned(s@, width as nat, align),
{
    let mut out: Vec<char> = Vec::new();
    if s.len() >= width {
        push_all(&mut out, s);
        return out;
    }
    let pad = width - s.len();
    match align {
        Align::Left => {
            push_all(&mut out, s);
            push_repeat(&mut out, ' ', pad);
        },
        Align::Right => {
            push_repeat(&mut out, ' ', pad);
            push_all(&mut out, s);
        },
        Align::Center => {
            push_repeat(&mut out, ' ', pad / 2);
            push_all(&mut out, s);
            push_repeat(&mut out, ' ', pad - pad / 2);
        },
    }
    assert(out@ =~= aligned(s@, width as nat, align));
    out
}

/// The separator line for the given column widths.
pub fn separator_line(widths: &[usize]) -> (r: Vec<char>)
    ensures
        r@ == separator_spec(widths@),
{
    let mut out: Vec<char> = Vec::new();
    out.push('+');
    let mut i: usize = 0;
    assert(widths@.subrange(0, 0) =~= Seq::<usize>::empty());
    while i < widths.len()
        invariant
            i <= widths.len(),
            out@ == separator_spec(widths@.subrange(0, i as int)),
        decreases widths.len() - i,
    {
        let ghost pre = widths@.subrange(0, i as int);
        let ghost before = out@;
        push_repeat(&mut out, '-', widths[i]);
        out.push('-');
        out.push('-');
        assert(out@ =~= before + repeat_char('-', (widths@[i as int] + 2) as nat));
        out.push('+');
        assert(widths@.subrange(0, i + 1).drop_last() =~= pre);
        i = i + 1;
    }
    assert(widths@.subrange(0, i as int) =~= widths@);
    out
}

/// A table row from already padded cells.
pub fn table_row(cells: &Vec<Vec<char>>) -> (r: Vec<char>)
    ensures
        r@ == row_spec(cells.deep_view()),
{
    let ghost cv = cells.deep_view();
    let mut out: Vec<char> = Vec::new();
    out.push('|');
    let mut i: usize = 0;
    assert(cv.subrange(0, 0) =~= Seq::<Seq<char>>::empty());
    while i < cells.len()
        invariant
            i <= cells.len(),
            cv == cells.deep_view(),
            out@ == row_spec(cv.subrange(0, i as int)),
        decreases cells.len() - i,
    {
        let ghost pre = cv.subrange(0, i as int);
        out.push(' ');
        push_all(&mut out, &cells[i]);
        push_all(&mut out, &str_chars(" |"));
        assert(cv.subrange(0, i + 1).drop_last() =~= pre);
        assert(cv.subrange(0, i + 1).last() == cells@[i as int]@);
        i = i + 1;
    }
    assert(cv.subrange(0, i as int) =~= cv);
    out
}

/// At most `limit` characters of `s`, followed by `...` when it was longer.
pub open spec fn truncated(s: Seq<char>, limit: nat) -> Seq<char> {
    if s.len() > limit {
        s.subrange(0, limit as int) + "..."@
    } else {
        s
    }
}

/// Shorten a long value for display.
pub fn truncate_display(s: &str, limit: usize) -> (r: String)
    ensures
        r@ == truncated(s@, limit as nat),
{
    let c = str_chars(s);
    if c.len() > limit {
        let mut t = text::chars_range(&c, 0, limit);
        push_all(&mut t, &str_chars("..."));
        string_from_chars(&t)
    } else {
        string_from_chars(&c)
    }
}

/// The number of UTF-8 bytes of `s` (what `str::len` counts).
pub open spec fn byte_len(s: Seq<char>) -> nat {
    vstd::utf8::encode_utf8(s).len()
}

/// A column as `\d` shows it.
pub struct ColumnDisplay {
    pub column_id: u32,
    pub column_name: String,
    pub column_type: i32,
    pub comment: String,
}

/// The four texts of a column row: id, name, type name, comment.
pub open spec fn column_texts(c: ColumnDisplay) -> (Seq<char>, Seq<char>, Seq<char>, Seq<char>) {
    (
        text::decimal_seq(c.column_id as nat),
        c.column_name@,
        spec_column_type_name(c.column_type),
        c.comment@,
    )
}

/// The widest of `start` and the byte lengths of the texts that `pick`
/// selects from each column.
pub open spec fn column_width(cols: Seq<ColumnDisplay>, which: int) -> nat
    decreases cols.len(),
{
    if cols.len() == 0 {
        8
    } else {
        let t = column_texts(cols.last());
        let l = if which == 0 {
            byte_len(t.0)
        } else if which == 1 {
            byte_len(t.1)
        } else if which == 2 {
            byte_len(t.2)
        } else {
            byte_len(t.3)
        };
        let w = column_width(cols.drop_last(), which);
        if l > w {
            l
        } else {
            w
        }
    }
}

/// The row of one column: id right-aligned, the rest left-aligned.
pub open spec fn column_row(c: ColumnDisplay, w: Seq<usize>) -> Seq<char> {
    let t = column_texts(c);
    row_spec(
        seq![
            aligned(t.0, w[0] as nat, Align::Right),
            aligned(t.1, w[1] as nat, Align::Left),
            aligned(t.2, w[2] as nat, Align::Left),
            aligned(t.3, w[3] as nat, Align::Left),
        ],
    )
}

/// The lines `\d <table>` prints for the columns of a table.
pub open spec fn spec_describe_lines(schema: Seq<char>, table: Seq<char>, cols: Seq<ColumnDisplay>) -> Seq<Seq<char>> {
    if cols.len() == 0 {
        seq!["表 '"@ + table + "' 没有列"@]
    } else {
        let w: Seq<usize> = seq![
            column_width(cols, 0) as usize,
            column_width(cols, 1) as usize,
            column_width(cols, 2) as usize,
            column_width(cols, 3) as usize,
        ];
        let sep = separator_spec(w);
        let header = row_spec(
            seq![
                aligned("列ID"@, w[0] as nat, Align::Center),
                aligned("列名"@, w[1] as nat, Align::Center),
                aligned("类型"@, w[2] as nat, Align::Center),
                aligned("注释"@, w[3] as nat, Align::Center),
            ],
        );
        seq!["表 \""@ + schema + seq!['.'] + table + seq!['"'], sep, header, sep]
            + cols.map_values(|c: ColumnDisplay| column_row(c, w))
            + seq![sep, "("@ + text::decimal_seq(cols.len()) + " 列)"@]
    }
}

/// A column's texts as vectors.
fn column_text_vecs(c: &ColumnDisplay) -> (r: (Vec<char>, Vec<char>, Vec<char>, Vec<char>))
    ensures
        (r.0@, r.1@, r.2@, r.3@) == column_texts(*c),
{
    (
        text::u64_to_decimal(c.column_id as u64),
        str_chars(c.column_name.as_str()),
        str_chars(column_type_to_string(c.column_type).as_str()),
        str_chars(c.comment.as_str()),
    )
}

fn utf8_len(v: &[char]) -> (r: usize)
    ensures
        r == byte_len(v@),
{
    let s = string_from_chars(v);
    s.as_str().as_bytes().len()
}

/// The lines `\d <table>` prints: the table name, a framed table of column
/// id, name, type and comment, and the column count; or a note when the
/// table has no columns.
pub fn describe_table_lines(schema: &str, table: &str, columns: &Vec<ColumnDisplay>) -> (r: Vec<String>)
    ensures
        r@.map_values(|s: String| s@) == spec_describe_lines(schema@, table@, columns@),
{
    let mut lines: Vec<Vec<char>> = Vec::new();
    if columns.len() == 0 {
        let mut l = str_chars("表 '");
        push_all(&mut l, &str_chars(table));
        push_all(&mut l, &str_chars("' 没有列"));
        lines.push(l);
        assert(lines.deep_view() =~= spec_describe_lines(schema@, table@, columns@));
        return text::strings_from_char_vecs(&lines);
    }
    let mut w0: usize = 8;
    let mut w1: usize = 8;
    let mut w2: usize = 8;
    let mut w3: usize = 8;
    let mut i: usize = 0;
    while i < columns.len()
        invariant
            i <= columns.len(),
            w0 == column_width(columns@.subrange(0, i as int), 0),
            w1 == column_width(columns@.subrange(0, i as int), 1),
            w2 == column_width(columns@.subrange(0, i as int), 2),
            w3 == column_width(columns@.subrange(0, i as int), 3),
        decreases columns.len() - i,
    {
        let ghost pre = columns@.subrange(0, i as int);
        assert(columns@.subrange(0, i + 1).drop_last() =~= pre);
        let (t0, t1, t2, t3) = column_text_vecs(&columns[i]);
        let l0 = utf8_len(&t0);
        let l1 = utf8_len(&t1);
        let l2 = utf8_len(&t2);
        let l3 = utf8_len(&t3);
        assert(columns@.subrange(0, i + 1).last() == columns@[i as int]);
        if l0 > w0 { w0 = l0; }
        if l1 > w1 { w1 = l1; }
        if l2 > w2 { w2 = l2; }
        if l3 > w3 { w3 = l3; }
        i = i + 1;
    }
    assert(columns@.subrange(0, i as int) =~= columns@);
    let widths: [usize; 4] = [w0, w1, w2, w3];
    let ghost wv: Seq<usize> = seq![w0, w1, w2, w3];
    assert(widths@ =~= wv);
    let sep = separator_line(&widths);
    let mut title = str_chars("表 \"");
    push_all(&mut title, &str_chars(schema));
    title.push('.');
    push_all(&mut title, &str_chars(table));
    title.push('"');
    lines.push(title);
    lines.push(sep.clone());
    let mut head: Vec<Vec<char>> = Vec::new();
    head.push(align_cell(&str_chars("列ID"), w0, Align::Center));
    head.push(align_cell(&str_chars("列名"), w1, Align::Center));
    head.push(align_cell(&str_chars("类型"), w2, Align::Center));
    head.push(align_cell(&str_chars("注释"), w3, Align::Center));
    let hr = table_row(&head);
    let ghost hrv = hr@;
    lines.push(hr);
    lines.push(sep.clone());
    let ghost fixed = lines.deep_view();
    assert(fixed =~= seq![title@, sep@, hrv, sep@]);
    let mut j: usize = 0;
    while j < columns.len()
        invariant
            j <= columns.len(),
            wv == seq![w0, w1, w2, w3],
            lines.deep_view() == fixed + columns@.subrange(0, j as int).map_values(|c: ColumnDisplay| column_row(c, wv)),
        decreases columns.len() - j,
    {
        let (t0, t1, t2, t3) = column_text_vecs(&columns[j]);
        let mut cells: Vec<Vec<char>> = Vec::new();
        cells.push(align_cell(&t0, w0, Align::Right));
        cells.push(align_cell(&t1, w1, Align::Left));
        cells.push(align_cell(&t2, w2, Align::Left));
        cells.push(align_cell(&t3, w3, Align::Left));
        let row = table_row(&cells);
        let ghost before = lines.deep_view();
        let ghost rv = row@;
        assert(cells.deep_view() =~= seq![
            aligned(t0@, wv[0] as nat, Align::Right),
            aligned(t1@, wv[1] as nat, Align::Left),
            aligned(t2@, wv[2] as nat, Align::Left),
            aligned(t3@, wv[3] as nat, Align::Left),
        ]);
        assert(rv == column_row(columns@[j as int], wv));
        lines.push(row);
        assert(lines.deep_view() =~= before.push(rv));
        assert(columns@.subrange(0, j + 1).map_values(|c: ColumnDisplay| column_row(c, wv)) =~= columns@.subrange(0, j as int).map_values(|c: ColumnDisplay| column_row(c, wv)).push(rv));
        j = j + 1;
    }
    let ghost mapped = columns@.map_values(|c: ColumnDisplay| column_row(c, wv));
    assert(columns@.subrange(0, j as int) =~= columns@);
    let ghost sepv = sep@;
    lines.push(sep);
    let mut foot = str_chars("(");
    push_all(&mut foot, &text::u64_to_decimal(columns.len() as u64));
    push_all(&mut foot, &str_chars(" 列)"));
    lines.push(foot);
    assert(columns@.subrange(0, columns.len() as int) =~= columns@);
    assert(head.deep_view() =~= seq![
        aligned("列ID"@, wv[0] as nat, Align::Center),
        aligned("列名"@, wv[1] as nat, Align::Center),
        aligned("类型"@, wv[2] as nat, Align::Center),
        aligned("注释"@, wv[3] as nat, Align::Center),
    ]);
    assert(wv =~= seq![
        column_width(columns@, 0) as usize,
        column_width(columns@, 1) as usize,
        column_width(columns@, 2) as usize,
        column_width(columns@, 3) as usize,
    ]);
    assert(foot@ =~= "("@ + text::decimal_seq(columns@.len()) + " 列)"@);
    assert(title@ =~= "表 \""@ + schema@ + seq!['.'] + table@ + seq!['"']);
    assert(lines.deep_view() =~= fixed + mapped + seq![sepv, foot@]);
    assert(lines.deep_view() =~= spec_describe_lines(schema@, table@, columns@));
    text::strings_from_char_vecs(&lines)
}

// ---------------------------------------------------------------------------
// Full-text indices
// ---------------------------------------------------------------------------

/// A field of a full-text index as `\\dix` shows it.
pub struct IndexFieldDisplay {
    pub column_name: String,
    pub column_type: i32,
    pub comment: String,
}

/// The three texts of a field row: name, type name, comment.
pub open spec fn field_texts(f: IndexFieldDisplay) -> (Seq<char>, Seq<char>, Seq<char>) {
    (f.column_name@, spec_column_type_name(f.column_type), f.comment@)
}

/// The widest of 8 and the byte lengths of one of the field texts.
pub open spec fn field_width(fs: Seq<IndexFieldDisplay>, which: int) -> nat
    decreases fs.len(),
{
    if fs.len() == 0 {
        8
    } else {
        let t = field_texts(fs.last());
        let l = if which == 0 {
            byte_len(t.0)
        } else if which == 1 {
            byte_len(t.1)
        } else {
            byte_len(t.2)
        };
        let w = field_width(fs.drop_last(), which);
        if l > w {
            l
        } else {
            w
        }
    }
}

/// The row of one field, indented by two spaces, every cell left-aligned.
pub open spec fn field_row(f: IndexFieldDisplay, w: Seq<usize>) -> Seq<char> {
    let t = field_texts(f);
    "  "@ + row_spec(
        seq![
            aligned(t.0, w[0] as nat, Align::Left),
            aligned(t.1, w[1] as nat, Align::Left),
            aligned(t.2, w[2] as nat, Align::Left),
        ],
    )
}

/// The lines `\\dix` prints for the fields of an index: `  字段: (无)` when
/// there are none, else an empty line, `  字段:` and a framed table of name,
/// type and comment, indented by two spaces.
pub open spec fn spec_index_field_lines(fs: Seq<IndexFieldDisplay>) -> Seq<Seq<char>> {
    if fs.len() == 0 {
        seq!["  字段: (无)"@]
    } else {
        let w: Seq<usize> = seq![
            field_width(fs, 0) as usize,
            field_width(fs, 1) as usize,
            field_width(fs, 2) as usize,
        ];
        let sep = "  "@ + separator_spec(w);
        let header = "  "@ + row_spec(
            seq![
                aligned("字段名"@, w[0] as nat, Align::Center),
                aligned("类型"@, w[1] as nat, Align::Center),
                aligned("注释"@, w[2] as nat, Align::Center),
            ],
        );
        seq![Seq::<char>::empty(), "  字段:"@, sep, header, sep] + fs.map_values(
            |f: IndexFieldDisplay| field_row(f, w),
        ) + seq![sep]
    }
}

fn field_text_vecs(f: &IndexFieldDisplay) -> (r: (Vec<char>, Vec<char>, Vec<char>))
    ensures
        (r.0@, r.1@, r.2@) == field_texts(*f),
{
    (
        str_chars(f.column_name.as_str()),
        str_chars(column_type_to_string(f.column_type).as_str()),
        str_chars(f.comment.as_str()),
    )
}

fn indented(line: Vec<char>) -> (r: Vec<char>)
    ensures
        r@ == "  "@ + line@,
{
    let mut r = str_chars("  ");
    push_all(&mut r, &line);
    r
}

/// The lines `\\dix` prints for the fields of an index.
pub fn index_field_lines(fields: &Vec<IndexFieldDisplay>) -> (r: Vec<String>)
    ensures
        r@.map_values(|s: String| s@) == spec_index_field_lines(fields@),
{
    let mut lines: Vec<Vec<char>> = Vec::new();
    if fields.len() == 0 {
        lines.push(str_chars("  字段: (无)"));
        assert(lines.deep_view() =~= spec_index_field_lines(fields@));
        return text::strings_from_char_vecs(&lines);
    }
    let mut w0: usize = 8;
    let mut w1: usize = 8;
    let mut w2: usize = 8;
    let mut i: usize = 0;
    while i < fields.len()
        invariant
            i <= fields.len(),
            w0 == field_width(fields@.subrange(0, i as int), 0),
            w1 == field_width(fields@.subrange(0, i as int), 1),
            w2 == field_width(fields@.subrange(0, i as int), 2),
        decreases fields.len() - i,
    {
        let ghost pre = fields@.subrange(0, i as int);
        assert(fields@.subrange(0, i + 1).drop_last() =~= pre);
        let (t0, t1, t2) = field_text_vecs(&fields[i]);
        let l0 = utf8_len(&t0);
        let l1 = utf8_len(&t1);
        let l2 = utf8_len(&t2);
        assert(fields@.subrange(0, i + 1).last() == fields@[i as int]);
        if l0 > w0 { w0 = l0; }
        if l1 > w1 { w1 = l1; }
        if l2 > w2 { w2 = l2; }
        i = i + 1;
    }
    assert(fields@.subrange(0, i as int) =~= fields@);
    let widths: [usize; 3] = [w0, w1, w2];
    let ghost wv: Seq<usize> = seq![w0, w1, w2];
    assert(widths@ =~= wv);
    let sep = indented(separator_line(&widths));
    lines.push(Vec::new());
    lines.push(str_chars("  字段:"));
    lines.push(sep.clone());
    let mut head: Vec<Vec<char>> = Vec::new();
    head.push(align_cell(&str_chars("字段名"), w0, Align::Center));
    head.push(align_cell(&str_chars("类型"), w1, Align::Center));
    head.push(align_cell(&str_chars("注释"), w2, Align::Center));
    let hr = indented(table_row(&head));
    let ghost hrv = hr@;
    lines.push(hr);
    lines.push(sep.clone());
    let ghost fixed = lines.deep_view();
    assert(fixed =~= seq![Seq::<char>::empty(), "  字段:"@, sep@, hrv, sep@]);
    let mut j: usize = 0;
    while j < fields.len()
        invariant
            j <= fields.len(),
            wv == seq![w0, w1, w2],
            lines.deep_view() == fixed + fields@.subrange(0, j as int).map_values(|f: IndexFieldDisplay| field_row(f, wv)),
        decreases fields.len() - j,
    {
        let (t0, t1, t2) = field_text_vecs(&fields[j]);
        let mut cells: Vec<Vec<char>> = Vec::new();
        cells.push(align_cell(&t0, w0, Align::Left));
        cells.push(align_cell(&t1, w1, Align::Left));
        cells.push(align_cell(&t2, w2, Align::Left));
        let row = indented(table_row(&cells));
        let ghost before = lines.deep_view();
        let ghost rv = row@;
        assert(cells.deep_view() =~= seq![
            aligned(t0@, wv[0] as nat, Align::Left),
            aligned(t1@, wv[1] as nat, Align::Left),
            aligned(t2@, wv[2] as nat, Align::Left),
        ]);
        assert(rv == field_row(fields@[j as int], wv));
        lines.push(row);
        assert(lines.deep_view() =~= before.push(rv));
        assert(fields@.subrange(0, j + 1).map_values(|f: IndexFieldDisplay| field_row(f, wv)) =~= fields@.subrange(0, j as int).map_values(|f: IndexFieldDisplay| field_row(f, wv)).push(rv));
        j = j + 1;
    }
    let ghost mapped = fields@.map_values(|f: IndexFieldDisplay| field_row(f, wv));
    assert(fields@.subrange(0, j as int) =~= fields@);
    let ghost sepv = sep@;
    lines.push(sep);
    assert(head.deep_view() =~= seq![
        aligned("字段名"@, wv[0] as nat, Align::Center),
        aligned("类型"@, wv[1] as nat, Align::Center),
        aligned("注释"@, wv[2] as nat, Align::Center),
    ]);
    assert(wv =~= seq![
        field_width(fields@, 0) as usize,
        field_width(fields@, 1) as usize,
        field_width(fields@, 2) as usize,
    ]);
    assert(lines.deep_view() =~= fixed + mapped + seq![sepv]);
    assert(lines.deep_view() =~= spec_index_field_lines(fields@));
    text::strings_from_char_vecs(&lines)
}

/// `{head}{n}`.
fn numbered_line(head: &str, n: u64) -> (r: Vec<char>)
    ensures
        r@ == head@ + text::decimal_seq(n as nat),
{
    let mut l = str_chars(head);
    push_all(&mut l, &text::u64_to_decimal(n));
    l
}

/// The lines `\\dix` prints about an index before its fields: its name, id
/// and column count, and its comment when it has one.
pub fn index_meta_lines(name: &str, index_id: u64, column_count: u64, comment: &str) -> (r: Vec<String>)
    ensures
        r@.map_values(|s: String| s@) == seq![
            "索引 \""@ + name@ + seq!['"'],
            "  索引ID: "@ + text::decimal_seq(index_id as nat),
            "  列数: "@ + text::decimal_seq(column_count as nat),
        ] + (if comment@.len() > 0 { seq!["  注释: "@ + comment@] } else { Seq::empty() }),
{
    let mut lines: Vec<Vec<char>> = Vec::new();
    let mut t = str_chars("索引 \"");
    push_all(&mut t, &str_chars(name));
    t.push('"');
    assert(t@ =~= "索引 \""@ + name@ + seq!['"']);
    lines.push(t);
    lines.push(numbered_line("  索引ID: ", index_id));
    lines.push(numbered_line("  列数: ", column_count));
    let ghost first = lines.deep_view();
    assert(first =~= seq![
        "索引 \""@ + name@ + seq!['"'],
        "  索引ID: "@ + text::decimal_seq(index_id as nat),
        "  列数: "@ + text::decimal_seq(column_count as nat),
    ]);
    let cc = str_chars(comment);
    if cc.len() > 0 {
        let mut c = str_chars("  注释: ");
        push_all(&mut c, &cc);
        lines.push(c);
        assert(lines.deep_view() =~= first + seq!["  注释: "@ + comment@]);
    } else {
        assert(lines.deep_view() =~= first + Seq::<Seq<char>>::empty());
    }
    assert(lines.deep_view() =~= seq![
        "索引 \""@ + name@ + seq!['"'],
        "  索引ID: "@ + text::decimal_seq(index_id as nat),
        "  列数: "@ + text::decimal_seq(column_count as nat),
    ] + (if comment@.len() > 0 { seq!["  注释: "@ + comment@] } else { Seq::empty() }));
    text::strings_from_char_vecs(&lines)
}

/// Each name as `{indent}- {name}`.
pub open spec fn bullet_lines(indent: Seq<char>, names: Seq<Seq<char>>) -> Seq<Seq<char>> {
    names.map_values(|n: Seq<char>| indent + "- "@ + n)
}

fn push_bullets(lines: &mut Vec<Vec<char>>, indent: &str, names: &Vec<String>)
    ensures
        final(lines).deep_view() == old(lines).deep_view() + bullet_lines(indent@, names@.map_values(|s: String| s@)),
{
    let ghost start = lines.deep_view();
    let ghost nv = names@.map_values(|s: String| s@);
    let mut i: usize = 0;
    while i < names.len()
        invariant
            i <= names.len(),
            nv == names@.map_values(|s: String| s@),
            lines.deep_view() == start + bullet_lines(indent@, nv.take(i as int)),
        decreases names.len() - i,
    {
        let mut l = str_chars(indent);
        push_all(&mut l, &str_chars("- "));
        push_all(&mut l, &str_chars(names[i].as_str()));
        let ghost before = lines.deep_view();
        lines.push(l);
        assert(lines.deep_view() =~= before.push(indent@ + "- "@ + nv[i as int]));
        assert(bullet_lines(indent@, nv.take(i as int + 1)) =~= bullet_lines(indent@, nv.take(i as int)).push(
            indent@ + "- "@ + nv[i as int],
        ));
        i = i + 1;
    }
    assert(nv.take(names.len() as int) =~= nv);
}

/// The lines `\\di` prints: `没有找到索引`, or `所有全文索引:` and the names.
pub fn index_list_lines(names: &Vec<String>) -> (r: Vec<String>)
    ensures
        r@.map_values(|s: String| s@) == (if names.len() == 0 {
            seq!["没有找到索引"@]
        } else {
            seq!["所有全文索引:"@] + bullet_lines("  "@, names@.map_values(|s: String| s@))
        }),
{
    let mut lines: Vec<Vec<char>> = Vec::new();
    if names.len() == 0 {
        lines.push(str_chars("没有找到索引"));
    } else {
        lines.push(str_chars("所有全文索引:"));
        push_bullets(&mut lines, "  ", names);
    }
    text::strings_from_char_vecs(&lines)
}

/// The lines `\\dstats` prints: the total, then the names when there are any.
pub fn index_stats_lines(total: u64, names: &Vec<String>) -> (r: Vec<String>)
    ensures
        r@.map_values(|s: String| s@) == seq!["索引统计信息:"@, "  索引总数: "@ + text::decimal_seq(total as nat)] + (if names.len()
            == 0 {
            Seq::<Seq<char>>::empty()
        } else {
            seq!["  索引列表:"@] + bullet_lines("    "@, names@.map_values(|s: String| s@))
        }),
{
    let mut lines: Vec<Vec<char>> = Vec::new();
    lines.push(str_chars("索引统计信息:"));
    lines.push(numbered_line("  索引总数: ", total));
    if names.len() > 0 {
        lines.push(str_chars("  索引列表:"));
        push_bullets(&mut lines, "    ", names);
    }
    text::strings_from_char_vecs(&lines)
}

/// `s` without its trailing `c` characters (`trim_end_matches(c)`).
pub open spec fn trim_end_char(s: Seq<char>, c: char) -> Seq<char>
    decreases s.len(),
{
    if s.len() > 0 && s.last() == c {
        trim_end_char(s.drop_last(), c)
    } else {
        s
    }
}

fn trim_end_chars(s: &Vec<char>, c: char) -> (r: Vec<char>)
    ensures
        r@ == trim_end_char(s@, c),
{
    let mut n = s.len();
    assert(s@.subrange(0, n as int) =~= s@);
    while n > 0 && s[n - 1] == c
        invariant
            n <= s.len(),
            trim_end_char(s@, c) == trim_end_char(s@.subrange(0, n as int), c),
        decreases n,
    {
        assert(s@.subrange(0, n as int).drop_last() =~= s@.subrange(0, n - 1));
        n = n - 1;
    }
    text::chars_range(s, 0, n)
}

/// A fixed six-decimal rendering with its trailing zeros removed, and then
/// a trailing decimal point (how the client shows a fractional number).
pub fn trim_fraction_zeros(formatted: &str) -> (r: String)
    ensures
        r@ == trim_end_char(trim_end_char(formatted@, '0'), '.'),
{
    let c = str_chars(formatted);
    let z = trim_end_chars(&c, '0');
    string_from_chars(&trim_end_chars(&z, '.'))
}

/// One value of a query result row. A floating-point value arrives already
/// formatted for display.
pub enum SqlCell {
    Text(String),
    Int64(i64),
    FloatText(String),
    Bytes(usize),
    Bool(bool),
    Null,
}

/// The text shown for a value and whether it is numeric (right-aligned).
/// Long strings are cut to 50 characters plus `...`.
pub open spec fn cell_text(c: SqlCell) -> (Seq<char>, bool) {
    match c {
        SqlCell::Text(v) => (truncated(v@, 50), false),
        SqlCell::Int64(v) => (text::signed_decimal(v as int), true),
        SqlCell::FloatText(t) => (t@, true),
        SqlCell::Bytes(n) => ("<bytes:"@ + text::decimal_seq(n as nat) + seq!['>'], false),
        SqlCell::Bool(b) => (if b { "true"@ } else { "false"@ }, false),
        SqlCell::Null => ("NULL"@, false),
    }
}

/// The width a value claims in its column.
pub open spec fn cell_width(c: SqlCell) -> nat {
    match c {
        SqlCell::FloatText(t) => byte_len(t@),
        _ => cell_text(c).0.len(),
    }
}

/// The width of result column `i`: its name's byte length or the widest
/// value in that position, whichever is larger.
pub open spec fn result_col_width(name_len: nat, rows: Seq<Seq<SqlCell>>, i: int) -> nat
    decreases rows.len(),
{
    if rows.len() == 0 {
        name_len
    } else {
        let w = result_col_width(name_len, rows.drop_last(), i);
        let last = rows.last();
        if 0 <= i < last.len() && cell_width(last[i]) > w {
            cell_width(last[i])
        } else {
            w
        }
    }
}

/// All column widths of a result.
pub open spec fn result_widths(columns: Seq<Seq<char>>, rows: Seq<Seq<SqlCell>>) -> Seq<usize> {
    Seq::new(columns.len(), |i: int| result_col_width(byte_len(columns[i]), rows, i) as usize)
}

/// One data row: numbers right-aligned, everything else left-aligned.
pub open spec fn result_row(row: Seq<SqlCell>, w: Seq<usize>) -> Seq<char> {
    row_spec(
        Seq::new(
            row.len(),
            |i: int|
                aligned(
                    cell_text(row[i]).0,
                    w[i] as nat,
                    if cell_text(row[i]).1 { Align::Right } else { Align::Left },
                ),
        ),
    )
}

/// The lines printed for a query result.
pub open spec fn spec_result_lines(columns: Seq<Seq<char>>, rows: Seq<Seq<SqlCell>>) -> Seq<Seq<char>> {
    if rows.len() == 0 {
        seq!["查询成功，没有返回结果"@]
    } else {
        let w = result_widths(columns, rows);
        let sep = separator_spec(w);
        let header = row_spec(Seq::new(columns.len(), |i: int| aligned(columns[i], w[i] as nat, Align::Left)));
        seq![sep, header, sep] + rows.map_values(|r: Seq<SqlCell>| result_row(r, w)) + seq![
            sep,
            "("@ + text::decimal_seq(rows.len()) + " 行)"@,
        ]
    }
}

/// A boolean value is shown as `true` or `false` according to its value,
/// left-aligned; so its shown text gives the value back.
pub proof fn law_bool_cell_text(b: bool, c: bool)
    ensures
        cell_text(SqlCell::Bool(b)).0 == "true"@ <==> b,
        cell_text(SqlCell::Bool(b)).0 == "false"@ <==> !b,
        !cell_text(SqlCell::Bool(b)).1,
        cell_text(SqlCell::Bool(b)).0 == cell_text(SqlCell::Bool(c)).0 ==> b == c,
{
    reveal_strlit("true");
    reveal_strlit("false");
    assert("true"@.len() == 4 && "false"@.len() == 5);
}

/// The display text of a value and whether it is numeric.
pub fn cell_display(c: &SqlCell) -> (r: (Vec<char>, bool))
    ensures
        (r.0@, r.1) == cell_text(*c),
        *c matches SqlCell::Bool(b) ==> ((r.0@ == "true"@ <==> b) && (r.0@ == "false"@ <==> !b)),
{
    proof {
        if let SqlCell::Bool(b) = *c {
            law_bool_cell_text(b, b);
        }
    }
    match c {
        SqlCell::Text(v) => (str_chars(truncate_display(v.as_str(), 50).as_str()), false),
        SqlCell::Int64(v) => (i64_to_decimal(*v), true),
        SqlCell::FloatText(t) => (str_chars(t.as_str()), true),
        SqlCell::Bytes(n) => {
            let mut s = str_chars("<bytes:");
            push_all(&mut s, &text::u64_to_decimal(*n as u64));
            s.push('>');
            (s, false)
        },
        SqlCell::Bool(b) => {
            if *b {
                (str_chars("true"), false)
            } else {
                (str_chars("false"), false)
            }
        },
        SqlCell::Null => (str_chars("NULL"), false),
    }
}

fn cell_width_of(c: &SqlCell) -> (r: usize)
    ensures
        r == cell_width(*c),
{
    match c {
        SqlCell::FloatText(t) => t.as_str().as_bytes().len(),
        _ => {
            let (t, _) = cell_display(c);
            t.len()
        },
    }
}

/// The lines a query result prints: a framed table with the column names
/// and the rows, then the row count; or a note when there are no rows. No
/// row may hold more values than there are columns.
pub fn query_result_lines(columns: &Vec<String>, rows: &Vec<Vec<SqlCell>>) -> (r: Vec<String>)
    requires
        forall|k: int| 0 <= k < rows.len() ==> (#[trigger] rows@[k]).len() <= columns.len(),
    ensures
        r@.map_values(|s: String| s@) == spec_result_lines(columns@.map_values(|s: String| s@), rows@.map_values(|r: Vec<SqlCell>| r@)),
{
    let ghost cols = columns@.map_values(|s: String| s@);
    let ghost rs = rows@.map_values(|r: Vec<SqlCell>| r@);
    let mut lines: Vec<Vec<char>> = Vec::new();
    if rows.len() == 0 {
        lines.push(str_chars("查询成功，没有返回结果"));
        assert(lines.deep_view() =~= spec_result_lines(cols, rs));
        return text::strings_from_char_vecs(&lines);
    }
    let mut widths: Vec<usize> = Vec::new();
    let mut c: usize = 0;
    while c < columns.len()
        invariant
            c <= columns.len(),
            cols == columns@.map_values(|s: String| s@),
            rs == rows@.map_values(|r: Vec<SqlCell>| r@),
            widths@.len() == c,
            forall|k: int| 0 <= k < c ==> widths@[k] == byte_len(cols[k]),
        decreases columns.len() - c,
    {
        widths.push(columns[c].as_str().as_bytes().len());
        c = c + 1;
    }
    let mut r: usize = 0;
    while r < rows.len()
        invariant
            r <= rows.len(),
            cols == columns@.map_values(|s: String| s@),
            rs == rows@.map_values(|r: Vec<SqlCell>| r@),
            forall|k: int| 0 <= k < rows.len() ==> (#[trigger] rows@[k]).len() <= columns.len(),
            widths@.len() == columns.len(),
            forall|k: int| 0 <= k < columns.len() ==> widths@[k] == result_col_width(byte_len(cols[k]), rs.subrange(0, r as int), k),
        decreases rows.len() - r,
    {
        let row = &rows[r];
        let ghost old_w = widths@;
        assert(rs[r as int] == row@);
        let mut i: usize = 0;
        while i < row.len()
            invariant
                i <= row.len(),
                row.len() <= columns.len(),
                widths@.len() == columns.len(),
                old_w.len() == columns.len(),
                forall|k: int| i <= k < columns.len() ==> widths@[k] == old_w[k],
                forall|k: int| 0 <= k < i ==> widths@[k] == (if cell_width(row@[k]) > old_w[k] { cell_width(row@[k]) } else { old_w[k] as nat }),
            decreases row.len() - i,
        {
            let cw = cell_width_of(&row[i]);
            if cw > widths[i] {
                widths.set(i, cw);
            }
            i = i + 1;
        }
        proof {
            assert forall|k: int| 0 <= k < columns.len() implies widths@[k] == result_col_width(byte_len(cols[k]), rs.subrange(0, r + 1), k) by {
                let sub = rs.subrange(0, r + 1);
                assert(sub.drop_last() =~= rs.subrange(0, r as int));
                assert(sub.last() == row@);
                assert(old_w[k] == result_col_width(byte_len(cols[k]), rs.subrange(0, r as int), k));
            }
        }
        r = r + 1;
    }
    assert(rs.subrange(0, r as int) =~= rs);
    let ghost wv = widths@;
    assert(wv =~= result_widths(cols, rs));
    let sep = separator_line(&widths);
    let mut head: Vec<Vec<char>> = Vec::new();
    let mut i: usize = 0;
    while i < columns.len()
        invariant
            i <= columns.len(),
            cols == columns@.map_values(|s: String| s@),
            wv == widths@,
            widths@.len() == columns.len(),
            head.deep_view() == Seq::new(i as nat, |k: int| aligned(cols[k], wv[k] as nat, Align::Left)),
        decreases columns.len() - i,
    {
        let cell = align_cell(&str_chars(columns[i].as_str()), widths[i], Align::Left);
        let ghost before = head.deep_view();
        let ghost cv = cell@;
        assert(cols[i as int] == columns@[i as int]@);
        head.push(cell);
        assert(head.deep_view() =~= before.push(cv));
        assert(head.deep_view() =~= Seq::new((i + 1) as nat, |k: int| aligned(cols[k], wv[k] as nat, Align::Left)));
        i = i + 1;
    }
    let hr = table_row(&head);
    let ghost hrv = hr@;
    lines.push(sep.clone());
    lines.push(hr);
    lines.push(sep.clone());
    let ghost fixed = lines.deep_view();
    assert(fixed =~= seq![sep@, hrv, sep@]);
    let mut j: usize = 0;
    while j < rows.len()
        invariant
            j <= rows.len(),
            rs == rows@.map_values(|r: Vec<SqlCell>| r@),
            wv == widths@,
            widths@.len() == columns.len(),
            forall|k: int| 0 <= k < rows.len() ==> (#[trigger] rows@[k]).len() <= columns.len(),
            lines.deep_view() == fixed + rs.subrange(0, j as int).map_values(|r: Seq<SqlCell>| result_row(r, wv)),
        decreases rows.len() - j,
    {
        let row = &rows[j];
        let mut cells: Vec<Vec<char>> = Vec::new();
        let mut k: usize = 0;
        while k < row.len()
            invariant
                k <= row.len(),
                row.len() <= widths.len(),
                wv == widths@,
                cells.deep_view() == Seq::new(k as nat, |m: int| aligned(cell_text(row@[m]).0, wv[m] as nat, if cell_text(row@[m]).1 { Align::Right } else { Align::Left })),
            decreases row.len() - k,
        {
            let (t, numeric) = cell_display(&row[k]);
            let a = if numeric { Align::Right } else { Align::Left };
            let cell = align_cell(&t, widths[k], a);
            let ghost before = cells.deep_view();
            let ghost cv = cell@;
            cells.push(cell);
            assert(cells.deep_view() =~= before.push(cv));
            assert(cells.deep_view() =~= Seq::new((k + 1) as nat, |m: int| aligned(cell_text(row@[m]).0, wv[m] as nat, if cell_text(row@[m]).1 { Align::Right } else { Align::Left })));
            k = k + 1;
        }
        let line = table_row(&cells);
        let ghost lv = line@;
        assert(rs[j as int] == row@);
        assert(lv == result_row(rs[j as int], wv));
        let ghost before = lines.deep_view();
        lines.push(line);
        assert(lines.deep_view() =~= before.push(lv));
        assert(rs.subrange(0, j + 1).map_values(|r: Seq<SqlCell>| result_row(r, wv)) =~= rs.subrange(0, j as int).map_values(|r: Seq<SqlCell>| result_row(r, wv)).push(lv));
        j = j + 1;
    }
    let ghost mapped = rs.map_values(|r: Seq<SqlCell>| result_row(r, wv));
    assert(rs.subrange(0, j as int) =~= rs);
    let ghost sepv = sep@;
    lines.push(sep);
    let mut foot = str_chars("(");
    push_all(&mut foot, &text::u64_to_decimal(rows.len() as u64));
    push_all(&mut foot, &str_chars(" 行)"));
    lines.push(foot);
    assert(lines.deep_view() =~= fixed + mapped + seq![sepv, foot@]);
    assert(hrv == row_spec(Seq::new(cols.len(), |i: int| aligned(cols[i], wv[i] as nat, Align::Left))));
    assert(lines.deep_view() =~= spec_result_lines(cols, rs));
    text::strings_from_char_vecs(&lines)
}

} // verus!
