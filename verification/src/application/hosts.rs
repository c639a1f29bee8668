//! SSH hosts: which ones the configuration names, what OpenSSH says of them, and how a
//! connection test went.
use crate::domain::host;
use crate::domain::host::HostAlias;
use crate::domain::validation;
use crate::domain::validation::ValidationError;
use crate::path;
use crate::text;
use vstd::prelude::*;
use vstd::slice::slice_subrange;
use vstd::string::*;

verus! {

pub const MAX_CONFIG_FILES: usize = 256;

pub const MAX_INCLUDE_DEPTH: usize = 32;

pub const MAX_DIAGNOSTIC_BYTES: usize = 65536;

/// Seconds until a query of the effective configuration is given up.
pub const QUERY_TIMEOUT_SECONDS: u64 = 5;

/// Seconds until a connection test is given up.
pub const CONNECTION_TIMEOUT_SECONDS: u64 = 15;

#[derive(Debug, PartialEq, Eq)]
pub struct HostDiscovery {
    pub aliases: Vec<String>,
    pub warnings: Vec<DiscoveryWarning>,
}

#[derive(Debug, PartialEq, Eq)]
pub struct DiscoveryWarning {
    pub path: Vec<u8>,
    pub kind: DiscoveryWarningKind,
}

#[derive(Clone, Copy, Debug, PartialEq, Eq, Structural)]
pub enum DiscoveryWarningKind {
    Missing,
    Unreadable,
    InvalidIncludePattern,
}

#[derive(Debug, PartialEq, Eq)]
pub struct EffectiveHost {
    pub alias: String,
    pub hostname: String,
    pub user: String,
    pub port: u16,
    pub identity_files: Vec<String>,
    pub proxy_jump: Option<String>,
    pub proxy_command: Option<String>,
}

#[derive(Clone, Copy, Debug, PartialEq, Eq, Structural)]
pub enum ConnectionOutcome {
    Success,
    AuthenticationFailed,
    HostKeyVerificationFailed,
    NetworkFailed,
    TimedOut,
    Failed,
}

impl ConnectionOutcome {
    pub open spec fn shown(self) -> Seq<char> {
        match self {
            ConnectionOutcome::Success => "connection succeeded"@,
            ConnectionOutcome::AuthenticationFailed =>
            "authentication failed; check the configured key or SSH agent"@,
            ConnectionOutcome::HostKeyVerificationFailed =>
            "host-key verification failed; establish or repair trust with OpenSSH outside TunnelDeck"@,
            ConnectionOutcome::NetworkFailed => "the SSH host could not be reached"@,
            ConnectionOutcome::TimedOut => "the SSH connection test timed out"@,
            ConnectionOutcome::Failed =>
            "the SSH connection test failed; run OpenSSH directly for more detail"@,
        }
    }

    pub fn diagnostic(self) -> (r: &'static str)
        ensures
            r@ == self.shown(),
    {
        match self {
            ConnectionOutcome::Success => "connection succeeded",
            ConnectionOutcome::AuthenticationFailed => {
                "authentication failed; check the configured key or SSH agent"
            },
            ConnectionOutcome::HostKeyVerificationFailed => {
                "host-key verification failed; establish or repair trust with OpenSSH outside TunnelDeck"
            },
            ConnectionOutcome::NetworkFailed => "the SSH host could not be reached",
            ConnectionOutcome::TimedOut => "the SSH connection test timed out",
            ConnectionOutcome::Failed => {
                "the SSH connection test failed; run OpenSSH directly for more detail"
            },
        }
    }
}

/// Which bound a traversal of configuration files ran into.
#[derive(Clone, Copy, Debug, PartialEq, Eq, Structural)]
pub enum TraversalKind {
    IncludeDepth,
    FileCount,
}

#[derive(Debug)]
pub enum HostError {
    InvalidAlias(ValidationError),
    TraversalLimit { kind: TraversalKind, limit: usize },
    Spawn(String),
    QueryTimedOut,
    QueryFailed,
    InvalidEffectiveConfiguration,
}

pub open spec fn traversal_name(kind: TraversalKind) -> Seq<char> {
    match kind {
        TraversalKind::IncludeDepth => "include-depth"@,
        TraversalKind::FileCount => "file-count"@,
    }
}

impl HostError {
    pub open spec fn shown(self) -> Seq<char> {
        match self {
            HostError::InvalidAlias(error) => "SSH host alias is invalid: "@
                + validation::refusal_message(error@),
            HostError::TraversalLimit { kind, limit } => "SSH config traversal exceeded the "@
                + text::decimal(limit as nat) + " "@ + traversal_name(kind) + " limit"@,
            HostError::Spawn(_) => "could not start OpenSSH"@,
            HostError::QueryTimedOut => "OpenSSH effective-configuration query timed out"@,
            HostError::QueryFailed => "OpenSSH could not resolve effective configuration"@,
            HostError::InvalidEffectiveConfiguration =>
            "OpenSSH returned invalid effective configuration"@,
        }
    }

    pub fn to_string(&self) -> (r: String)
        ensures
            r@ == self.shown(),
    {
        match self {
            HostError::InvalidAlias(error) => text::joined(
                "SSH host alias is invalid: ",
                error.to_string().as_str(),
            ),
            HostError::TraversalLimit { kind, limit } => {
                let mut out = "SSH config traversal exceeded the ".to_owned();
                text::push_decimal(&mut out, *limit as u64);
                out.append(" ");
                out.append(
                    match kind {
                        TraversalKind::IncludeDepth => "include-depth",
                        TraversalKind::FileCount => "file-count",
                    },
                );
                out.append(" limit");
                out
            },
            HostError::Spawn(_) => "could not start OpenSSH".to_owned(),
            HostError::QueryTimedOut => "OpenSSH effective-configuration query timed out".to_owned(),
            HostError::QueryFailed => {
                "OpenSSH could not resolve effective configuration".to_owned()
            },
            HostError::InvalidEffectiveConfiguration => {
                "OpenSSH returned invalid effective configuration".to_owned()
            },
        }
    }
}

// ---------------------------------------------------------------------------
// Lines and words of a configuration file
// ---------------------------------------------------------------------------
/// A backslash at the end of a line joins the next line to it.
pub open spec fn join_line(p: text::Pieces, line: Seq<char>) -> text::Pieces {
    let joined = p.current + line;
    if joined.len() > 0 && joined.last() == '\\' {
        text::Pieces { done: p.done, current: joined.drop_last() }
    } else {
        text::Pieces { done: p.done.push(joined), current: Seq::empty() }
    }
}

pub open spec fn join_lines(lines: Seq<Seq<char>>) -> text::Pieces
    decreases lines.len(),
{
    if lines.len() == 0 {
        text::no_pieces()
    } else {
        join_line(join_lines(lines.drop_last()), lines.last())
    }
}

/// The lines of a file after continued lines are joined.
pub open spec fn logical_lines_of(s: Seq<char>) -> Seq<Seq<char>> {
    let p = join_lines(text::lines(s));
    if p.current.len() > 0 {
        p.done.push(p.current)
    } else {
        p.done
    }
}

/// How far the words of a line have been read.
#[verifier::ext_equal]
pub struct Reading {
    pub words: Seq<Seq<char>>,
    pub word: Seq<char>,
    pub quote: Option<char>,
    pub escaped: bool,
    pub comment: bool,
}

/// White space and `=` separate words. Quotes of either kind and backslashes take away the
/// meaning of what they cover. A number sign starts a comment.
pub open spec fn read_char(r: Reading, c: char) -> Reading {
    if r.comment {
        r
    } else if r.escaped {
        Reading { word: r.word.push(c), escaped: false, ..r }
    } else if c == '\\' {
        Reading { escaped: true, ..r }
    } else if r.quote == Some(c) {
        Reading { quote: None, ..r }
    } else if r.quote is None && (c == '\'' || c == '"') {
        Reading { quote: Some(c), ..r }
    } else if r.quote is None && c == '#' {
        Reading { comment: true, ..r }
    } else if r.quote is None && (text::white_space(c) || c == '=') {
        if r.word.len() > 0 {
            Reading { words: r.words.push(r.word), word: Seq::empty(), ..r }
        } else {
            r
        }
    } else {
        Reading { word: r.word.push(c), ..r }
    }
}

pub open spec fn read_line(s: Seq<char>) -> Reading
    decreases s.len(),
{
    if s.len() == 0 {
        Reading {
            words: Seq::empty(),
            word: Seq::empty(),
            quote: None,
            escaped: false,
            comment: false,
        }
    } else {
        read_char(read_line(s.drop_last()), s.last())
    }
}

/// The words of a line. A backslash at its very end stands for itself.
pub open spec fn words_of(s: Seq<char>) -> Seq<Seq<char>> {
    let r = read_line(s);
    let word = if r.escaped {
        r.word.push('\\')
    } else {
        r.word
    };
    if word.len() > 0 {
        r.words.push(word)
    } else {
        r.words
    }
}

/// White space and `=`.
pub open spec fn separates(c: char) -> bool {
    text::white_space(c) || c == '='
}

/// Neither quotes nor a backslash nor a number sign.
pub open spec fn is_plain(s: Seq<char>) -> bool {
    forall|i: int|
        0 <= i < s.len() ==> #[trigger] s[i] != '\\' && s[i] != '\'' && s[i] != '"' && s[i] != '#'
}

/// How many characters stand before the first that separates words.
pub open spec fn run_length(s: Seq<char>) -> nat
    decreases s.len(),
{
    if s.len() == 0 || separates(s[0]) {
        0
    } else {
        1 + run_length(s.drop_first())
    }
}

/// The longest runs of characters that do not separate words, in order.
pub open spec fn plain_words(s: Seq<char>) -> Seq<Seq<char>>
    decreases s.len(),
{
    if s.len() == 0 {
        Seq::empty()
    } else if separates(s[0]) {
        plain_words(s.drop_first())
    } else {
        proof {
            run_is_part(s);
        }
        seq![s.take(run_length(s) as int)] + plain_words(s.skip(run_length(s) as int))
    }
}

/// The run at the start of a text holds nothing that separates words, and cannot be longer.
pub proof fn run_is_part(s: Seq<char>)
    ensures
        run_length(s) <= s.len(),
        forall|i: int| 0 <= i < run_length(s) ==> !separates(#[trigger] s[i]),
        run_length(s) < s.len() ==> separates(s[run_length(s) as int]),
    decreases s.len(),
{
    if s.len() > 0 && !separates(s[0]) {
        let rest = s.drop_first();
        run_is_part(rest);
        assert forall|i: int| 0 <= i < run_length(s) implies !separates(#[trigger] s[i]) by {
            if i > 0 {
                assert(rest[i - 1] == s[i]);
            }
        }
    }
}

/// The run at the start of `s` is the first one that nothing separates.
proof fn run_is_known(s: Seq<char>, n: nat)
    requires
        n <= s.len(),
        forall|i: int| 0 <= i < n ==> !separates(#[trigger] s[i]),
        n < s.len() ==> separates(s[n as int]),
    ensures
        run_length(s) == n,
{
    run_is_part(s);
    let m = run_length(s);
    if m < n {
        assert(!separates(s[m as int]));
    }
}

/// The words once one more character stands at the end.
pub open spec fn words_with(words: Seq<Seq<char>>, joins: bool, c: char) -> Seq<Seq<char>> {
    if separates(c) {
        words
    } else if joins && words.len() > 0 {
        words.drop_last().push(words.last().push(c))
    } else {
        words.push(seq![c])
    }
}

/// A word is at the end of `s`.
pub open spec fn ends_in_word(s: Seq<char>) -> bool {
    s.len() > 0 && !separates(s.last())
}

proof fn one_more_character(s: Seq<char>, c: char)
    ensures
        plain_words(s.push(c)) == words_with(plain_words(s), ends_in_word(s), c),
        ends_in_word(s) ==> plain_words(s).len() > 0,
    decreases s.len(),
{
    let more = s.push(c);
    if s.len() == 0 {
        assert(more.drop_first() =~= Seq::<char>::empty());
        if separates(c) {
            assert(plain_words(more.drop_first()) == Seq::<Seq<char>>::empty());
        } else {
            run_is_known(more, 1);
            assert(more.take(1) =~= seq![c]);
            assert(more.skip(1) =~= Seq::<char>::empty());
            assert(plain_words(more.skip(1)) == Seq::<Seq<char>>::empty());
            assert(plain_words(more) =~= seq![seq![c]]);
            assert(Seq::<Seq<char>>::empty().push(seq![c]) =~= seq![seq![c]]);
        }
    } else if separates(s[0]) {
        let rest = s.drop_first();
        assert(more.drop_first() =~= rest.push(c));
        one_more_character(rest, c);
        if rest.len() > 0 {
            assert(rest.last() == s.last());
        } else {
            assert(s.last() == s[0]);
        }
    } else {
        run_is_part(s);
        let n = run_length(s);
        let first = s.take(n as int);
        let rest = s.skip(n as int);
        assert(n > 0);
        if n < s.len() {
            run_is_known(more, n);
            assert(more.take(n as int) =~= first);
            assert(more.skip(n as int) =~= rest.push(c));
            one_more_character(rest, c);
            assert(rest.last() == s.last());
            let words = plain_words(rest);
            assert(plain_words(s) == seq![first] + words);
            if ends_in_word(s) && !separates(c) {
                assert((seq![first] + words).drop_last() =~= seq![first] + words.drop_last());
                assert(seq![first] + words.drop_last().push(words.last().push(c)) =~= (
                seq![first] + words.drop_last()).push(words.last().push(c)));
            } else if !separates(c) {
                assert(seq![first] + words.push(seq![c]) =~= (seq![first] + words).push(seq![c]));
            }
        } else {
            assert(first =~= s);
            assert(rest =~= Seq::<char>::empty());
            assert(plain_words(s) =~= seq![s]);
            assert(s.last() == s[n - 1]);
            if separates(c) {
                run_is_known(more, n);
                assert(more.take(n as int) =~= s);
                assert(more.skip(n as int) =~= Seq::<char>::empty().push(c));
                one_more_character(Seq::empty(), c);
                assert(plain_words(more) =~= seq![s]);
            } else {
                run_is_known(more, n + 1);
                assert(more.take(n as int + 1) =~= more);
                assert(more.skip(n as int + 1) =~= Seq::<char>::empty());
                assert(plain_words(more) =~= seq![more]);
                assert(seq![s].drop_last().push(seq![s].last().push(c)) =~= seq![more]);
            }
        }
    }
}

proof fn plain_lines_are_read_in_runs(s: Seq<char>)
    requires
        is_plain(s),
    ensures
        ({
            let r = read_line(s);
            &&& r.quote is None && !r.escaped && !r.comment
            &&& words_of(s) == plain_words(s)
            &&& r.word.len() > 0 <==> ends_in_word(s)
        }),
    decreases s.len(),
{
    if s.len() > 0 {
        let earlier = s.drop_last();
        let c = s.last();
        assert forall|i: int| 0 <= i < earlier.len() implies #[trigger] earlier[i] != '\\'
            && earlier[i] != '\'' && earlier[i] != '"' && earlier[i] != '#' by {
            assert(earlier[i] == s[i]);
        }
        assert(s[s.len() - 1] == c);
        plain_lines_are_read_in_runs(earlier);
        one_more_character(earlier, c);
        assert(earlier.push(c) =~= s);
        let before = read_line(earlier);
        let after = read_line(s);
        if !separates(c) {
            if before.word.len() > 0 {
                assert(words_of(earlier).drop_last() =~= before.words);
            } else {
                assert(after.word =~= seq![c]);
            }
        }
    }
}

proof fn comment_hides(line: Seq<char>, rest: Seq<char>)
    requires
        read_line(line).comment,
    ensures
        read_line(line + rest) == read_line(line),
    decreases rest.len(),
{
    if rest.len() == 0 {
        assert(line + rest =~= line);
    } else {
        comment_hides(line, rest.drop_last());
        assert((line + rest).drop_last() =~= line + rest.drop_last());
    }
}

/// Outside of quotes, a number sign that no backslash covers ends the line: it and what follows
/// change nothing.
pub proof fn comment_ends_the_line(line: Seq<char>, rest: Seq<char>)
    requires
        read_line(line).quote is None,
        !read_line(line).escaped,
    ensures
        words_of(line + seq!['#'] + rest) == words_of(line),
{
    let marked = line + seq!['#'];
    assert(marked.drop_last() =~= line);
    assert(marked.last() == '#');
    comment_hides(marked, rest);
}

/// A line without quotes, backslashes and number signs is split at white space and `=`, and a
/// comment behind it changes nothing.
pub proof fn plain_lines_split_at_separators(line: Seq<char>, rest: Seq<char>)
    requires
        is_plain(line),
    ensures
        words_of(line) == plain_words(line),
        words_of(line + seq!['#'] + rest) == plain_words(line),
{
    plain_lines_are_read_in_runs(line);
    comment_ends_the_line(line, rest);
}

proof fn read_words_are_not_empty(s: Seq<char>)
    ensures
        forall|i: int| 0 <= i < read_line(s).words.len() ==> (#[trigger] read_line(s).words[i]).len()
            > 0,
    decreases s.len(),
{
    if s.len() > 0 {
        read_words_are_not_empty(s.drop_last());
    }
}

/// No word is empty, whatever the line holds.
pub proof fn no_word_is_empty(s: Seq<char>, i: int)
    requires
        0 <= i < words_of(s).len(),
    ensures
        words_of(s)[i].len() > 0,
{
    read_words_are_not_empty(s);
    if i < read_line(s).words.len() {
        assert(words_of(s)[i] == read_line(s).words[i]);
    }
}

/// Joins the lines of a file that end in a backslash with those after them.
pub fn logical_lines(s: &str) -> (out: Vec<Vec<char>>)
    ensures
        text::runs(out@) == logical_lines_of(s@),
{
    let chars = text::chars_of(s);
    let lines = text::split_lines(chars.as_slice());
    let ghost all = text::runs(lines@);
    let mut done: Vec<Vec<char>> = Vec::new();
    let mut current: Vec<char> = Vec::new();
    let mut i: usize = 0;
    assert(all.take(0) =~= Seq::<Seq<char>>::empty());
    assert(text::runs(done@) =~= Seq::<Seq<char>>::empty());
    while i < lines.len()
        invariant
            i <= lines@.len(),
            all == text::runs(lines@),
            join_lines(all.take(i as int)) == (text::Pieces {
                done: text::runs(done@),
                current: current@,
            }),
        decreases lines.len() - i,
    {
        assert(all.take(i as int + 1).drop_last() =~= all.take(i as int));
        assert(all.take(i as int + 1).last() == lines@[i as int]@);
        let ghost before = current@;
        let mut j: usize = 0;
        while j < lines[i as usize].len()
            invariant
                i < lines@.len(),
                j <= lines@[i as int]@.len(),
                current@ =~= before + lines@[i as int]@.take(j as int),
            decreases lines@[i as int]@.len() - j,
        {
            current.push(lines[i][j]);
            j = j + 1;
        }
        assert(current@ =~= before + lines@[i as int]@);
        let ghost joined = current@;
        if current.len() > 0 && current[current.len() - 1] == '\\' {
            current.pop();
            assert(current@ =~= joined.drop_last());
        } else {
            proof {
                text::runs_push(done@, current);
            }
            done.push(current);
            current = Vec::new();
            assert(current@ =~= Seq::<char>::empty());
        }
        i = i + 1;
    }
    assert(all.take(all.len() as int) =~= all);
    if current.len() > 0 {
        proof {
            text::runs_push(done@, current);
        }
        done.push(current);
    }
    done
}

/// Splits a line of a configuration file into words.
pub fn split_words(line: &[char]) -> (out: Vec<Vec<char>>)
    ensures
        text::runs(out@) == words_of(line@),
{
    let mut words: Vec<Vec<char>> = Vec::new();
    let mut word: Vec<char> = Vec::new();
    let mut quote: Option<char> = None;
    let mut escaped = false;
    let mut comment = false;
    let mut i: usize = 0;
    assert(line@.take(0) =~= Seq::<char>::empty());
    assert(text::runs(words@) =~= Seq::<Seq<char>>::empty());
    while i < line.len()
        invariant
            i <= line@.len(),
            read_line(line@.take(i as int)) == (Reading {
                words: text::runs(words@),
                word: word@,
                quote,
                escaped,
                comment,
            }),
        decreases line.len() - i,
    {
        assert(line@.take(i as int + 1).drop_last() =~= line@.take(i as int));
        assert(line@.take(i as int + 1).last() == line@[i as int]);
        let c = line[i];
        let open = quote.is_none();
        let closes = match quote {
            Some(mark) => mark == c,
            None => false,
        };
        if comment {
        } else if escaped {
            word.push(c);
            escaped = false;
        } else if c == '\\' {
            escaped = true;
        } else if closes {
            quote = None;
        } else if open && (c == '\'' || c == '"') {
            quote = Some(c);
        } else if open && c == '#' {
            comment = true;
        } else if open && (text::is_white_space(c) || c == '=') {
            if word.len() > 0 {
                proof {
                    text::runs_push(words@, word);
                }
                words.push(word);
                word = Vec::new();
                assert(word@ =~= Seq::<char>::empty());
            }
        } else {
            word.push(c);
        }
        i = i + 1;
    }
    assert(line@.take(line@.len() as int) =~= line@);
    if escaped {
        word.push('\\');
    }
    if word.len() > 0 {
        proof {
            text::runs_push(words@, word);
        }
        words.push(word);
    }
    words
}

// ---------------------------------------------------------------------------
// What a configuration file asks for
// ---------------------------------------------------------------------------
/// A file names a host, or asks for other files.
pub enum Step {
    Alias(Seq<char>),
    Open(Seq<char>),
}

pub open spec fn pattern_char(c: char) -> bool {
    c == '*' || c == '?' || c == '['
}

pub open spec fn has_pattern(s: Seq<char>) -> bool {
    exists|i: int| 0 <= i < s.len() && pattern_char(#[trigger] s[i])
}

/// The word is the name of one host: no negation, no pattern, and a valid alias.
pub open spec fn exact_alias(s: Seq<char>) -> bool {
    &&& !(s.len() > 0 && s[0] == '!')
    &&& !has_pattern(s)
    &&& host::alias_refusal(s) is None
}

/// The keyword of a line that asks for other files.
pub open spec fn open_keyword() -> Seq<char> {
    seq!['i', 'n', 'c', 'l', 'u', 'd', 'e']
}

pub open spec fn steps_of_words(words: Seq<Seq<char>>) -> Seq<Step>
    decreases words.len(),
{
    if words.len() <= 1 {
        Seq::empty()
    } else {
        let earlier = steps_of_words(words.drop_last());
        let keyword = text::lowered(words[0]);
        if keyword == "host"@ {
            if exact_alias(words.last()) {
                earlier.push(Step::Alias(words.last()))
            } else {
                earlier
            }
        } else if keyword == open_keyword() {
            earlier.push(Step::Open(words.last()))
        } else {
            earlier
        }
    }
}

pub open spec fn steps_of_lines(lines: Seq<Seq<char>>) -> Seq<Step>
    decreases lines.len(),
{
    if lines.len() == 0 {
        Seq::empty()
    } else {
        steps_of_lines(lines.drop_last()) + steps_of_words(words_of(lines.last()))
    }
}

/// What a file asks for, in order.
pub open spec fn steps_of_file(s: Seq<char>) -> Seq<Step> {
    steps_of_lines(logical_lines_of(s))
}

/// A step of a file that is being read.
#[derive(Debug)]
enum FileStep {
    Alias(String),
    Open(String),
}

impl FileStep {
    spec fn shown(self) -> Step {
        match self {
            FileStep::Alias(name) => Step::Alias(name@),
            FileStep::Open(value) => Step::Open(value@),
        }
    }
}

spec fn shown_steps(list: Seq<FileStep>) -> Seq<Step> {
    list.map_values(|s: FileStep| s.shown())
}

fn any_pattern(s: &[char]) -> (r: bool)
    ensures
        r == has_pattern(s@),
{
    let mut i: usize = 0;
    while i < s.len()
        invariant
            i <= s@.len(),
            forall|k: int| 0 <= k < i ==> !pattern_char(#[trigger] s@[k]),
        decreases s.len() - i,
    {
        if s[i] == '*' || s[i] == '?' || s[i] == '[' {
            assert(pattern_char(s@[i as int]));
            return true;
        }
        i = i + 1;
    }
    false
}

fn is_exact_alias(s: &[char], word: &str) -> (r: bool)
    requires
        s@ == word@,
    ensures
        r == exact_alias(s@),
{
    !(s.len() > 0 && s[0] == '!') && !any_pattern(s) && HostAlias::new(word).is_ok()
}

fn push_steps(steps: &mut Vec<FileStep>, words: &Vec<Vec<char>>)
    ensures
        shown_steps(final(steps)@) == shown_steps(old(steps)@) + steps_of_words(
            text::runs(words@),
        ),
{
    let ghost start = shown_steps(steps@);
    let ghost all = text::runs(words@);
    if words.len() == 0 {
        assert(start + steps_of_words(all) =~= start);
        return ;
    }
    let keyword = text::lowered_chars(words[0].as_slice());
    let host_word = text::chars_of("host");
    let open_word: Vec<char> = vec!['i', 'n', 'c', 'l', 'u', 'd', 'e'];
    assert(open_word@ =~= open_keyword());
    let names_hosts = text::same_chars(keyword.as_slice(), host_word.as_slice());
    let opens_files = text::same_chars(keyword.as_slice(), open_word.as_slice());
    let mut i: usize = 1;
    assert(all.take(1).len() == 1);
    assert(start + steps_of_words(all.take(1)) =~= start);
    while i < words.len()
        invariant
            1 <= i <= words@.len(),
            all == text::runs(words@),
            names_hosts == (text::lowered(all[0]) == "host"@),
            opens_files == (text::lowered(all[0]) == open_keyword()),
            shown_steps(steps@) =~= start + steps_of_words(all.take(i as int)),
        decreases words.len() - i,
    {
        assert(all.take(i as int + 1).drop_last() =~= all.take(i as int));
        assert(all.take(i as int + 1).last() == words@[i as int]@);
        assert(all.take(i as int + 1)[0] == all[0]);
        let ghost before = steps@;
        let word = text::text_of(words[i].as_slice());
        if names_hosts {
            if is_exact_alias(words[i].as_slice(), word.as_str()) {
                let step = FileStep::Alias(word);
                assert(shown_steps(before.push(step)) =~= shown_steps(before).push(step.shown()));
                steps.push(step);
            }
        } else if opens_files {
            let step = FileStep::Open(word);
            assert(shown_steps(before.push(step)) =~= shown_steps(before).push(step.shown()));
            steps.push(step);
        }
        i = i + 1;
    }
    assert(all.take(all.len() as int) =~= all);
}

fn file_steps(s: &str) -> (steps: Vec<FileStep>)
    ensures
        shown_steps(steps@) == steps_of_file(s@),
{
    let lines = logical_lines(s);
    let ghost all = text::runs(lines@);
    let mut steps: Vec<FileStep> = Vec::new();
    let mut i: usize = 0;
    assert(all.take(0) =~= Seq::<Seq<char>>::empty());
    assert(shown_steps(steps@) =~= Seq::<Step>::empty());
    while i < lines.len()
        invariant
            i <= lines@.len(),
            all == text::runs(lines@),
            shown_steps(steps@) == steps_of_lines(all.take(i as int)),
        decreases lines.len() - i,
    {
        assert(all.take(i as int + 1).drop_last() =~= all.take(i as int));
        assert(all.take(i as int + 1).last() == lines@[i as int]@);
        let words = split_words(lines[i].as_slice());
        push_steps(&mut steps, &words);
        i = i + 1;
    }
    assert(all.take(all.len() as int) =~= all);
    steps
}

// ---------------------------------------------------------------------------
// Names in order
// ---------------------------------------------------------------------------
/// `a` stands before `b` in the order of code points.
pub open spec fn precedes(a: Seq<char>, b: Seq<char>) -> bool
    decreases a.len(),
{
    if b.len() == 0 {
        false
    } else if a.len() == 0 {
        true
    } else if a[0] != b[0] {
        (a[0] as u32) < (b[0] as u32)
    } else {
        precedes(a.drop_first(), b.drop_first())
    }
}

/// In ascending order, and therefore without repetitions.
pub open spec fn ascending(names: Seq<Seq<char>>) -> bool {
    forall|i: int, j: int|
        0 <= i < j < names.len() ==> precedes(#[trigger] names[i], #[trigger] names[j])
}

proof fn order_is_total(a: Seq<char>, b: Seq<char>)
    ensures
        a == b || precedes(a, b) || precedes(b, a),
        !precedes(a, a),
        !(precedes(a, b) && precedes(b, a)),
    decreases a.len(),
{
    if a.len() > 0 {
        order_is_total(a.drop_first(), a.drop_first());
    }
    if a.len() > 0 && b.len() > 0 {
        vstd::utf8::char_u32_cast(a[0], a[0] as u32);
        vstd::utf8::char_u32_cast(b[0], b[0] as u32);
    }
    if a.len() > 0 && b.len() > 0 && a[0] == b[0] {
        order_is_total(a.drop_first(), b.drop_first());
        if a.drop_first() == b.drop_first() {
            assert(a =~= seq![a[0]] + a.drop_first());
            assert(b =~= seq![b[0]] + b.drop_first());
            assert(a =~= b);
        }
    } else if a.len() == 0 && b.len() == 0 {
        assert(a =~= b);
    }
}

proof fn order_is_transitive(a: Seq<char>, b: Seq<char>, c: Seq<char>)
    requires
        precedes(a, b),
        precedes(b, c),
    ensures
        precedes(a, c),
    decreases a.len(),
{
    if a.len() > 0 && b.len() > 0 && c.len() > 0 && a[0] == b[0] && b[0] == c[0] {
        order_is_transitive(a.drop_first(), b.drop_first(), c.drop_first());
    }
}

fn name_precedes(a: &str, b: &str) -> (r: bool)
    ensures
        r == precedes(a@, b@),
{
    let x = text::chars_of(a);
    let y = text::chars_of(b);
    let mut i: usize = 0;
    assert(x@.skip(0) =~= x@);
    assert(y@.skip(0) =~= y@);
    while i < x.len() && i < y.len()
        invariant
            i <= x@.len(),
            i <= y@.len(),
            x@ == a@,
            y@ == b@,
            precedes(a@, b@) == precedes(x@.skip(i as int), y@.skip(i as int)),
        decreases x.len() - i,
    {
        let c: char = x[i];
        let d: char = y[i];
        if c != d {
            return (c as u32) < (d as u32);
        }
        assert(x@.skip(i as int).drop_first() =~= x@.skip(i as int + 1));
        assert(y@.skip(i as int).drop_first() =~= y@.skip(i as int + 1));
        i = i + 1;
    }
    i < y.len()
}

/// Puts a name in its place, if it is not there yet.
fn insert_name(names: &mut Vec<String>, name: &str)
    requires
        ascending(text::texts(old(names)@)),
    ensures
        ascending(text::texts(final(names)@)),
        text::texts(final(names)@).to_set() == text::texts(old(names)@).to_set().insert(name@),
{
    let ghost before = text::texts(names@);
    let mut i: usize = 0;
    while i < names.len() && name_precedes(names[i].as_str(), name)
        invariant
            i <= names@.len(),
            before == text::texts(names@),
            forall|k: int| 0 <= k < i ==> precedes(#[trigger] before[k], name@),
        decreases names.len() - i,
    {
        assert(before[i as int] == names@[i as int]@);
        i = i + 1;
    }
    proof {
        if i < names@.len() {
            assert(before[i as int] == names@[i as int]@);
        }
    }
    if i < names.len() && text::same(names[i].as_str(), name) {
        assert(before.contains(before[i as int]));
        assert(before.to_set().insert(name@) =~= before.to_set());
        return ;
    }
    let owned = name.to_owned();
    proof {
        let after = text::texts(names@.insert(i as int, owned));
        assert(after =~= before.insert(i as int, name@));
        if i < before.len() {
            order_is_total(before[i as int], name@);
            assert(precedes(name@, before[i as int]));
        }
        assert forall|a: int, b: int| 0 <= a < b < after.len() implies precedes(
            #[trigger] after[a],
            #[trigger] after[b],
        ) by {
            if a < i && b > i {
                assert(after[b] == before[b - 1]);
            } else if a == i {
                assert(after[b] == before[b - 1]);
                if b - 1 > i {
                    order_is_transitive(name@, before[i as int], before[b - 1]);
                }
            } else if a > i {
                assert(after[a] == before[a - 1]);
                assert(after[b] == before[b - 1]);
            }
        }
        assert(after.to_set() =~= before.to_set().insert(name@)) by {
            assert forall|x: Seq<char>| after.contains(x) <==> (before.contains(x) || x
                == name@) by {
                if after.contains(x) {
                    let k = choose|k: int| 0 <= k < after.len() && after[k] == x;
                    if k < i {
                        assert(before[k] == x);
                    } else if k > i {
                        assert(before[k - 1] == x);
                    }
                }
                if before.contains(x) {
                    let k = choose|k: int| 0 <= k < before.len() && before[k] == x;
                    if k < i {
                        assert(after[k] == x);
                    } else {
                        assert(after[k + 1] == x);
                    }
                }
                assert(after[i as int] == name@);
            }
        }
    }
    names.insert(i, owned);
}

// ---------------------------------------------------------------------------
// Following configuration files
// ---------------------------------------------------------------------------
/// What a path leads to.
#[derive(Debug)]
pub enum Canonical {
    Found(Vec<u8>),
    Missing,
    Unreadable,
}

/// Answers that are known so far. A later answer to a question replaces an earlier one.
#[derive(Debug)]
pub struct Answers<T> {
    entries: Vec<(Vec<u8>, T)>,
}

pub open spec fn answers_of<T>(entries: Seq<(Vec<u8>, T)>) -> Map<Seq<u8>, T>
    decreases entries.len(),
{
    if entries.len() == 0 {
        Map::empty()
    } else {
        answers_of(entries.drop_last()).insert(entries.last().0@, entries.last().1)
    }
}

impl<T> View for Answers<T> {
    type V = Map<Seq<u8>, T>;

    closed spec fn view(&self) -> Map<Seq<u8>, T> {
        answers_of(self.entries@)
    }
}

impl<T> Answers<T> {
    pub fn new() -> (r: Self)
        ensures
            r@ == Map::<Seq<u8>, T>::empty(),
    {
        Answers { entries: Vec::new() }
    }

    pub fn add(&mut self, key: Vec<u8>, value: T)
        ensures
            final(self)@ == old(self)@.insert(key@, value),
    {
        let ghost before = self.entries@;
        self.entries.push((key, value));
        assert(self.entries@.drop_last() =~= before);
    }

    pub fn get(&self, key: &[u8]) -> (r: Option<&T>)
        ensures
            match r {
                Some(value) => self@.dom().contains(key@) && *value == self@[key@],
                None => !self@.dom().contains(key@),
            },
    {
        let ghost all = self.entries@;
        let mut n: usize = self.entries.len();
        assert(all.take(n as int) =~= all);
        while n > 0
            invariant
                n <= self.entries@.len(),
                all == self.entries@,
                answers_of(all).dom().contains(key@) == answers_of(
                    all.take(n as int),
                ).dom().contains(key@),
                answers_of(all).dom().contains(key@) ==> answers_of(all)[key@] == answers_of(
                    all.take(n as int),
                )[key@],
            decreases n,
        {
            n = n - 1;
            assert(all.take(n as int + 1).drop_last() =~= all.take(n as int));
            assert(all.take(n as int + 1).last() == all[n as int]);
            if path::same_bytes(self.entries[n].0.as_slice(), key) {
                return Some(&self.entries[n].1);
            }
        }
        None
    }
}

/// What is known of the file system: what paths lead to, what files hold (`None` where a file
/// cannot be read) and what patterns match (`None` where a pattern is malformed).
#[derive(Debug)]
pub struct Sources {
    pub canonical: Answers<Canonical>,
    pub contents: Answers<Option<String>>,
    pub matches: Answers<Option<Vec<Vec<u8>>>>,
}

/// A question to the file system.
#[derive(Debug, PartialEq, Eq)]
pub enum Lookup {
    Canonical(Vec<u8>),
    Contents(Vec<u8>),
    Matches(Vec<u8>),
}

pub enum Question {
    Canonical(Seq<u8>),
    Contents(Seq<u8>),
    Matches(Seq<u8>),
}

impl View for Lookup {
    type V = Question;

    open spec fn view(&self) -> Question {
        match self {
            Lookup::Canonical(p) => Question::Canonical(p@),
            Lookup::Contents(p) => Question::Contents(p@),
            Lookup::Matches(p) => Question::Matches(p@),
        }
    }
}

/// What has been found: the files that were read, the hosts and the warnings.
#[verifier::ext_equal]
pub struct Found {
    pub visited: Seq<Seq<u8>>,
    pub aliases: Set<Seq<char>>,
    pub warnings: Seq<(Seq<u8>, DiscoveryWarningKind)>,
}

pub open spec fn nothing_found() -> Found {
    Found { visited: Seq::empty(), aliases: Set::empty(), warnings: Seq::empty() }
}

pub open spec fn warned(found: Found, p: Seq<u8>, kind: DiscoveryWarningKind) -> Found {
    Found { warnings: found.warnings.push((p, kind)), ..found }
}

/// How far a walk through the files comes: to its end, to a bound, or to a question that has no
/// answer yet.
pub enum Walk {
    Done(Found),
    Limit(TraversalKind),
    Needs(Question),
}

/// The directory of the SSH configuration and the one that `~` stands for.
pub struct Places {
    pub ssh_home: Seq<u8>,
    pub home: Seq<u8>,
}

/// The path or pattern that a word asks for.
pub open spec fn expanded(places: Places, value: Seq<char>) -> Seq<u8> {
    if value == "~"@ {
        places.home
    } else if value.len() >= 2 && value[0] == '~' && value[1] == '/' {
        path::below(places.home, path::bytes(value.skip(2)))
    } else {
        path::below(places.ssh_home, path::bytes(value))
    }
}

pub open spec fn byte_lists(list: Seq<Vec<u8>>) -> Seq<Seq<u8>> {
    list.map_values(|p: Vec<u8>| p@)
}

/// Reads the file at `p`, unless it was read before, and follows it. `left` bounds how deep
/// files may lead to further files.
pub open spec fn visit_of(
    sources: Sources,
    places: Places,
    p: Seq<u8>,
    left: nat,
    found: Found,
) -> Walk
    decreases left, 1nat, 0nat,
{
    if left == 0 {
        Walk::Limit(TraversalKind::IncludeDepth)
    } else if !sources.canonical@.dom().contains(p) {
        Walk::Needs(Question::Canonical(p))
    } else {
        match sources.canonical@[p] {
            Canonical::Missing => Walk::Done(warned(found, p, DiscoveryWarningKind::Missing)),
            Canonical::Unreadable => Walk::Done(warned(found, p, DiscoveryWarningKind::Unreadable)),
            Canonical::Found(c) => if found.visited.contains(c@) {
                Walk::Done(found)
            } else {
                let seen = Found { visited: found.visited.push(c@), ..found };
                if seen.visited.len() > MAX_CONFIG_FILES {
                    Walk::Limit(TraversalKind::FileCount)
                } else if !sources.contents@.dom().contains(c@) {
                    Walk::Needs(Question::Contents(c@))
                } else {
                    match sources.contents@[c@] {
                        None => Walk::Done(warned(seen, c@, DiscoveryWarningKind::Unreadable)),
                        Some(content) => steps_walk(
                            sources,
                            places,
                            steps_of_file(content@),
                            (left - 1) as nat,
                            seen,
                        ),
                    }
                }
            },
        }
    }
}

pub open spec fn steps_walk(
    sources: Sources,
    places: Places,
    steps: Seq<Step>,
    left: nat,
    found: Found,
) -> Walk
    decreases left, 4nat, steps.len(),
{
    if steps.len() == 0 {
        Walk::Done(found)
    } else {
        match steps_walk(sources, places, steps.drop_last(), left, found) {
            Walk::Done(f) => match steps.last() {
                Step::Alias(name) => Walk::Done(Found { aliases: f.aliases.insert(name), ..f }),
                Step::Open(value) => open_of(sources, places, value, left, f),
            },
            stopped => stopped,
        }
    }
}

/// Follows all files that match. A word without pattern characters that matches nothing is
/// followed as a path, which gives a warning.
pub open spec fn open_of(
    sources: Sources,
    places: Places,
    value: Seq<char>,
    left: nat,
    found: Found,
) -> Walk
    decreases left, 3nat, 0nat,
{
    let target = expanded(places, value);
    if !sources.matches@.dom().contains(target) {
        Walk::Needs(Question::Matches(target))
    } else {
        match sources.matches@[target] {
            None => Walk::Done(warned(found, target, DiscoveryWarningKind::InvalidIncludePattern)),
            Some(list) => if list@.len() == 0 {
                if has_pattern(value) {
                    Walk::Done(found)
                } else {
                    visit_of(sources, places, target, left, found)
                }
            } else {
                paths_walk(sources, places, byte_lists(list@), left, found)
            },
        }
    }
}

pub open spec fn paths_walk(
    sources: Sources,
    places: Places,
    paths: Seq<Seq<u8>>,
    left: nat,
    found: Found,
) -> Walk
    decreases left, 2nat, paths.len(),
{
    if paths.len() == 0 {
        Walk::Done(found)
    } else {
        match paths_walk(sources, places, paths.drop_last(), left, found) {
            Walk::Done(f) => visit_of(sources, places, paths.last(), left, f),
            stopped => stopped,
        }
    }
}

proof fn steps_stop(
    sources: Sources,
    places: Places,
    steps: Seq<Step>,
    left: nat,
    found: Found,
    n: int,
)
    requires
        0 <= n <= steps.len(),
        !(steps_walk(sources, places, steps.take(n), left, found) is Done),
    ensures
        steps_walk(sources, places, steps, left, found) == steps_walk(
            sources,
            places,
            steps.take(n),
            left,
            found,
        ),
    decreases steps.len() - n,
{
    if n < steps.len() {
        assert(steps.take(n + 1).drop_last() =~= steps.take(n));
        steps_stop(sources, places, steps, left, found, n + 1);
    } else {
        assert(steps.take(n) =~= steps);
    }
}

proof fn paths_stop(
    sources: Sources,
    places: Places,
    paths: Seq<Seq<u8>>,
    left: nat,
    found: Found,
    n: int,
)
    requires
        0 <= n <= paths.len(),
        !(paths_walk(sources, places, paths.take(n), left, found) is Done),
    ensures
        paths_walk(sources, places, paths, left, found) == paths_walk(
            sources,
            places,
            paths.take(n),
            left,
            found,
        ),
    decreases paths.len() - n,
{
    if n < paths.len() {
        assert(paths.take(n + 1).drop_last() =~= paths.take(n));
        paths_stop(sources, places, paths, left, found, n + 1);
    } else {
        assert(paths.take(n) =~= paths);
    }
}

pub open spec fn warning_models(list: Seq<DiscoveryWarning>) -> Seq<
    (Seq<u8>, DiscoveryWarningKind),
> {
    list.map_values(|w: DiscoveryWarning| (w.path@, w.kind))
}

/// Nothing that was found is lost: files and warnings are added at the end, names anywhere.
pub open spec fn grown(before: Found, after: Found) -> bool {
    &&& before.visited.len() <= after.visited.len()
    &&& after.visited.take(before.visited.len() as int) == before.visited
    &&& before.warnings.len() <= after.warnings.len()
    &&& after.warnings.take(before.warnings.len() as int) == before.warnings
    &&& before.aliases.subset_of(after.aliases)
}

proof fn grown_at_first(found: Found)
    ensures
        grown(found, found),
{
    assert(found.visited.take(found.visited.len() as int) =~= found.visited);
    assert(found.warnings.take(found.warnings.len() as int) =~= found.warnings);
}

proof fn grown_further(a: Found, b: Found, c: Found)
    requires
        grown(a, b),
        grown(b, c),
    ensures
        grown(a, c),
{
    assert(c.visited.take(a.visited.len() as int) =~= c.visited.take(
        b.visited.len() as int,
    ).take(a.visited.len() as int));
    assert(c.warnings.take(a.warnings.len() as int) =~= c.warnings.take(
        b.warnings.len() as int,
    ).take(a.warnings.len() as int));
}

struct Walker<'a> {
    sources: &'a Sources,
    ssh_home: &'a [u8],
    home: &'a [u8],
    visited: Vec<Vec<u8>>,
    aliases: Vec<String>,
    warnings: Vec<DiscoveryWarning>,
}

/// Why a walk did not come to its end.
#[derive(Debug)]
enum Stop {
    Limit(TraversalKind),
    Needs(Lookup),
}

impl Stop {
    spec fn shown(self) -> Walk {
        match self {
            Stop::Limit(kind) => Walk::Limit(kind),
            Stop::Needs(lookup) => Walk::Needs(lookup@),
        }
    }
}

impl<'a> Walker<'a> {
    spec fn places(self) -> Places {
        Places { ssh_home: self.ssh_home@, home: self.home@ }
    }

    spec fn found(self) -> Found {
        Found {
            visited: byte_lists(self.visited@),
            aliases: text::texts(self.aliases@).to_set(),
            warnings: warning_models(self.warnings@),
        }
    }

    spec fn ordered(self) -> bool {
        ascending(text::texts(self.aliases@))
    }

    /// The walker is `before` with the same questions answered and, it may be, more found.
    spec fn goes_on(self, before: Self) -> bool {
        &&& self.sources == before.sources
        &&& self.ssh_home == before.ssh_home
        &&& self.home == before.home
        &&& self.ordered()
        &&& grown(before.found(), self.found())
    }

    fn warn(&mut self, p: &[u8], kind: DiscoveryWarningKind)
        requires
            old(self).ordered(),
        ensures
            final(self).goes_on(*old(self)),
            final(self).found() == warned(old(self).found(), p@, kind),
    {
        let ghost before = self.warnings@;
        let ghost start = self.found();
        let warning = DiscoveryWarning { path: path::copied(p), kind };
        self.warnings.push(warning);
        proof {
            assert(warning_models(self.warnings@) =~= warning_models(before).push((p@, kind)));
            grown_at_first(start);
            assert(self.found().warnings.take(start.warnings.len() as int) =~= start.warnings);
        }
    }

    fn was_visited(&self, p: &[u8]) -> (r: bool)
        ensures
            r == self.found().visited.contains(p@),
    {
        let ghost all = self.found().visited;
        let mut i: usize = 0;
        while i < self.visited.len()
            invariant
                i <= self.visited@.len(),
                all == byte_lists(self.visited@),
                forall|k: int| 0 <= k < i ==> all[k] != p@,
            decreases self.visited.len() - i,
        {
            assert(all[i as int] == self.visited@[i as int]@);
            if path::same_bytes(self.visited[i].as_slice(), p) {
                return true;
            }
            i = i + 1;
        }
        false
    }

    fn visit(&mut self, p: &[u8], left: usize) -> (r: Result<(), Stop>)
        requires
            old(self).ordered(),
        ensures
            final(self).goes_on(*old(self)),
            left == 0 ==> *final(self) == *old(self),
            old(self).sources.canonical@.dom().contains(p@) && (
            old(self).sources.canonical@[p@] matches Canonical::Found(c)
                && old(self).found().visited.contains(c@)) ==> *final(self) == *old(self),
            visit_of(
                *old(self).sources,
                old(self).places(),
                p@,
                left as nat,
                old(self).found(),
            ) == (match r {
                Ok(_) => Walk::Done(final(self).found()),
                Err(stop) => stop.shown(),
            }),
        decreases left, 1nat, 0nat,
    {
        proof {
            grown_at_first(self.found());
        }
        if left == 0 {
            return Err(Stop::Limit(TraversalKind::IncludeDepth));
        }
        let sources = self.sources;
        let canonical = match sources.canonical.get(p) {
            None => {
                return Err(Stop::Needs(Lookup::Canonical(path::copied(p))));
            },
            Some(Canonical::Missing) => {
                self.warn(p, DiscoveryWarningKind::Missing);
                return Ok(());
            },
            Some(Canonical::Unreadable) => {
                self.warn(p, DiscoveryWarningKind::Unreadable);
                return Ok(());
            },
            Some(Canonical::Found(canonical)) => canonical,
        };
        if self.was_visited(canonical.as_slice()) {
            return Ok(());
        }
        let ghost start = self.found();
        let ghost before = self.visited@;
        self.visited.push(path::copied(canonical.as_slice()));
        proof {
            assert(byte_lists(self.visited@) =~= byte_lists(before).push(canonical@));
            assert(self.found() =~= (Found { visited: start.visited.push(canonical@), ..start }));
            assert(self.found().visited.take(start.visited.len() as int) =~= start.visited);
        }
        let ghost entered = self.found();
        assert(grown(start, entered));
        proof {
            grown_at_first(entered);
        }
        if self.visited.len() > MAX_CONFIG_FILES {
            return Err(Stop::Limit(TraversalKind::FileCount));
        }
        match sources.contents.get(canonical.as_slice()) {
            None => Err(Stop::Needs(Lookup::Contents(path::copied(canonical.as_slice())))),
            Some(None) => {
                self.warn(canonical.as_slice(), DiscoveryWarningKind::Unreadable);
                proof {
                    grown_further(start, entered, self.found());
                }
                Ok(())
            },
            Some(Some(content)) => {
                let steps = file_steps(content.as_str());
                let walked = self.walk_steps(&steps, left - 1);
                proof {
                    grown_further(start, entered, self.found());
                }
                walked
            },
        }
    }

    fn walk_steps(&mut self, steps: &Vec<FileStep>, left: usize) -> (r: Result<(), Stop>)
        requires
            old(self).ordered(),
        ensures
            final(self).goes_on(*old(self)),
            steps_walk(
                *old(self).sources,
                old(self).places(),
                shown_steps(steps@),
                left as nat,
                old(self).found(),
            ) == (match r {
                Ok(_) => Walk::Done(final(self).found()),
                Err(stop) => stop.shown(),
            }),
        decreases left, 4nat, steps.len(),
    {
        let ghost all = shown_steps(steps@);
        let ghost start = *self;
        let mut i: usize = 0;
        proof {
            assert(all.take(0) =~= Seq::<Step>::empty());
            grown_at_first(start.found());
        }
        while i < steps.len()
            invariant
                i <= steps@.len(),
                all == shown_steps(steps@),
                start == *old(self),
                self.goes_on(start),
                steps_walk(
                    *start.sources,
                    start.places(),
                    all.take(i as int),
                    left as nat,
                    start.found(),
                ) == Walk::Done(self.found()),
            decreases steps.len() - i,
        {
            assert(all.take(i as int + 1).drop_last() =~= all.take(i as int));
            assert(all.take(i as int + 1).last() == steps@[i as int].shown());
            match &steps[i] {
                FileStep::Alias(name) => {
                    let ghost now = self.found();
                    insert_name(&mut self.aliases, name.as_str());
                    proof {
                        assert(self.found() =~= (Found {
                            aliases: now.aliases.insert(name@),
                            ..now
                        }));
                        grown_at_first(now);
                        grown_further(start.found(), now, self.found());
                    }
                },
                FileStep::Open(value) => {
                    let ghost now = self.found();
                    let opened = self.open_files(value.as_str(), left);
                    proof {
                        grown_further(start.found(), now, self.found());
                    }
                    match opened {
                        Ok(_) => {},
                        Err(stop) => {
                            proof {
                                steps_stop(
                                    *start.sources,
                                    start.places(),
                                    all,
                                    left as nat,
                                    start.found(),
                                    i as int + 1,
                                );
                            }
                            return Err(stop);
                        },
                    }
                },
            }
            i = i + 1;
        }
        assert(all.take(all.len() as int) =~= all);
        Ok(())
    }

    fn expand(&self, value: &str) -> (r: Vec<u8>)
        ensures
            r@ == expanded(self.places(), value@),
    {
        if text::same(value, "~") {
            return path::copied(self.home);
        }
        let chars = text::chars_of(value);
        if chars.len() >= 2 && chars[0] == '~' && chars[1] == '/' {
            let rest = slice_subrange(chars.as_slice(), 2, chars.len());
            assert(rest@ =~= value@.skip(2));
            let rest = text::text_of(rest);
            path::join_text(self.home, rest.as_str())
        } else {
            path::join_text(self.ssh_home, value)
        }
    }

    fn open_files(&mut self, value: &str, left: usize) -> (r: Result<(), Stop>)
        requires
            old(self).ordered(),
        ensures
            final(self).goes_on(*old(self)),
            open_of(
                *old(self).sources,
                old(self).places(),
                value@,
                left as nat,
                old(self).found(),
            ) == (match r {
                Ok(_) => Walk::Done(final(self).found()),
                Err(stop) => stop.shown(),
            }),
        decreases left, 3nat, 0nat,
    {
        proof {
            grown_at_first(self.found());
        }
        let target = self.expand(value);
        let sources = self.sources;
        match sources.matches.get(target.as_slice()) {
            None => Err(Stop::Needs(Lookup::Matches(target))),
            Some(None) => {
                self.warn(target.as_slice(), DiscoveryWarningKind::InvalidIncludePattern);
                Ok(())
            },
            Some(Some(list)) => {
                if list.len() == 0 {
                    let chars = text::chars_of(value);
                    if any_pattern(chars.as_slice()) {
                        Ok(())
                    } else {
                        self.visit(target.as_slice(), left)
                    }
                } else {
                    self.walk_paths(list, left)
                }
            },
        }
    }

    fn walk_paths(&mut self, paths: &Vec<Vec<u8>>, left: usize) -> (r: Result<(), Stop>)
        requires
            old(self).ordered(),
        ensures
            final(self).goes_on(*old(self)),
            paths_walk(
                *old(self).sources,
                old(self).places(),
                byte_lists(paths@),
                left as nat,
                old(self).found(),
            ) == (match r {
                Ok(_) => Walk::Done(final(self).found()),
                Err(stop) => stop.shown(),
            }),
        decreases left, 2nat, paths.len(),
    {
        let ghost all = byte_lists(paths@);
        let ghost start = *self;
        let mut i: usize = 0;
        proof {
            assert(all.take(0) =~= Seq::<Seq<u8>>::empty());
            grown_at_first(start.found());
        }
        while i < paths.len()
            invariant
                i <= paths@.len(),
                all == byte_lists(paths@),
                start == *old(self),
                self.goes_on(start),
                paths_walk(
                    *start.sources,
                    start.places(),
                    all.take(i as int),
                    left as nat,
                    start.found(),
                ) == Walk::Done(self.found()),
            decreases paths.len() - i,
        {
            assert(all.take(i as int + 1).drop_last() =~= all.take(i as int));
            assert(all.take(i as int + 1).last() == paths@[i as int]@);
            let ghost now = self.found();
            let visited = self.visit(paths[i].as_slice(), left);
            proof {
                grown_further(start.found(), now, self.found());
            }
            match visited {
                Ok(_) => {},
                Err(stop) => {
                    proof {
                        paths_stop(
                            *start.sources,
                            start.places(),
                            all,
                            left as nat,
                            start.found(),
                            i as int + 1,
                        );
                    }
                    return Err(stop);
                },
            }
            i = i + 1;
        }
        assert(all.take(all.len() as int) =~= all);
        Ok(())
    }
}

/// What came of a discovery.
#[derive(Debug)]
pub enum Discovery {
    Finished(HostDiscovery),
    Refused(HostError),
    /// The answer to this question has to be added first.
    Needs(Lookup),
}

pub open spec fn traversal_limit(kind: TraversalKind) -> usize {
    match kind {
        TraversalKind::IncludeDepth => MAX_INCLUDE_DEPTH,
        TraversalKind::FileCount => MAX_CONFIG_FILES,
    }
}

/// `r` reports how `walk` went.
pub open spec fn reports(walk: Walk, r: Discovery) -> bool {
    match walk {
        Walk::Done(found) => {
            &&& r is Finished
            &&& ascending(text::texts(r->Finished_0.aliases@))
            &&& text::texts(r->Finished_0.aliases@).to_set() == found.aliases
            &&& warning_models(r->Finished_0.warnings@) == found.warnings
        },
        Walk::Limit(kind) => r matches Discovery::Refused(
            HostError::TraversalLimit { kind: k, limit },
        ) && k == kind && limit == traversal_limit(kind),
        Walk::Needs(question) => r matches Discovery::Needs(lookup) && lookup@ == question,
    }
}

/// The whole walk from one configuration file.
pub open spec fn discovery_of(sources: Sources, places: Places, config_path: Seq<u8>) -> Walk {
    visit_of(
        sources,
        places,
        config_path,
        (MAX_INCLUDE_DEPTH + 1) as nat,
        nothing_found(),
    )
}

/// Lists the hosts that a configuration file and those it leads to name one by one.
pub fn discover_hosts(
    config_path: &[u8],
    ssh_home: &[u8],
    home: &[u8],
    sources: &Sources,
) -> (r: Discovery)
    ensures
        reports(
            discovery_of(*sources, Places { ssh_home: ssh_home@, home: home@ }, config_path@),
            r,
        ),
{
    let mut walker = Walker {
        sources,
        ssh_home,
        home,
        visited: Vec::new(),
        aliases: Vec::new(),
        warnings: Vec::new(),
    };
    assert(walker.found() =~= nothing_found());
    match walker.visit(config_path, MAX_INCLUDE_DEPTH + 1) {
        Ok(_) => Discovery::Finished(
            HostDiscovery { aliases: walker.aliases, warnings: walker.warnings },
        ),
        Err(Stop::Limit(kind)) => {
            let limit: usize = match kind {
                TraversalKind::IncludeDepth => MAX_INCLUDE_DEPTH,
                TraversalKind::FileCount => MAX_CONFIG_FILES,
            };
            Discovery::Refused(HostError::TraversalLimit { kind, limit })
        },
        Err(Stop::Needs(lookup)) => Discovery::Needs(lookup),
    }
}

// ---------------------------------------------------------------------------
// Laws of the walk
// ---------------------------------------------------------------------------
/// No file was read twice, at most 256 files were read, and every name is an exact alias.
pub open spec fn orderly(found: Found) -> bool {
    &&& found.visited.no_duplicates()
    &&& found.visited.len() <= MAX_CONFIG_FILES
    &&& forall|name: Seq<char>| #[trigger] found.aliases.contains(name) ==> exact_alias(name)
}

proof fn words_name_exact_aliases(words: Seq<Seq<char>>)
    ensures
        forall|i: int|
            0 <= i < steps_of_words(words).len() ==> (#[trigger] steps_of_words(words)[i] is Alias
                ==> exact_alias(steps_of_words(words)[i]->Alias_0)),
    decreases words.len(),
{
    if words.len() > 1 {
        words_name_exact_aliases(words.drop_last());
    }
}

proof fn lines_name_exact_aliases(lines: Seq<Seq<char>>)
    ensures
        forall|i: int|
            0 <= i < steps_of_lines(lines).len() ==> (#[trigger] steps_of_lines(lines)[i] is Alias
                ==> exact_alias(steps_of_lines(lines)[i]->Alias_0)),
    decreases lines.len(),
{
    if lines.len() > 0 {
        lines_name_exact_aliases(lines.drop_last());
        words_name_exact_aliases(words_of(lines.last()));
    }
}

proof fn visit_is_orderly(sources: Sources, places: Places, p: Seq<u8>, left: nat, found: Found)
    requires
        orderly(found),
    ensures
        visit_of(sources, places, p, left, found) matches Walk::Done(f) ==> orderly(f),
    decreases left, 1nat, 0nat,
{
    if left > 0 && sources.canonical@.dom().contains(p) {
        match sources.canonical@[p] {
            Canonical::Found(c) => {
                if !found.visited.contains(c@) {
                    let seen = Found { visited: found.visited.push(c@), ..found };
                    assert(seen.visited.no_duplicates());
                    if seen.visited.len() <= MAX_CONFIG_FILES && sources.contents@.dom().contains(
                        c@,
                    ) {
                        match sources.contents@[c@] {
                            Some(content) => {
                                lines_name_exact_aliases(logical_lines_of(content@));
                                steps_are_orderly(
                                    sources,
                                    places,
                                    steps_of_file(content@),
                                    (left - 1) as nat,
                                    seen,
                                );
                            },
                            None => {},
                        }
                    }
                }
            },
            _ => {},
        }
    }
}

proof fn steps_are_orderly(
    sources: Sources,
    places: Places,
    steps: Seq<Step>,
    left: nat,
    found: Found,
)
    requires
        orderly(found),
        forall|i: int|
            0 <= i < steps.len() ==> (#[trigger] steps[i] is Alias ==> exact_alias(
                steps[i]->Alias_0,
            )),
    ensures
        steps_walk(sources, places, steps, left, found) matches Walk::Done(f) ==> orderly(f),
    decreases left, 4nat, steps.len(),
{
    if steps.len() > 0 {
        steps_are_orderly(sources, places, steps.drop_last(), left, found);
        match steps_walk(sources, places, steps.drop_last(), left, found) {
            Walk::Done(f) => match steps.last() {
                Step::Alias(name) => {
                    assert(steps[steps.len() - 1] is Alias);
                },
                Step::Open(value) => {
                    open_is_orderly(sources, places, value, left, f);
                },
            },
            _ => {},
        }
    }
}

proof fn open_is_orderly(
    sources: Sources,
    places: Places,
    value: Seq<char>,
    left: nat,
    found: Found,
)
    requires
        orderly(found),
    ensures
        open_of(sources, places, value, left, found) matches Walk::Done(f) ==> orderly(f),
    decreases left, 3nat, 0nat,
{
    let target = expanded(places, value);
    if sources.matches@.dom().contains(target) {
        match sources.matches@[target] {
            Some(list) => {
                if list@.len() == 0 {
                    visit_is_orderly(sources, places, target, left, found);
                } else {
                    paths_are_orderly(sources, places, byte_lists(list@), left, found);
                }
            },
            None => {},
        }
    }
}

proof fn paths_are_orderly(
    sources: Sources,
    places: Places,
    paths: Seq<Seq<u8>>,
    left: nat,
    found: Found,
)
    requires
        orderly(found),
    ensures
        paths_walk(sources, places, paths, left, found) matches Walk::Done(f) ==> orderly(f),
    decreases left, 2nat, paths.len(),
{
    if paths.len() > 0 {
        paths_are_orderly(sources, places, paths.drop_last(), left, found);
        match paths_walk(sources, places, paths.drop_last(), left, found) {
            Walk::Done(f) => {
                visit_is_orderly(sources, places, paths.last(), left, f);
            },
            _ => {},
        }
    }
}

/// A discovery reads no file twice, even where files lead to each other in a circle, reads at
/// most 256 files, and lists exact aliases only.
pub proof fn discovery_is_orderly(sources: Sources, places: Places, config_path: Seq<u8>)
    ensures
        discovery_of(sources, places, config_path) matches Walk::Done(f) ==> orderly(f),
{
    visit_is_orderly(
        sources,
        places,
        config_path,
        (MAX_INCLUDE_DEPTH + 1) as nat,
        nothing_found(),
    );
}

/// `more` answers every question that `some` answers, in the same way.
pub open spec fn answers_more(some: Sources, more: Sources) -> bool {
    &&& some.canonical@.submap_of(more.canonical@)
    &&& some.contents@.submap_of(more.contents@)
    &&& some.matches@.submap_of(more.matches@)
}

proof fn visit_is_stable(
    some: Sources,
    more: Sources,
    places: Places,
    p: Seq<u8>,
    left: nat,
    found: Found,
)
    requires
        answers_more(some, more),
        !(visit_of(some, places, p, left, found) is Needs),
    ensures
        visit_of(more, places, p, left, found) == visit_of(some, places, p, left, found),
    decreases left, 1nat, 0nat,
{
    if left > 0 {
        assert(some.canonical@.dom().contains(p));
        assert(more.canonical@.dom().contains(p) && more.canonical@[p] == some.canonical@[p]);
        match some.canonical@[p] {
            Canonical::Found(c) => {
                let seen = Found { visited: found.visited.push(c@), ..found };
                if !found.visited.contains(c@) && seen.visited.len() <= MAX_CONFIG_FILES {
                    assert(some.contents@.dom().contains(c@));
                    assert(more.contents@.dom().contains(c@) && more.contents@[c@]
                        == some.contents@[c@]);
                    match some.contents@[c@] {
                        Some(content) => {
                            steps_are_stable(
                                some,
                                more,
                                places,
                                steps_of_file(content@),
                                (left - 1) as nat,
                                seen,
                            );
                        },
                        None => {},
                    }
                }
            },
            _ => {},
        }
    }
}

proof fn steps_are_stable(
    some: Sources,
    more: Sources,
    places: Places,
    steps: Seq<Step>,
    left: nat,
    found: Found,
)
    requires
        answers_more(some, more),
        !(steps_walk(some, places, steps, left, found) is Needs),
    ensures
        steps_walk(more, places, steps, left, found) == steps_walk(
            some,
            places,
            steps,
            left,
            found,
        ),
    decreases left, 4nat, steps.len(),
{
    if steps.len() > 0 {
        steps_are_stable(some, more, places, steps.drop_last(), left, found);
        match steps_walk(some, places, steps.drop_last(), left, found) {
            Walk::Done(f) => match steps.last() {
                Step::Alias(name) => {},
                Step::Open(value) => {
                    open_is_stable(some, more, places, value, left, f);
                },
            },
            _ => {},
        }
    }
}

proof fn open_is_stable(
    some: Sources,
    more: Sources,
    places: Places,
    value: Seq<char>,
    left: nat,
    found: Found,
)
    requires
        answers_more(some, more),
        !(open_of(some, places, value, left, found) is Needs),
    ensures
        open_of(more, places, value, left, found) == open_of(some, places, value, left, found),
    decreases left, 3nat, 0nat,
{
    let target = expanded(places, value);
    assert(some.matches@.dom().contains(target));
    assert(more.matches@.dom().contains(target) && more.matches@[target] == some.matches@[target]);
    match some.matches@[target] {
        Some(list) => {
            if list@.len() > 0 {
                paths_are_stable(some, more, places, byte_lists(list@), left, found);
            } else if !has_pattern(value) {
                visit_is_stable(some, more, places, target, left, found);
            }
        },
        None => {},
    }
}

proof fn paths_are_stable(
    some: Sources,
    more: Sources,
    places: Places,
    paths: Seq<Seq<u8>>,
    left: nat,
    found: Found,
)
    requires
        answers_more(some, more),
        !(paths_walk(some, places, paths, left, found) is Needs),
    ensures
        paths_walk(more, places, paths, left, found) == paths_walk(
            some,
            places,
            paths,
            left,
            found,
        ),
    decreases left, 2nat, paths.len(),
{
    if paths.len() > 0 {
        paths_are_stable(some, more, places, paths.drop_last(), left, found);
        match paths_walk(some, places, paths.drop_last(), left, found) {
            Walk::Done(f) => {
                visit_is_stable(some, more, places, paths.last(), left, f);
            },
            _ => {},
        }
    }
}

/// Once a discovery has come to its end, further answers do not change it.
pub proof fn discovery_is_stable(
    some: Sources,
    more: Sources,
    places: Places,
    config_path: Seq<u8>,
)
    requires
        answers_more(some, more),
        !(discovery_of(some, places, config_path) is Needs),
    ensures
        discovery_of(more, places, config_path) == discovery_of(some, places, config_path),
{
    visit_is_stable(
        some,
        more,
        places,
        config_path,
        (MAX_INCLUDE_DEPTH + 1) as nat,
        nothing_found(),
    );
}

// ---------------------------------------------------------------------------
// Effective settings
// ---------------------------------------------------------------------------
/// The keyword of a line and the value behind it.
pub open spec fn effective_setting(line: Seq<char>) -> Option<(Seq<char>, Seq<char>)> {
    let k = text::first_space(line);
    if k < line.len() {
        Some((line.take(k), text::trim_start(line.skip(k + 1))))
    } else {
        None
    }
}

/// All values of a keyword, in order.
pub open spec fn values_of(lines: Seq<Seq<char>>, key: Seq<char>) -> Seq<Seq<char>>
    decreases lines.len(),
{
    if lines.len() == 0 {
        Seq::empty()
    } else {
        let earlier = values_of(lines.drop_last(), key);
        match effective_setting(lines.last()) {
            Some((found, value)) => if found == key {
                earlier.push(value)
            } else {
                earlier
            },
            None => earlier,
        }
    }
}

/// The first value of a keyword, if it is not empty.
pub open spec fn one_value(lines: Seq<Seq<char>>, key: Seq<char>) -> Option<Seq<char>> {
    let values = values_of(lines, key);
    if values.len() > 0 && values[0].len() > 0 {
        Some(values[0])
    } else {
        None
    }
}

/// As `one_value`, where `none` stands for no value.
pub open spec fn optional_value(lines: Seq<Seq<char>>, key: Seq<char>) -> Option<Seq<char>> {
    match one_value(lines, key) {
        Some(value) => if value == "none"@ {
            None
        } else {
            Some(value)
        },
        None => None,
    }
}

/// The port in effect.
pub open spec fn effective_port(lines: Seq<Seq<char>>) -> Option<u16> {
    match one_value(lines, "port"@) {
        Some(value) => match text::parsed_u16(value) {
            Some(port) => if port != 0 {
                Some(port)
            } else {
                None
            },
            None => None,
        },
        None => None,
    }
}

pub open spec fn optional_text(value: Option<String>) -> Option<Seq<char>> {
    match value {
        Some(found) => Some(found@),
        None => None,
    }
}

/// `effective` is what OpenSSH printed in `lines` about the host.
pub open spec fn describes(
    effective: EffectiveHost,
    alias: Seq<char>,
    lines: Seq<Seq<char>>,
) -> bool {
    &&& effective.alias@ == alias
    &&& one_value(lines, "hostname"@) == Some(effective.hostname@)
    &&& one_value(lines, "user"@) == Some(effective.user@)
    &&& effective_port(lines) == Some(effective.port)
    &&& text::texts(effective.identity_files@) == values_of(lines, "identityfile"@)
    &&& optional_text(effective.proxy_jump) == optional_value(lines, "proxyjump"@)
    &&& optional_text(effective.proxy_command) == optional_value(lines, "proxycommand"@)
}

/// The three settings without which a host cannot be described.
pub open spec fn describable(lines: Seq<Seq<char>>) -> bool {
    &&& one_value(lines, "hostname"@) is Some
    &&& one_value(lines, "user"@) is Some
    &&& effective_port(lines) is Some
}

fn setting_values(lines: &Vec<Vec<char>>, key: &str) -> (out: Vec<String>)
    ensures
        text::texts(out@) == values_of(text::runs(lines@), key@),
{
    let ghost all = text::runs(lines@);
    let wanted = text::chars_of(key);
    let mut out: Vec<String> = Vec::new();
    let mut i: usize = 0;
    assert(all.take(0) =~= Seq::<Seq<char>>::empty());
    assert(text::texts(out@) =~= Seq::<Seq<char>>::empty());
    while i < lines.len()
        invariant
            i <= lines@.len(),
            all == text::runs(lines@),
            wanted@ == key@,
            text::texts(out@) == values_of(all.take(i as int), key@),
        decreases lines.len() - i,
    {
        assert(all.take(i as int + 1).drop_last() =~= all.take(i as int));
        assert(all.take(i as int + 1).last() == lines@[i as int]@);
        let line = lines[i].as_slice();
        let k: usize = text::find_space(line);
        if k < line.len() {
            let found = slice_subrange(line, 0, k);
            let rest = slice_subrange(line, k + 1, line.len());
            assert(found@ =~= line@.take(k as int));
            assert(rest@ =~= line@.skip(k as int + 1));
            if text::same_chars(found, wanted.as_slice()) {
                let value = text::text_of(text::trimmed_start(rest));
                proof {
                    text::texts_push(out@, value);
                }
                out.push(value);
            }
        }
        i = i + 1;
    }
    assert(all.take(all.len() as int) =~= all);
    out
}

fn one_setting(lines: &Vec<Vec<char>>, key: &str) -> (r: Option<String>)
    ensures
        optional_text(r) == one_value(text::runs(lines@), key@),
{
    let values = setting_values(lines, key);
    assert(text::texts(values@).len() == values@.len());
    if values.len() == 0 {
        return None;
    }
    assert(text::texts(values@)[0] == values@[0]@);
    let first = text::chars_of(values[0].as_str());
    if first.len() == 0 {
        None
    } else {
        Some(values[0].clone())
    }
}

fn optional_setting(lines: &Vec<Vec<char>>, key: &str) -> (r: Option<String>)
    ensures
        optional_text(r) == optional_value(text::runs(lines@), key@),
{
    match one_setting(lines, key) {
        Some(value) => if text::same(value.as_str(), "none") {
            None
        } else {
            Some(value)
        },
        None => None,
    }
}

/// Reads what `ssh -G` printed about a host.
pub fn parse_effective(alias: &str, bytes: &[u8]) -> (r: Result<EffectiveHost, HostError>)
    ensures
        ({
            let lines = text::lines(vstd::utf8::decode_utf8(bytes@));
            match r {
                Ok(effective) => vstd::utf8::valid_utf8(bytes@) && describes(
                    effective,
                    alias@,
                    lines,
                ),
                Err(error) => error is InvalidEffectiveConfiguration && !(vstd::utf8::valid_utf8(
                    bytes@,
                ) && describable(lines)),
            }
        }),
{
    let found = match text::utf8_text(bytes) {
        Some(found) => found,
        None => {
            return Err(HostError::InvalidEffectiveConfiguration);
        },
    };
    let chars = text::chars_of(found);
    let lines = text::split_lines(chars.as_slice());
    let port = match one_setting(&lines, "port") {
        Some(value) => {
            let digits = text::chars_of(value.as_str());
            text::parse_u16(digits.as_slice())
        },
        None => None,
    };
    let port: u16 = match port {
        Some(port) => port,
        None => {
            return Err(HostError::InvalidEffectiveConfiguration);
        },
    };
    if port == 0 {
        return Err(HostError::InvalidEffectiveConfiguration);
    }
    match (one_setting(&lines, "hostname"), one_setting(&lines, "user")) {
        (Some(hostname), Some(user)) => Ok(
            EffectiveHost {
                alias: alias.to_owned(),
                hostname,
                user,
                port,
                identity_files: setting_values(&lines, "identityfile"),
                proxy_jump: optional_setting(&lines, "proxyjump"),
                proxy_command: optional_setting(&lines, "proxycommand"),
            },
        ),
        _ => Err(HostError::InvalidEffectiveConfiguration),
    }
}

// ---------------------------------------------------------------------------
// Output of child processes
// ---------------------------------------------------------------------------
/// How an OpenSSH process ended and the start of what it printed.
#[derive(Debug)]
pub struct ProcessOutput {
    pub success: bool,
    pub stdout: Vec<u8>,
    pub stderr: Vec<u8>,
    pub timed_out: bool,
}

/// The first `limit` bytes.
pub open spec fn bounded(s: Seq<u8>, limit: int) -> Seq<u8> {
    if s.len() <= limit {
        s
    } else {
        s.take(limit)
    }
}

/// Adds as much of `chunk` as the bound leaves room for.
pub fn keep_bounded(kept: &mut Vec<u8>, chunk: &[u8])
    requires
        old(kept)@.len() <= MAX_DIAGNOSTIC_BYTES,
    ensures
        final(kept)@ == bounded(old(kept)@ + chunk@, MAX_DIAGNOSTIC_BYTES as int),
        final(kept)@.len() <= MAX_DIAGNOSTIC_BYTES,
{
    let remaining: usize = MAX_DIAGNOSTIC_BYTES - kept.len();
    let count: usize = if chunk.len() < remaining {
        chunk.len()
    } else {
        remaining
    };
    let ghost before = kept@;
    path::push_bytes(kept, slice_subrange(chunk, 0, count));
    assert(kept@ =~= bounded(before + chunk@, MAX_DIAGNOSTIC_BYTES as int));
}

/// What is kept does not depend on how the output is cut into chunks.
pub proof fn chunks_do_not_matter(kept: Seq<u8>, a: Seq<u8>, b: Seq<u8>, limit: int)
    requires
        limit >= 0,
    ensures
        bounded(bounded(kept + a, limit) + b, limit) == bounded(kept + (a + b), limit),
{
    assert(kept + (a + b) =~= kept + a + b);
    if (kept + a).len() <= limit {
    } else {
        assert(bounded(bounded(kept + a, limit) + b, limit) =~= (kept + a).take(limit));
        assert(bounded(kept + a + b, limit) =~= (kept + a).take(limit));
    }
}

// ---------------------------------------------------------------------------
// Connection tests
// ---------------------------------------------------------------------------
pub open spec fn mentions(lowered: Seq<char>, phrase: Seq<char>) -> bool {
    text::holds(lowered, phrase)
}

pub open spec fn authentication_phrase(s: Seq<char>) -> bool {
    ||| mentions(s, "permission denied"@)
    ||| mentions(s, "authentication failed"@)
    ||| mentions(s, "no supported authentication methods"@)
}

pub open spec fn host_key_phrase(s: Seq<char>) -> bool {
    ||| mentions(s, "host key verification failed"@)
    ||| mentions(s, "remote host identification has changed"@)
}

pub open spec fn network_phrase(s: Seq<char>) -> bool {
    ||| mentions(s, "connection refused"@)
    ||| mentions(s, "no route to host"@)
    ||| mentions(s, "could not resolve hostname"@)
    ||| mentions(s, "operation timed out"@)
    ||| mentions(s, "connection timed out"@)
}

/// What a connection test shows. OpenSSH tells its failures apart only by what it prints.
pub open spec fn outcome_of(timed_out: bool, success: bool, stderr: Seq<char>) -> ConnectionOutcome {
    let s = text::lowered(stderr);
    if timed_out {
        ConnectionOutcome::TimedOut
    } else if success {
        ConnectionOutcome::Success
    } else if authentication_phrase(s) {
        ConnectionOutcome::AuthenticationFailed
    } else if host_key_phrase(s) {
        ConnectionOutcome::HostKeyVerificationFailed
    } else if network_phrase(s) {
        ConnectionOutcome::NetworkFailed
    } else {
        ConnectionOutcome::Failed
    }
}

/// Whether the lowered text mentions the phrase.
pub fn has_phrase(lowered: &Vec<char>, phrase: &str) -> (r: bool)
    ensures
        r == mentions(lowered@, phrase@),
{
    let part = text::chars_of(phrase);
    text::contains(lowered.as_slice(), part.as_slice())
}

pub fn connection_outcome(timed_out: bool, success: bool, stderr: &str) -> (r: ConnectionOutcome)
    ensures
        r == outcome_of(timed_out, success, stderr@),
{
    if timed_out {
        return ConnectionOutcome::TimedOut;
    }
    if success {
        return ConnectionOutcome::Success;
    }
    let chars = text::chars_of(stderr);
    let s = text::lowered_chars(chars.as_slice());
    if has_phrase(&s, "permission denied") || has_phrase(&s, "authentication failed") || has_phrase(
        &s,
        "no supported authentication methods",
    ) {
        ConnectionOutcome::AuthenticationFailed
    } else if has_phrase(&s, "host key verification failed") || has_phrase(
        &s,
        "remote host identification has changed",
    ) {
        ConnectionOutcome::HostKeyVerificationFailed
    } else if has_phrase(&s, "connection refused") || has_phrase(&s, "no route to host")
        || has_phrase(&s, "could not resolve hostname") || has_phrase(&s, "operation timed out")
        || has_phrase(&s, "connection timed out") {
        ConnectionOutcome::NetworkFailed
    } else {
        ConnectionOutcome::Failed
    }
}

// ---------------------------------------------------------------------------
// The catalog
// ---------------------------------------------------------------------------
/// Refreshable host state. The catalog owns only discovered aliases; OpenSSH
/// remains the authority for effective settings and connection behavior.
#[derive(Debug)]
pub struct HostCatalog {
    config_path: Vec<u8>,
    ssh_home: Vec<u8>,
    home: Vec<u8>,
    ssh_executable: Vec<u8>,
    aliases: Vec<String>,
}

/// What a catalog knows.
#[verifier::ext_equal]
pub struct CatalogModel {
    pub config_path: Seq<u8>,
    pub ssh_home: Seq<u8>,
    pub home: Seq<u8>,
    pub ssh_executable: Seq<u8>,
    pub aliases: Seq<Seq<char>>,
}

impl View for HostCatalog {
    type V = CatalogModel;

    closed spec fn view(&self) -> CatalogModel {
        CatalogModel {
            config_path: self.config_path@,
            ssh_home: self.ssh_home@,
            home: self.home@,
            ssh_executable: self.ssh_executable@,
            aliases: text::texts(self.aliases@),
        }
    }
}

/// The arguments that ask OpenSSH for the effective settings of a host.
pub open spec fn query_arguments_of(alias: Seq<char>) -> Seq<Seq<char>> {
    seq!["-G"@, "--"@, alias]
}

/// The arguments of a connection test: it asks for nothing, opens no forwarding and gives up
/// after one attempt.
pub open spec fn test_arguments_of(alias: Seq<char>) -> Seq<Seq<char>> {
    seq![
        "-T"@,
        "-n"@,
        "-o"@,
        "BatchMode=yes"@,
        "-o"@,
        "ClearAllForwardings=yes"@,
        "-o"@,
        "ConnectTimeout=10"@,
        "-o"@,
        "ConnectionAttempts=1"@,
        "--"@,
        alias,
        "true"@,
    ]
}

fn owned(list: &[&str]) -> (out: Vec<String>)
    ensures
        text::texts(out@) == list@.map_values(|s: &str| s@),
{
    let mut out: Vec<String> = Vec::new();
    let mut i: usize = 0;
    let ghost all = list@.map_values(|s: &str| s@);
    while i < list.len()
        invariant
            i <= list@.len(),
            all == list@.map_values(|s: &str| s@),
            text::texts(out@) =~= all.take(i as int),
        decreases list.len() - i,
    {
        let next = list[i].to_owned();
        proof {
            text::texts_push(out@, next);
        }
        out.push(next);
        assert(all.take(i as int + 1) =~= all.take(i as int).push(all[i as int]));
        i = i + 1;
    }
    assert(all.take(all.len() as int) =~= all);
    out
}

impl HostCatalog {
    /// `home` is the directory that `~` stands for in the configuration.
    pub fn new(
        config_path: Vec<u8>,
        ssh_home: Vec<u8>,
        home: Vec<u8>,
        ssh_executable: Vec<u8>,
    ) -> (r: Self)
        ensures
            r@ == (CatalogModel {
                config_path: config_path@,
                ssh_home: ssh_home@,
                home: home@,
                ssh_executable: ssh_executable@,
                aliases: Seq::empty(),
            }),
    {
        let r = HostCatalog { config_path, ssh_home, home, ssh_executable, aliases: Vec::new() };
        assert(r@.aliases =~= Seq::<Seq<char>>::empty());
        r
    }

    /// Replaces the known aliases by those that a discovery finds. If it does not come to its
    /// end, the catalog stays as it is.
    pub fn refresh(&mut self, sources: &Sources) -> (r: Discovery)
        ensures
            reports(
                discovery_of(
                    *sources,
                    Places { ssh_home: old(self)@.ssh_home, home: old(self)@.home },
                    old(self)@.config_path,
                ),
                r,
            ),
            final(self)@ == (match r {
                Discovery::Finished(found) => CatalogModel {
                    aliases: text::texts(found.aliases@),
                    ..old(self)@
                },
                _ => old(self)@,
            }),
    {
        let r = discover_hosts(
            self.config_path.as_slice(),
            self.ssh_home.as_slice(),
            self.home.as_slice(),
            sources,
        );
        match &r {
            Discovery::Finished(found) => {
                self.aliases = text::copied(&found.aliases);
            },
            _ => {},
        }
        r
    }

    pub fn aliases(&self) -> (r: &Vec<String>)
        ensures
            text::texts(r@) == self@.aliases,
    {
        &self.aliases
    }

    pub fn ssh_executable(&self) -> (r: &Vec<u8>)
        ensures
            r@ == self@.ssh_executable,
    {
        &self.ssh_executable
    }

    /// The arguments that ask OpenSSH for the effective settings of a host.
    pub fn query_arguments(&self, alias: &str) -> (r: Result<Vec<String>, HostError>)
        ensures
            match r {
                Ok(arguments) => host::alias_refusal(alias@) is None && text::texts(arguments@)
                    == query_arguments_of(alias@),
                Err(HostError::InvalidAlias(error)) => host::alias_refusal(alias@) == Some(error@),
                Err(_) => false,
            },
    {
        match HostAlias::new(alias) {
            Ok(checked) => {
                let list = ["-G", "--", checked.as_str()];
                let out = owned(&list);
                assert(text::texts(out@) =~= query_arguments_of(alias@));
                Ok(out)
            },
            Err(error) => Err(HostError::InvalidAlias(error)),
        }
    }

    /// The effective settings of a host, from what the query printed.
    pub fn effective(&self, alias: &str, output: &ProcessOutput) -> (r: Result<
        EffectiveHost,
        HostError,
    >)
        ensures
            ({
                let lines = text::lines(vstd::utf8::decode_utf8(output.stdout@));
                let readable = vstd::utf8::valid_utf8(output.stdout@) && describable(lines);
                match r {
                    Ok(effective) => host::alias_refusal(alias@) is None && !output.timed_out
                        && output.success && readable && describes(effective, alias@, lines),
                    Err(HostError::InvalidAlias(error)) => host::alias_refusal(alias@) == Some(
                        error@,
                    ),
                    Err(HostError::QueryTimedOut) => host::alias_refusal(alias@) is None
                        && output.timed_out,
                    Err(HostError::QueryFailed) => host::alias_refusal(alias@) is None
                        && !output.timed_out && !output.success,
                    Err(HostError::InvalidEffectiveConfiguration) => host::alias_refusal(
                        alias@,
                    ) is None && !output.timed_out && output.success && !readable,
                    Err(_) => false,
                }
            }),
    {
        match HostAlias::new(alias) {
            Ok(_) => {},
            Err(error) => {
                return Err(HostError::InvalidAlias(error));
            },
        }
        if output.timed_out {
            return Err(HostError::QueryTimedOut);
        }
        if !output.success {
            return Err(HostError::QueryFailed);
        }
        parse_effective(alias, output.stdout.as_slice())
    }

    /// The arguments of a connection test.
    pub fn test_arguments(&self, alias: &str) -> (r: Result<Vec<String>, HostError>)
        ensures
            match r {
                Ok(arguments) => host::alias_refusal(alias@) is None && text::texts(arguments@)
                    == test_arguments_of(alias@),
                Err(HostError::InvalidAlias(error)) => host::alias_refusal(alias@) == Some(error@),
                Err(_) => false,
            },
    {
        match HostAlias::new(alias) {
            Ok(checked) => {
                let list = [
                    "-T",
                    "-n",
                    "-o",
                    "BatchMode=yes",
                    "-o",
                    "ClearAllForwardings=yes",
                    "-o",
                    "ConnectTimeout=10",
                    "-o",
                    "ConnectionAttempts=1",
                    "--",
                    checked.as_str(),
                    "true",
                ];
                let out = owned(&list);
                assert(text::texts(out@) =~= test_arguments_of(alias@));
                Ok(out)
            },
            Err(error) => Err(HostError::InvalidAlias(error)),
        }
    }

    /// What a connection test shows.
    pub fn test_connection(&self, alias: &str, output: &ProcessOutput) -> (r: Result<
        ConnectionOutcome,
        HostError,
    >)
        ensures
            match r {
                Ok(outcome) => host::alias_refusal(alias@) is None && outcome == outcome_of(
                    output.timed_out,
                    output.success,
                    text::lossy(output.stderr@),
                ),
                Err(HostError::InvalidAlias(error)) => host::alias_refusal(alias@) == Some(error@),
                Err(_) => false,
            },
    {
        match HostAlias::new(alias) {
            Ok(_) => {
                let stderr = text::lossy_text(output.stderr.as_slice());
                Ok(connection_outcome(output.timed_out, output.success, stderr.as_str()))
            },
            Err(error) => Err(HostError::InvalidAlias(error)),
        }
    }
}

// ---------------------------------------------------------------------------
// What is read from a configuration
// ---------------------------------------------------------------------------
proof fn quoted_run(before: Seq<char>, part: Seq<char>, quote: char)
    requires
        quote == '"' || quote == '\'',
        !part.contains(quote),
        !part.contains('\\'),
        read_line(before).quote == Some(quote),
        !read_line(before).escaped,
        !read_line(before).comment,
    ensures
        ({
            let r = read_line(before);
            read_line(before + part) == (Reading { word: r.word + part, ..r })
        }),
    decreases part.len(),
{
    if part.len() == 0 {
        assert(before + part =~= before);
        assert(read_line(before).word + part =~= read_line(before).word);
    } else {
        let shorter = part.drop_last();
        assert forall|i: int| 0 <= i < shorter.len() implies shorter[i] != quote && shorter[i]
            != '\\' by {
            assert(shorter[i] == part[i]);
            assert(part.contains(part[i]));
        }
        assert(part.contains(part[part.len() - 1]));
        quoted_run(before, shorter, quote);
        assert((before + part).drop_last() =~= before + shorter);
        assert((before + part).last() == part.last());
        assert(read_line(before).word + part =~= (read_line(before).word + shorter).push(
            part.last(),
        ));
    }
}

/// What stands between quotes of one kind is one word, with its spaces, its equals signs, its number
/// signs and the quotes of the other kind. The quotes themselves are not part of it.
pub proof fn quotes_keep_a_word_together(part: Seq<char>, quote: char)
    requires
        quote == '"' || quote == '\'',
        part.len() > 0,
        !part.contains(quote),
        !part.contains('\\'),
    ensures
        words_of(seq![quote] + part + seq![quote]) == seq![part],
{
    let nothing = Seq::<char>::empty();
    let opened = seq![quote];
    assert(opened.drop_last() =~= nothing);
    assert(opened.last() == quote);
    assert(read_line(nothing).word =~= nothing);
    quoted_run(opened, part, quote);
    let all = seq![quote] + part + seq![quote];
    assert(all.drop_last() =~= opened + part);
    assert(all.last() == quote);
    assert(nothing + part =~= part);
    assert(words_of(all) =~= seq![part]);
}

/// Behind a backslash every character is part of the word, whatever it would mean otherwise.
pub proof fn a_backslash_takes_the_meaning_away(before: Seq<char>, c: char)
    requires
        !read_line(before).escaped,
        !read_line(before).comment,
    ensures
        ({
            let r = read_line(before);
            read_line(before.push('\\').push(c)) == (Reading { word: r.word.push(c), ..r })
        }),
{
    reveal_with_fuel(read_line, 3);
    assert(before.push('\\').drop_last() =~= before);
    assert(before.push('\\').push(c).drop_last() =~= before.push('\\'));
}

/// A line that ends in a backslash goes on in the next one; the backslash is dropped. Any other line
/// stands for itself.
pub proof fn continued_lines_are_joined(lines: Seq<Seq<char>>, line: Seq<char>, more: Seq<char>)
    requires
        join_lines(lines).current.len() == 0,
        more.len() == 0 || more.last() != '\\',
        line.len() > 0 ==> line.last() != '\\',
    ensures
        join_lines(lines.push(line)).done == join_lines(lines).done.push(line),
        join_lines(lines.push(line)).current.len() == 0,
        line.len() + more.len() > 0 ==> join_lines(lines.push(line.push('\\')).push(more)).done
            == join_lines(lines).done.push(line + more),
{
    reveal_with_fuel(join_lines, 3);
    let p = join_lines(lines);
    assert(p.current + line =~= line);
    assert(lines.push(line).drop_last() =~= lines);
    let cut = line.push('\\');
    assert(p.current + cut =~= cut);
    assert(lines.push(cut).drop_last() =~= lines);
    assert(cut.drop_last() =~= line);
    assert(lines.push(cut).push(more).drop_last() =~= lines.push(cut));
    let joined = line + more;
    if joined.len() > 0 {
        if more.len() > 0 {
            assert(joined.last() == more.last());
        } else {
            assert(joined.last() == line.last());
        }
    }
}

/// An alias is exact if it stands for one host: it holds no `*`, `?` or `[`, does not start with an
/// exclamation mark and could be the host of a rule.
pub proof fn exact_aliases_name_one_host(s: Seq<char>)
    ensures
        exact_alias(s) <==> host::alias_refusal(s) is None && s[0] != '!' && !s.contains('*')
            && !s.contains('?') && !s.contains('['),
{
    if has_pattern(s) {
        let i = choose|i: int| 0 <= i < s.len() && pattern_char(#[trigger] s[i]);
        assert(s.contains(s[i]));
    }
    if s.contains('*') {
        let i = choose|i: int| 0 <= i < s.len() && s[i] == '*';
        assert(pattern_char(s[i]));
    }
    if s.contains('?') {
        let i = choose|i: int| 0 <= i < s.len() && s[i] == '?';
        assert(pattern_char(s[i]));
    }
    if s.contains('[') {
        let i = choose|i: int| 0 <= i < s.len() && s[i] == '[';
        assert(pattern_char(s[i]));
    }
}

/// A `Host` line gives one alias for each exact word behind the keyword, in order. A line with the
/// keyword for other files asks for each word behind it. No other line gives anything. Keywords
/// may be in any case.
pub proof fn lines_give_aliases_or_files(words: Seq<Seq<char>>, word: Seq<char>)
    requires
        words.len() > 0,
    ensures
        ({
            let before = steps_of_words(words);
            let after = steps_of_words(words.push(word));
            let keyword = text::lowered(words[0]);
            &&& keyword == "host"@ && exact_alias(word) ==> after == before.push(Step::Alias(word))
            &&& keyword == "host"@ && !exact_alias(word) ==> after == before
            &&& keyword == seq!['i', 'n', 'c', 'l', 'u', 'd', 'e'] ==> after == before.push(
                Step::Open(word),
            )
            &&& keyword != "host"@ && keyword != seq!['i', 'n', 'c', 'l', 'u', 'd', 'e'] ==> after
                == before
        }),
        steps_of_words(seq![word]) == Seq::<Step>::empty(),
{
    reveal_strlit("host");
    assert("host"@.len() == 4);
    let all = words.push(word);
    assert(all.drop_last() =~= words);
    assert(all[0] == words[0]);
}

/// What a file asks for is what its lines ask for, in their order.
pub proof fn files_ask_line_by_line(lines: Seq<Seq<char>>, line: Seq<char>)
    ensures
        steps_of_lines(Seq::empty()) == Seq::<Step>::empty(),
        steps_of_lines(lines.push(line)) == steps_of_lines(lines) + steps_of_words(words_of(line)),
{
    assert(lines.push(line).drop_last() =~= lines);
}

/// A tilde stands for the home, alone or before a slash. Any other relative path starts at the
/// directory of the SSH configuration, and an absolute one stays as it is.
pub proof fn paths_are_expanded(places: Places, value: Seq<char>)
    ensures
        expanded(places, "~"@) == places.home,
        expanded(places, seq!['~', '/'] + value) == path::below(places.home, path::bytes(value)),
        value.len() == 0 || value[0] != '~' ==> expanded(places, value) == path::below(
            places.ssh_home,
            path::bytes(value),
        ),
        path::absolute(path::bytes(value)) && (value.len() == 0 || value[0] != '~') ==> expanded(
            places,
            value,
        ) == path::bytes(value),
{
    reveal_strlit("~");
    let s = seq!['~', '/'] + value;
    assert(s.skip(2) =~= value);
    assert(s != "~"@) by {
        assert(s.len() >= 2 && "~"@.len() == 1);
    }
    if value.len() > 0 && value[0] != '~' {
        assert(value != "~"@);
    }
    assert("~"@.len() == 1);
}

/// A file that is missing or unreadable is warned about by its path and changes nothing else. A file
/// that was read before is passed over. A file that is too deep, or one too many, ends the walk.
pub proof fn files_are_read_once_and_within_limits(
    sources: Sources,
    places: Places,
    p: Seq<u8>,
    left: nat,
    found: Found,
)
    ensures
        ({
            let r = visit_of(sources, places, p, left, found);
            let known = sources.canonical@.dom().contains(p);
            &&& left == 0 <==> r == Walk::Limit(TraversalKind::IncludeDepth) && left == 0
            &&& left > 0 && !known ==> r == Walk::Needs(Question::Canonical(p))
            &&& left > 0 && known ==> {
                &&& sources.canonical@[p] is Missing ==> r == Walk::Done(
                    Found {
                        warnings: found.warnings.push((p, DiscoveryWarningKind::Missing)),
                        ..found
                    },
                )
                &&& sources.canonical@[p] is Unreadable ==> r == Walk::Done(
                    Found {
                        warnings: found.warnings.push((p, DiscoveryWarningKind::Unreadable)),
                        ..found
                    },
                )
                &&& sources.canonical@[p] matches Canonical::Found(c) ==> {
                    &&& found.visited.contains(c@) ==> r == Walk::Done(found)
                    &&& !found.visited.contains(c@) && found.visited.len() >= 256 ==> r
                        == Walk::Limit(TraversalKind::FileCount)
                    &&& !found.visited.contains(c@) && found.visited.len() < 256
                        && !sources.contents@.dom().contains(c@) ==> r == Walk::Needs(
                        Question::Contents(c@),
                    )
                    &&& !found.visited.contains(c@) && found.visited.len() < 256
                        && sources.contents@.dom().contains(c@) && sources.contents@[c@] is None
                        ==> r == Walk::Done(
                        Found {
                            visited: found.visited.push(c@),
                            warnings: found.warnings.push((c@, DiscoveryWarningKind::Unreadable)),
                            ..found
                        },
                    )
                }
            }
        }),
{
}

/// A file without references to others adds exactly its aliases, and it counts as read.
pub proof fn aliases_of_a_file_are_found(
    sources: Sources,
    places: Places,
    p: Seq<u8>,
    left: nat,
    found: Found,
    name: Seq<char>,
)
    requires
        left > 0,
        sources.canonical@.dom().contains(p),
        sources.canonical@[p] is Found,
        !found.visited.contains(sources.canonical@[p]->Found_0@),
        found.visited.len() < 256,
        sources.contents@.dom().contains(sources.canonical@[p]->Found_0@),
        sources.contents@[sources.canonical@[p]->Found_0@] is Some,
        ({
            let steps = steps_of_file(sources.contents@[sources.canonical@[p]->Found_0@]->0@);
            forall|i: int| 0 <= i < steps.len() ==> #[trigger] steps[i] is Alias
        }),
    ensures
        ({
            let c = sources.canonical@[p]->Found_0@;
            let steps = steps_of_file(sources.contents@[c]->0@);
            visit_of(sources, places, p, left, found) matches Walk::Done(after) && after.visited
                == found.visited.push(c) && after.warnings == found.warnings && (
            after.aliases.contains(name) <==> found.aliases.contains(name) || steps.contains(
                Step::Alias(name),
            ))
        }),
{
    let c = sources.canonical@[p]->Found_0@;
    let steps = steps_of_file(sources.contents@[c]->0@);
    let seen = Found { visited: found.visited.push(c), ..found };
    plain_steps_add_aliases(sources, places, steps, (left - 1) as nat, seen, name);
}

proof fn plain_steps_add_aliases(
    sources: Sources,
    places: Places,
    steps: Seq<Step>,
    left: nat,
    found: Found,
    name: Seq<char>,
)
    requires
        forall|i: int| 0 <= i < steps.len() ==> #[trigger] steps[i] is Alias,
    ensures
        steps_walk(sources, places, steps, left, found) matches Walk::Done(after) && after.visited
            == found.visited && after.warnings == found.warnings && (after.aliases.contains(name)
            <==> found.aliases.contains(name) || steps.contains(Step::Alias(name))),
    decreases steps.len(),
{
    if steps.len() > 0 {
        let fewer = steps.drop_last();
        assert forall|i: int| 0 <= i < fewer.len() implies #[trigger] fewer[i] is Alias by {
            assert(fewer[i] == steps[i]);
        }
        plain_steps_add_aliases(sources, places, fewer, left, found, name);
        assert(steps[steps.len() - 1] is Alias);
        if fewer.contains(Step::Alias(name)) {
            let i = choose|i: int| 0 <= i < fewer.len() && fewer[i] == Step::Alias(name);
            assert(steps[i] == Step::Alias(name));
        }
        if steps.contains(Step::Alias(name)) {
            let i = choose|i: int| 0 <= i < steps.len() && steps[i] == Step::Alias(name);
            if i < fewer.len() {
                assert(fewer[i] == Step::Alias(name));
            }
        }
    }
}

/// What a pattern matches is followed in order, one deeper than the file that asks for it. A pattern
/// that matches nothing is no mistake, and a path that matches nothing is followed as it is. A
/// pattern that cannot be read is warned about.
pub proof fn references_are_followed(
    sources: Sources,
    places: Places,
    value: Seq<char>,
    left: nat,
    found: Found,
)
    ensures
        ({
            let r = open_of(sources, places, value, left, found);
            let target = expanded(places, value);
            let known = sources.matches@.dom().contains(target);
            &&& !known ==> r == Walk::Needs(Question::Matches(target))
            &&& known && sources.matches@[target] is None ==> r == Walk::Done(
                Found {
                    warnings: found.warnings.push(
                        (target, DiscoveryWarningKind::InvalidIncludePattern),
                    ),
                    ..found
                },
            )
            &&& known ==> (sources.matches@[target] matches Some(list) ==> {
                &&& list@.len() == 0 && has_pattern(value) ==> r == Walk::Done(found)
                &&& list@.len() == 0 && !has_pattern(value) ==> r == visit_of(
                    sources,
                    places,
                    target,
                    left,
                    found,
                )
                &&& list@.len() == 1 ==> r == visit_of(sources, places, list@[0]@, left, found)
            })
        }),
{
    let target = expanded(places, value);
    if sources.matches@.dom().contains(target) && sources.matches@[target] is Some {
        let list = sources.matches@[target]->0;
        if list@.len() == 1 {
            let paths = byte_lists(list@);
            assert(paths.drop_last() =~= Seq::<Seq<u8>>::empty());
            assert(paths.last() == list@[0]@);
            reveal_with_fuel(paths_walk, 2);
        }
    }
}

/// The aliases of a report are in ascending order, and an order of names compares them character by
/// character.
pub proof fn names_are_ordered(a: Seq<char>, b: Seq<char>, c: char, d: char)
    ensures
        !precedes(a, a),
        a.len() > 0 ==> precedes(Seq::empty(), a),
        (c as u32) < (d as u32) ==> precedes(seq![c] + a, seq![d] + b),
        precedes(seq![c] + a, seq![c] + b) == precedes(a, b),
        precedes(a, b) ==> !precedes(b, a),
    decreases a.len(),
{
    assert((seq![c] + a).drop_first() =~= a);
    assert((seq![c] + b).drop_first() =~= b);
    if a.len() > 0 {
        names_are_ordered(a.drop_first(), a.drop_first(), c, d);
        if b.len() > 0 {
            names_are_ordered(a.drop_first(), b.drop_first(), c, d);
        }
    }
}

/// At most 256 files are read, references lead at most 32 files deep, a query may take five seconds
/// and a connection test fifteen, and 64 KiB of a diagnosis are kept.
pub proof fn host_limits(kind: TraversalKind)
    ensures
        MAX_CONFIG_FILES == 256,
        MAX_INCLUDE_DEPTH == 32,
        MAX_DIAGNOSTIC_BYTES == 64 * 1024,
        QUERY_TIMEOUT_SECONDS == 5,
        CONNECTION_TIMEOUT_SECONDS == 15,
        kind == TraversalKind::FileCount ==> traversal_limit(kind) == 256 && traversal_name(kind)
            == "file-count"@,
        kind == TraversalKind::IncludeDepth ==> traversal_limit(kind) == 32 && traversal_name(kind)
            == seq!['i', 'n', 'c', 'l', 'u', 'd', 'e'] + "-depth"@,
{
    reveal_strlit("include-depth");
    reveal_strlit("-depth");
    assert("include-depth"@ =~= seq!['i', 'n', 'c', 'l', 'u', 'd', 'e'] + "-depth"@);
}

// ---------------------------------------------------------------------------
// What OpenSSH says of a host
// ---------------------------------------------------------------------------
/// A line with a keyword, a space and a value that starts with no white space is the setting of this
/// keyword, and no other.
pub proof fn effective_settings_read_back(keyword: Seq<char>, value: Seq<char>)
    requires
        forall|i: int| 0 <= i < keyword.len() ==> !text::white_space(#[trigger] keyword[i]),
        value.len() > 0 ==> !text::white_space(value[0]),
    ensures
        effective_setting(keyword.push(' ') + value) == Some((keyword, value)),
        effective_setting(keyword) is None,
{
    let line = keyword.push(' ') + value;
    text::first_space_position(line);
    text::first_space_position(keyword);
    let k = text::first_space(line);
    assert(line[keyword.len() as int] == ' ');
    if k < keyword.len() {
        assert(line[k] == keyword[k]);
    }
    assert(line.take(k) =~= keyword);
    assert(line.skip(k + 1) =~= value);
}

/// All values of a keyword are collected in their order, and lines with other keywords do not count.
pub proof fn values_are_collected_in_order(
    lines: Seq<Seq<char>>,
    key: Seq<char>,
    keyword: Seq<char>,
    value: Seq<char>,
)
    requires
        forall|i: int| 0 <= i < keyword.len() ==> !text::white_space(#[trigger] keyword[i]),
        value.len() > 0 ==> !text::white_space(value[0]),
    ensures
        values_of(Seq::empty(), key) == Seq::<Seq<char>>::empty(),
        values_of(lines.push(keyword.push(' ') + value), key) == (if keyword == key {
            values_of(lines, key).push(value)
        } else {
            values_of(lines, key)
        }),
{
    effective_settings_read_back(keyword, value);
    assert(lines.push(keyword.push(' ') + value).drop_last() =~= lines);
}

/// Where a setting is wanted once, its first value counts, unless that is empty. Where there may be
/// none, the word `none` says so.
pub proof fn the_first_value_counts(lines: Seq<Seq<char>>, key: Seq<char>)
    ensures
        ({
            let values = values_of(lines, key);
            &&& values.len() == 0 ==> one_value(lines, key) is None
            &&& values.len() > 0 && values[0].len() == 0 ==> one_value(lines, key) is None
            &&& values.len() > 0 && values[0].len() > 0 ==> one_value(lines, key) == Some(values[0])
            &&& one_value(lines, key) == Some("none"@) ==> optional_value(lines, key) is None
            &&& one_value(lines, key) != Some("none"@) ==> optional_value(lines, key) == one_value(
                lines,
                key,
            )
        }),
{
}

/// A host is described by the settings with the names of its parts. Name, user and port must be
/// there, and the port must be a number from 1 to 65535.
pub proof fn hosts_are_described_by_their_settings(
    effective: EffectiveHost,
    alias: Seq<char>,
    lines: Seq<Seq<char>>,
)
    requires
        describes(effective, alias, lines),
    ensures
        effective.alias@ == alias,
        values_of(lines, "hostname"@).len() > 0,
        values_of(lines, "hostname"@)[0] == effective.hostname@,
        values_of(lines, "user"@).len() > 0,
        values_of(lines, "user"@)[0] == effective.user@,
        values_of(lines, "port"@).len() > 0,
        text::parsed_u16(values_of(lines, "port"@)[0]) == Some(effective.port),
        effective.port != 0,
        text::texts(effective.identity_files@) == values_of(lines, "identityfile"@),
        effective.proxy_jump matches Some(jump) ==> values_of(lines, "proxyjump"@)[0] == jump@
            && jump@ != "none"@ && jump@.len() > 0,
        effective.proxy_jump is None ==> one_value(lines, "proxyjump"@) is None || one_value(
            lines,
            "proxyjump"@,
        ) == Some("none"@),
        effective.proxy_command matches Some(command) ==> values_of(lines, "proxycommand"@)[0]
            == command@ && command@ != "none"@ && command@.len() > 0,
        effective.proxy_command is None ==> one_value(lines, "proxycommand"@) is None || one_value(
            lines,
            "proxycommand"@,
        ) == Some("none"@),
        describable(lines),
{
}

/// Without a name, a user or a proper port there is no description.
pub proof fn incomplete_hosts_are_not_described(lines: Seq<Seq<char>>)
    ensures
        values_of(lines, "hostname"@).len() == 0 ==> !describable(lines),
        values_of(lines, "user"@).len() == 0 ==> !describable(lines),
        values_of(lines, "port"@).len() == 0 ==> !describable(lines),
        values_of(lines, "port"@).len() > 0 && (text::parsed_u16(values_of(lines, "port"@)[0])
            is None || text::parsed_u16(values_of(lines, "port"@)[0]) == Some(0u16))
            ==> !describable(lines),
{
}

/// A test that ran out of time has timed out and one that worked has worked, whatever was printed.
/// Of the others, what was printed decides, in whatever case: refused credentials, then an unknown
/// or changed host key, then the network.
pub proof fn printed_phrases_decide_the_outcome(timed_out: bool, success: bool, stderr: Seq<char>)
    ensures
        ({
            let r = outcome_of(timed_out, success, stderr);
            let says = |phrase: Seq<char>| text::holds(text::lowered(stderr), phrase);
            let credentials = says("permission denied"@) || says("authentication failed"@) || says(
                "no supported authentication methods"@,
            );
            let identity = says("host key verification failed"@) || says(
                "remote host identification has changed"@,
            );
            let network = says("connection refused"@) || says("no route to host"@) || says(
                "could not resolve hostname"@,
            ) || says("operation timed out"@) || says("connection timed out"@);
            &&& timed_out <==> r == ConnectionOutcome::TimedOut
            &&& success && !timed_out <==> r == ConnectionOutcome::Success
            &&& !timed_out && !success ==> {
                &&& credentials <==> r == ConnectionOutcome::AuthenticationFailed
                &&& identity && !credentials <==> r == ConnectionOutcome::HostKeyVerificationFailed
                &&& network && !identity && !credentials <==> r == ConnectionOutcome::NetworkFailed
                &&& !network && !identity && !credentials <==> r == ConnectionOutcome::Failed
            }
        }),
{
}

/// Every outcome of a test has its sentence.
pub proof fn outcomes_have_fixed_sentences(r: ConnectionOutcome)
    ensures
        r == ConnectionOutcome::Success ==> r.shown() == "connection succeeded"@,
        r == ConnectionOutcome::AuthenticationFailed ==> r.shown()
            == "authentication failed; check the configured key or SSH agent"@,
        r == ConnectionOutcome::HostKeyVerificationFailed ==> r.shown()
            == "host-key verification failed; establish or repair trust with OpenSSH outside TunnelDeck"@,
        r == ConnectionOutcome::NetworkFailed ==> r.shown()
            == "the SSH host could not be reached"@,
        r == ConnectionOutcome::TimedOut ==> r.shown() == "the SSH connection test timed out"@,
        r == ConnectionOutcome::Failed ==> r.shown()
            == "the SSH connection test failed; run OpenSSH directly for more detail"@,
{
}

/// Errors about hosts say what failed.
pub proof fn host_errors_say_what_failed(error: HostError)
    ensures
        match error {
            HostError::InvalidAlias(cause) => error.shown() == "SSH host alias is invalid: "@
                + validation::refusal_message(cause@),
            HostError::TraversalLimit { kind, limit } => error.shown()
                == "SSH config traversal exceeded the "@ + text::decimal(limit as nat) + " "@
                + traversal_name(kind) + " limit"@,
            HostError::Spawn(_) => error.shown() == "could not start OpenSSH"@,
            HostError::QueryTimedOut => error.shown()
                == "OpenSSH effective-configuration query timed out"@,
            HostError::QueryFailed => error.shown()
                == "OpenSSH could not resolve effective configuration"@,
            HostError::InvalidEffectiveConfiguration => error.shown()
                == "OpenSSH returned invalid effective configuration"@,
        },
{
}

/// A query prints the settings of one host and connects to nothing. A test asks for nothing, opens no
/// forwarding, gives up after one attempt of ten seconds and runs `true`. In both the alias stands
/// behind the mark after which nothing is an option.
pub proof fn hosts_are_asked_about_safely(alias: Seq<char>)
    ensures
        query_arguments_of(alias) == seq!["-G"@, "--"@, alias],
        test_arguments_of(alias).len() == 13,
        test_arguments_of(alias).take(4) == seq!["-T"@, "-n"@, "-o"@, "BatchMode=yes"@],
        test_arguments_of(alias).subrange(4, 10) == seq![
            "-o"@,
            "ClearAllForwardings=yes"@,
            "-o"@,
            "ConnectTimeout=10"@,
            "-o"@,
            "ConnectionAttempts=1"@,
        ],
        test_arguments_of(alias).skip(10) == seq!["--"@, alias, "true"@],
{
}

/// Of what is too long, the start is kept.
pub proof fn long_outputs_are_cut(s: Seq<u8>, limit: int)
    requires
        0 <= limit,
    ensures
        bounded(s, limit).len() <= limit,
        s.len() <= limit ==> bounded(s, limit) == s,
        s.len() > limit ==> bounded(s, limit).len() == limit,
        bounded(s, limit) == s.take(bounded(s, limit).len() as int),
{
    assert(s.take(s.len() as int) =~= s);
}

/// A walk that is done is reported with its aliases and its warnings, one that reached a limit with
/// this limit, and one that needs an answer with its question.
pub proof fn reports_tell_how_it_went(walk: Walk, r: Discovery)
    requires
        reports(walk, r),
    ensures
        walk matches Walk::Done(found) ==> (r matches Discovery::Finished(report) && (forall|
            name: Seq<char>,
        |
            found.aliases.contains(name) <==> #[trigger] text::texts(report.aliases@).contains(name))
            && report.warnings@.len() == found.warnings.len()),
        walk matches Walk::Limit(kind) ==> (r matches Discovery::Refused(
            HostError::TraversalLimit { kind: told, limit },
        ) && told == kind && limit == (if kind == TraversalKind::FileCount {
            256usize
        } else {
            32usize
        })),
        walk matches Walk::Needs(question) ==> (r matches Discovery::Needs(lookup) && lookup@
            == question),
{
    if walk is Done {
        let found = walk->Done_0;
        let names = text::texts(r->Finished_0.aliases@);
        assert forall|name: Seq<char>| found.aliases.contains(name) <==> #[trigger] names.contains(
            name,
        ) by {
            assert(names.to_set().contains(name) <==> names.contains(name));
        }
        assert(warning_models(r->Finished_0.warnings@).len() == r->Finished_0.warnings@.len());
    }
}

/// The aliases of a report come in the order of their characters, and none comes twice.
pub proof fn reported_aliases_are_in_order(walk: Walk, r: Discovery, i: int, j: int)
    requires
        reports(walk, r),
        r is Finished,
        0 <= i < j < r->Finished_0.aliases@.len(),
    ensures
        precedes(r->Finished_0.aliases@[i]@, r->Finished_0.aliases@[j]@),
        r->Finished_0.aliases@[i]@ != r->Finished_0.aliases@[j]@,
{
    let names = text::texts(r->Finished_0.aliases@);
    assert(precedes(names[i], names[j]));
    names_are_ordered(names[i], names[j], 'a', 'b');
}

/// Warnings are reported with the path and the kind with which they were found, in order.
pub proof fn warnings_are_reported_in_order(walk: Walk, r: Discovery, i: int)
    requires
        reports(walk, r),
        walk is Done,
        0 <= i < walk->Done_0.warnings.len(),
    ensures
        i < r->Finished_0.warnings@.len(),
        r->Finished_0.warnings@[i].path@ == walk->Done_0.warnings[i].0,
        r->Finished_0.warnings@[i].kind == walk->Done_0.warnings[i].1,
{
    let list = r->Finished_0.warnings@;
    assert(warning_models(list)[i] == (list[i].path@, list[i].kind));
}

/// Files are followed in their order: what comes next sees what was found before. The walk stops at
/// the first file that cannot be followed.
pub proof fn files_are_followed_in_order(
    sources: Sources,
    places: Places,
    paths: Seq<Seq<u8>>,
    p: Seq<u8>,
    left: nat,
    found: Found,
)
    ensures
        paths_walk(sources, places, Seq::empty(), left, found) == Walk::Done(found),
        match paths_walk(sources, places, paths, left, found) {
            Walk::Done(f) => paths_walk(sources, places, paths.push(p), left, found) == visit_of(
                sources,
                places,
                p,
                left,
                f,
            ),
            stopped => paths_walk(sources, places, paths.push(p), left, found) == stopped,
        },
{
    assert(paths.push(p).drop_last() =~= paths);
}

/// So are the steps of a file: aliases are added where they stand, and references are followed where
/// they stand.
pub proof fn steps_are_taken_in_order(
    sources: Sources,
    places: Places,
    steps: Seq<Step>,
    step: Step,
    left: nat,
    found: Found,
)
    ensures
        steps_walk(sources, places, Seq::empty(), left, found) == Walk::Done(found),
        match steps_walk(sources, places, steps, left, found) {
            Walk::Done(f) => match step {
                Step::Alias(name) => steps_walk(sources, places, steps.push(step), left, found)
                    == Walk::Done(Found { aliases: f.aliases.insert(name), ..f }),
                Step::Open(value) => steps_walk(sources, places, steps.push(step), left, found)
                    == open_of(sources, places, value, left, f),
            },
            stopped => steps_walk(sources, places, steps.push(step), left, found) == stopped,
        },
{
    assert(steps.push(step).drop_last() =~= steps);
}

/// A discovery begins at the configuration with nothing found and room for 32 references.
pub proof fn discoveries_begin_with_nothing(sources: Sources, places: Places, config_path: Seq<u8>)
    ensures
        discovery_of(sources, places, config_path) == visit_of(
            sources,
            places,
            config_path,
            33,
            Found { visited: Seq::empty(), aliases: Set::empty(), warnings: Seq::empty() },
        ),
{
}

/// The lines of a file are those of its text, joined where they are continued. A file may end in a
/// continued line.
pub proof fn files_end_in_their_last_line(s: Seq<char>)
    ensures
        ({
            let p = join_lines(text::lines(s));
            &&& p.current.len() == 0 ==> logical_lines_of(s) == p.done
            &&& p.current.len() > 0 ==> logical_lines_of(s) == p.done.push(p.current)
        }),
        join_lines(Seq::empty()).done == Seq::<Seq<char>>::empty(),
        join_lines(Seq::empty()).current == Seq::<char>::empty(),
{
}

/// What values say is what they hold.
pub proof fn lookups_say_what_they_hold(lookup: Lookup, value: Option<String>, list: Seq<Vec<u8>>, i: int)
    ensures
        lookup matches Lookup::Canonical(p) ==> lookup@ == Question::Canonical(p@),
        lookup matches Lookup::Contents(p) ==> lookup@ == Question::Contents(p@),
        lookup matches Lookup::Matches(p) ==> lookup@ == Question::Matches(p@),
        value matches Some(found) ==> optional_text(value) == Some(found@),
        value is None ==> optional_text(value) is None,
        byte_lists(list).len() == list.len(),
        0 <= i < list.len() ==> byte_lists(list)[i] == list[i]@,
{
}

/// A later answer to a question replaces an earlier one and leaves all other answers as they are.
pub proof fn later_answers_count<T>(entries: Seq<(Vec<u8>, T)>, entry: (Vec<u8>, T), other: Seq<u8>)
    ensures
        answers_of(entries.push(entry)).dom().contains(entry.0@),
        answers_of(entries.push(entry))[entry.0@] == entry.1,
        other != entry.0@ ==> (answers_of(entries.push(entry)).dom().contains(other) <==> answers_of(
            entries,
        ).dom().contains(other)),
        other != entry.0@ && answers_of(entries).dom().contains(other) ==> answers_of(
            entries.push(entry),
        )[other] == answers_of(entries)[other],
{
    assert(entries.push(entry).drop_last() =~= entries);
}

} // verus!
