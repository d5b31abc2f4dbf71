//! What the log looks like, and when its file is put away.

use crate::text::{
    chars_of, collapse, collapsed, collapsed_is_one_line, decimal, decimal_text, join2, join3,
    signed_decimal, signed_decimal_text, string_of, white_space,
};
use vstd::prelude::*;
use vstd::string::*;

verus! {

/// The size above which the log file is put away.
pub const MAX_SIZE_BYTES: u64 = 10485760;

/// The nanoseconds that lie at least between two looks at the log file's size.
pub const ROLL_CHECK_INTERVAL_NANOS: u64 = 5_000_000_000;

/// How important an entry is.
#[derive(Debug, Clone, Copy, PartialEq, Eq, Structural)]
pub enum LogLevel {
    Important,
    Debug,
    Preset,
    Warning,
    Error,
    Critical,
}

/// How the mark of a level looks on a terminal.
#[derive(Debug, Clone, Copy, PartialEq, Eq, Structural)]
pub enum LogStyle {
    OnGreenBold,
    Cyan,
    Normal,
    Yellow,
    Red,
    OnRedBoldBlink,
}

/// The mark of a level.
pub open spec fn level_mark(level: LogLevel) -> Seq<char> {
    match level {
        LogLevel::Important => "[IMPORTANT]"@,
        LogLevel::Debug => "[+]"@,
        LogLevel::Preset => "[-]"@,
        LogLevel::Warning => "[*]"@,
        LogLevel::Error => "[!]"@,
        LogLevel::Critical => "[CRITICAL]"@,
    }
}

/// The syslog priority of a level: the lower, the more urgent.
pub open spec fn level_priority(level: LogLevel) -> u8 {
    match level {
        LogLevel::Critical => 2,
        LogLevel::Error => 3,
        LogLevel::Warning => 4,
        LogLevel::Important => 5,
        LogLevel::Preset => 6,
        LogLevel::Debug => 7,
    }
}

/// Whether entries of a level go to the error stream.
pub open spec fn level_to_stderr(level: LogLevel) -> bool {
    level == LogLevel::Error || level == LogLevel::Critical || level == LogLevel::Warning
}

impl LogLevel {
    /// The mark of the level.
    pub fn as_str(&self) -> (r: &'static str)
        ensures
            r@ == level_mark(*self),
    {
        match self {
            LogLevel::Important => "[IMPORTANT]",
            LogLevel::Debug => "[+]",
            LogLevel::Preset => "[-]",
            LogLevel::Warning => "[*]",
            LogLevel::Error => "[!]",
            LogLevel::Critical => "[CRITICAL]",
        }
    }

    /// How the mark of the level looks on a terminal.
    pub fn style(&self) -> (r: LogStyle)
        ensures
            r == (match *self {
                LogLevel::Important => LogStyle::OnGreenBold,
                LogLevel::Debug => LogStyle::Cyan,
                LogLevel::Preset => LogStyle::Normal,
                LogLevel::Warning => LogStyle::Yellow,
                LogLevel::Error => LogStyle::Red,
                LogLevel::Critical => LogStyle::OnRedBoldBlink,
            }),
    {
        match self {
            LogLevel::Important => LogStyle::OnGreenBold,
            LogLevel::Debug => LogStyle::Cyan,
            LogLevel::Preset => LogStyle::Normal,
            LogLevel::Warning => LogStyle::Yellow,
            LogLevel::Error => LogStyle::Red,
            LogLevel::Critical => LogStyle::OnRedBoldBlink,
        }
    }

    /// The syslog priority of the level, which journald takes off the start of a line.
    pub fn syslog_priority(&self) -> (r: u8)
        ensures
            r == level_priority(*self),
    {
        match self {
            LogLevel::Critical => 2,
            LogLevel::Error => 3,
            LogLevel::Warning => 4,
            LogLevel::Important => 5,
            LogLevel::Preset => 6,
            LogLevel::Debug => 7,
        }
    }

    /// Whether entries of the level go to the error stream; the others go to the output stream.
    pub fn to_stderr(&self) -> (r: bool)
        ensures
            r == level_to_stderr(*self),
    {
        match self {
            LogLevel::Error | LogLevel::Critical | LogLevel::Warning => true,
            _ => false,
        }
    }
}

/// Where the log goes.
#[derive(Debug, Clone, Copy, PartialEq, Eq, Structural)]
pub enum LogMode {
    /// To journald, which keeps it.
    Journald,
    /// To the terminal and to a file.
    File,
}

/// Where the log goes: to journald where `JOURNAL_STREAM` is set and not empty.
pub fn log_mode(journal_stream: Option<&[u8]>) -> (r: LogMode)
    ensures
        r == (if journal_stream matches Some(v) && v@.len() > 0 {
            LogMode::Journald
        } else {
            LogMode::File
        }),
{
    match journal_stream {
        Some(v) => if v.len() > 0 {
            LogMode::Journald
        } else {
            LogMode::File
        },
        None => LogMode::File,
    }
}

/// Whether the terminal gets colors: `NO_COLOR` is not set, and the output is a terminal.
pub fn use_color(no_color: bool, terminal: bool) -> (r: bool)
    ensures
        r == (!no_color && terminal),
{
    !no_color && terminal
}

/// An entry of the log.
#[derive(Debug)]
pub struct LogStruct {
    pub level: LogLevel,
    pub topic: String,
    pub content: String,
}

impl LogStruct {
    /// An entry.
    pub fn new(level: LogLevel, topic: &str, content: &str) -> (r: Self)
        ensures
            r.level == level,
            r.topic@ == topic@,
            r.content@ == content@,
    {
        LogStruct { level, topic: topic.to_owned(), content: content.to_owned() }
    }
}

/// An entry over several lines: the mark and the time, the topic, and the content if there is one.
/// Without a time the topic stands beside the mark.
pub open spec fn entry_text(prefix: Seq<char>, time: Option<Seq<char>>, topic: Seq<char>, content: Seq<char>) -> Seq<char> {
    let head = match time {
        Some(t) => prefix + " "@ + t + "\n    "@ + topic,
        None => prefix + " "@ + topic,
    };
    if content.len() == 0 {
        head
    } else {
        head + "\n    "@ + content
    }
}

/// The text of an optional string.
pub open spec fn optional_text(t: Option<&str>) -> Option<Seq<char>> {
    match t {
        Some(t) => Some(t@),
        None => None,
    }
}

/// Writes an entry over several lines, after a mark.
pub fn format_entry(prefix: &str, time: Option<&str>, topic: &str, content: &str) -> (r: String)
    ensures
        r@ == entry_text(prefix@, optional_text(time), topic@, content@),
{
    let mut s = prefix.to_owned();
    s.append(" ");
    match time {
        Some(t) => {
            s.append(t);
            s.append("\n    ");
        },
        None => {},
    }
    s.append(topic);
    if !content.is_empty() {
        s.append("\n    ");
        s.append(content);
    }
    s
}

/// A topic on one line: as it is, or where it has a line break, its words.
pub open spec fn one_line(topic: Seq<char>) -> Seq<char> {
    if topic.contains('\n') {
        collapsed(topic)
    } else {
        topic
    }
}

fn on_one_line(topic: &str) -> (r: String)
    ensures
        r@ == one_line(topic@),
{
    let chars = chars_of(topic);
    let mut i: usize = 0;
    while i < chars.len()
        invariant
            i <= chars@.len(),
            chars@ == topic@,
            forall|j: int| 0 <= j < i ==> topic@[j] != '\n',
        decreases chars@.len() - i,
    {
        if chars[i] == '\n' {
            assert(topic@[i as int] == '\n');
            return collapse(topic);
        }
        i += 1;
    }
    topic.to_owned()
}

/// An entry on one line: the priority, the mark, the topic, and the words of the content.
pub open spec fn journald_text(level: LogLevel, topic: Seq<char>, content: Seq<char>) -> Seq<char> {
    let title = one_line(topic);
    let words = collapsed(content);
    let body = if words.len() == 0 {
        level_mark(level) + " "@ + title
    } else {
        level_mark(level) + " "@ + title + ": "@ + words
    };
    "<"@ + decimal(level_priority(level) as nat) + ">"@ + body
}

/// Writes an entry on one line, for journald.
pub fn render_journald(info: &LogStruct) -> (r: String)
    ensures
        r@ == journald_text(info.level, info.topic@, info.content@),
{
    let words = collapse(info.content.as_str());
    let title = on_one_line(info.topic.as_str());
    let mut body = join3(info.level.as_str(), " ", title.as_str());
    if !words.as_str().is_empty() {
        body.append(": ");
        body.append(words.as_str());
    }
    let mut s = join3("<", decimal_text(info.level.syslog_priority() as u64).as_str(), ">");
    s.append(body.as_str());
    assert(s@ =~= journald_text(info.level, info.topic@, info.content@));
    s
}

/// An entry for journald is one line, whatever its topic and content, and starts with its priority
/// between angle brackets.
pub proof fn journald_entry_is_one_line(level: LogLevel, topic: Seq<char>, content: Seq<char>)
    ensures
        journald_text(level, topic, content).len() > 3,
        journald_text(level, topic, content)[0] == '<',
        journald_text(level, topic, content)[1] as u32 == 48 + level_priority(level),
        journald_text(level, topic, content)[2] == '>',
        forall|i: int|
            0 <= i < journald_text(level, topic, content).len() ==> #[trigger] journald_text(level, topic, content)[i]
                != '\n',
{
    collapsed_is_one_line(content);
    collapsed_is_one_line(topic);
    let title = one_line(topic);
    let words = collapsed(content);
    assert(white_space('\n'));
    assert forall|i: int| 0 <= i < words.len() implies #[trigger] words[i] != '\n' by {}
    assert forall|i: int| 0 <= i < title.len() implies #[trigger] title[i] != '\n' by {}
    reveal_strlit("[IMPORTANT]");
    reveal_strlit("[+]");
    reveal_strlit("[-]");
    reveal_strlit("[*]");
    reveal_strlit("[!]");
    reveal_strlit("[CRITICAL]");
    reveal_strlit(" ");
    reveal_strlit(": ");
    reveal_strlit("<");
    reveal_strlit(">");
    let mark = level_mark(level);
    assert forall|i: int| 0 <= i < mark.len() implies #[trigger] mark[i] != '\n' by {}
    let number = decimal(level_priority(level) as nat);
    assert(number.len() == 1 && number[0] == ((48 + level_priority(level)) as u8) as char);
    let t = journald_text(level, topic, content);
    assert forall|i: int| 0 <= i < t.len() implies #[trigger] t[i] != '\n' by {
        let body = mark.len() + 1 + title.len();
        if i < 3 {
        } else if i < 3 + mark.len() {
            assert(t[i] == mark[i - 3]);
        } else if i == 3 + mark.len() {
        } else if i < 3 + body {
            assert(t[i] == title[i - 4 - mark.len()]);
        } else if i < 3 + body + 2 {
        } else {
            assert(t[i] == words[i - 5 - body]);
        }
    }
}

/// Whether it is time to look at the log file's size again.
pub fn roll_check_due(last: Option<u64>, now: u64) -> (r: bool)
    ensures
        r == (match last {
            Some(prev) => now >= prev && now - prev >= ROLL_CHECK_INTERVAL_NANOS,
            None => true,
        }),
        last matches Some(prev) ==> (r <==> now >= prev + 5_000_000_000),
{
    match last {
        Some(prev) => now >= prev && now - prev >= ROLL_CHECK_INTERVAL_NANOS,
        None => true,
    }
}

/// Whether a log file of that size is to be put away.
pub fn needs_roll(size: u64) -> (r: bool)
    ensures
        r == (size > MAX_SIZE_BYTES),
        r <==> size > 10_485_760,
{
    size > MAX_SIZE_BYTES
}

/// What became of renaming the log file.
#[derive(Debug, Clone, Copy, PartialEq, Eq, Structural)]
pub enum RenameOutcome {
    Done,
    /// A file of an earlier attempt is in the way.
    AlreadyExists,
    /// There is no log file.
    NotFound,
    Failed,
}

/// What to do next with a log file that is put away.
#[derive(Debug, Clone, Copy, PartialEq, Eq, Structural)]
pub enum RollStep {
    /// Compress the renamed file.
    Archive,
    /// Compress the file of the earlier attempt, then rename again.
    RepairAndRetry,
    /// There is nothing to do.
    Stop,
    /// It cannot be done.
    GiveUp,
}

/// Decides what to do after renaming the log file; after a repair it is tried once more.
pub fn roll_step(renamed: RenameOutcome, repaired: bool) -> (r: RollStep)
    ensures
        r == (match renamed {
            RenameOutcome::Done => RollStep::Archive,
            RenameOutcome::AlreadyExists => if repaired {
                RollStep::GiveUp
            } else {
                RollStep::RepairAndRetry
            },
            RenameOutcome::NotFound => if repaired {
                RollStep::GiveUp
            } else {
                RollStep::Stop
            },
            RenameOutcome::Failed => RollStep::GiveUp,
        }),
{
    match renamed {
        RenameOutcome::Done => RollStep::Archive,
        RenameOutcome::AlreadyExists => if repaired {
            RollStep::GiveUp
        } else {
            RollStep::RepairAndRetry
        },
        RenameOutcome::NotFound => if repaired {
            RollStep::GiveUp
        } else {
            RollStep::Stop
        },
        RenameOutcome::Failed => RollStep::GiveUp,
    }
}

/// The log file: the path that the environment names.
pub fn log_file(path: &str) -> (r: String)
    ensures
        r@ == path@,
{
    path.to_owned()
}

/// The name that the log file has while it is put away.
pub fn log_tmp_file(path: &str) -> (r: String)
    ensures
        r@ == path@ + ".tmp"@,
{
    join2(path, ".tmp")
}

/// The part of a path up to its last slash, which is the directory that the file stands in; nothing
/// where there is no slash.
pub open spec fn beside(path: Seq<char>) -> Seq<char>
    decreases path.len(),
{
    if path.len() == 0 || path.last() == '/' {
        path
    } else {
        beside(path.drop_last())
    }
}

fn directory_of(path: &str) -> (r: String)
    ensures
        r@ == beside(path@),
{
    let chars = chars_of(path);
    let mut n: usize = chars.len();
    assert(path@.subrange(0, n as int) =~= path@);
    while n > 0 && chars[n - 1] != '/'
        invariant
            n <= chars@.len(),
            chars@ == path@,
            beside(path@) == beside(path@.subrange(0, n as int)),
        decreases n,
    {
        proof {
            let upto = path@.subrange(0, n as int);
            assert(upto.last() == path@[n - 1]);
            assert(upto.drop_last() =~= path@.subrange(0, n - 1));
        }
        n -= 1;
    }
    proof {
        let upto = path@.subrange(0, n as int);
        assert(n > 0 ==> upto.last() == path@[n - 1]);
    }
    string_of(vstd::slice::slice_subrange(chars.as_slice(), 0, n))
}

/// The text of a time that may be unknown.
pub open spec fn time_or_unknown(time: Option<Seq<char>>) -> Seq<char> {
    match time {
        Some(t) => t,
        None => "XXXX_XXXX"@,
    }
}

/// The archive of a log file, which stands beside it: when the file was made, when it was put away,
/// and the nanoseconds of that.
pub fn archive_file(path: &str, made: Option<&str>, now: &str, nanos: i64) -> (r: String)
    ensures
        r@ == beside(path@) + time_or_unknown(optional_text(made)) + "-"@ + now@ + "-"@ + signed_decimal(nanos as int)
            + ".gz"@,
{
    let mut s = directory_of(path);
    match made {
        Some(t) => s.append(t),
        None => s.append("XXXX_XXXX"),
    }
    s.append("-");
    s.append(now);
    s.append("-");
    s.append(signed_decimal_text(nanos).as_str());
    s.append(".gz");
    s
}

/// The archive of a file that an earlier attempt left behind.
pub fn repair_file(path: &str, made: Option<&str>, nanos: i64) -> (r: String)
    ensures
        r@ == beside(path@) + "REPAIR-"@ + time_or_unknown(optional_text(made)) + "-"@ + signed_decimal(nanos as int)
            + ".gz"@,
{
    let mut s = directory_of(path);
    s.append("REPAIR-");
    match made {
        Some(t) => s.append(t),
        None => s.append("XXXX_XXXX"),
    }
    s.append("-");
    s.append(signed_decimal_text(nanos).as_str());
    s.append(".gz");
    s
}

/// The marks and the priorities of the levels, and which go to the error stream: the more urgent, the
/// lower the priority.
pub proof fn levels_look_like_this()
    ensures
        level_mark(LogLevel::Important) == "[IMPORTANT]"@ && level_priority(LogLevel::Important) == 5 && !level_to_stderr(
            LogLevel::Important,
        ),
        level_mark(LogLevel::Debug) == "[+]"@ && level_priority(LogLevel::Debug) == 7 && !level_to_stderr(LogLevel::Debug),
        level_mark(LogLevel::Preset) == "[-]"@ && level_priority(LogLevel::Preset) == 6 && !level_to_stderr(LogLevel::Preset),
        level_mark(LogLevel::Warning) == "[*]"@ && level_priority(LogLevel::Warning) == 4 && level_to_stderr(LogLevel::Warning),
        level_mark(LogLevel::Error) == "[!]"@ && level_priority(LogLevel::Error) == 3 && level_to_stderr(LogLevel::Error),
        level_mark(LogLevel::Critical) == "[CRITICAL]"@ && level_priority(LogLevel::Critical) == 2 && level_to_stderr(
            LogLevel::Critical,
        ),
        MAX_SIZE_BYTES == 10_485_760,
        ROLL_CHECK_INTERVAL_NANOS == 5_000_000_000,
{
}

/// What an entry has, and in which order: the mark; the time, if there is one, and then the topic on
/// the next line; and the content, if there is one, on a line of its own.
pub proof fn entries_have_all_parts(prefix: Seq<char>, time: Seq<char>, topic: Seq<char>, content: Seq<char>)
    ensures
        entry_text(prefix, None, topic, Seq::empty()) == prefix + " "@ + topic,
        entry_text(prefix, Some(time), topic, Seq::empty()) == prefix + " "@ + time + "\n    "@ + topic,
        content.len() > 0 ==> entry_text(prefix, None, topic, content) == prefix + " "@ + topic + "\n    "@ + content,
        content.len() > 0 ==> entry_text(prefix, Some(time), topic, content) == prefix + " "@ + time + "\n    "@ + topic
            + "\n    "@ + content,
{
}

/// What an entry for journald has: the priority, the mark, the topic, and the words of the content where
/// it has some; a topic without a line break stays as it is.
pub proof fn journald_entries_have_all_parts(level: LogLevel, topic: Seq<char>, content: Seq<char>)
    ensures
        !topic.contains('\n') && collapsed(content).len() > 0 ==> journald_text(level, topic, content) == "<"@ + decimal(
            level_priority(level) as nat,
        ) + ">"@ + (level_mark(level) + " "@ + topic + ": "@ + collapsed(content)),
        !topic.contains('\n') && collapsed(content).len() == 0 ==> journald_text(level, topic, content) == "<"@ + decimal(
            level_priority(level) as nat,
        ) + ">"@ + (level_mark(level) + " "@ + topic),
        topic.contains('\n') ==> journald_text(level, topic, content) == journald_text(level, collapsed(topic), content),
{
    if topic.contains('\n') {
        collapsed_is_one_line(topic);
        assert(white_space('\n'));
        let words = collapsed(topic);
        assert forall|i: int| 0 <= i < words.len() implies #[trigger] words[i] != '\n' by {}
        assert(!words.contains('\n'));
    }
}

/// An archive stands in the directory of its log file, which ends with the last slash of the path; a
/// path without a slash is in no directory. A time that is not known is crossed out.
pub proof fn archives_stand_beside(dir: Seq<char>, name: Seq<char>, time: Seq<char>)
    requires
        !name.contains('/'),
    ensures
        beside(name) == Seq::<char>::empty(),
        beside(dir.push('/') + name) == dir.push('/'),
        time_or_unknown(Some(time)) == time,
        time_or_unknown(None) == "XXXX_XXXX"@,
    decreases name.len(),
{
    if name.len() > 0 {
        let rest = name.drop_last();
        assert(name[name.len() - 1] == name.last());
        assert forall|i: int| 0 <= i < rest.len() implies rest[i] != '/' by {
            assert(name[i] == rest[i]);
        }
        archives_stand_beside(dir, rest, time);
        assert((dir.push('/') + name).drop_last() =~= dir.push('/') + rest);
        assert((dir.push('/') + name).last() == name.last());
    } else {
        assert(dir.push('/') + name =~= dir.push('/'));
    }
}

} // verus!
