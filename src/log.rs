use vstd::prelude::*;
use vstd::string::{StrSliceExecFns, StringExecFns};

verus! {

/// Severity of a log line. `Off` as a threshold silences everything.
#[derive(Clone, Copy, Debug, PartialEq, Eq, Structural)]
pub enum LogLevel {
    Debug,
    Info,
    Warn,
    Error,
    Off,
}

#[derive(Clone, Copy, Debug, PartialEq, Eq, Structural)]
pub enum LogCategory {
    MapLayer,
    Simulation,
    App,
    General,
}

/// The threshold and the categories that are switched on.
#[derive(Clone, Copy, Debug, PartialEq, Eq, Structural)]
pub struct LogConfig {
    pub level: LogLevel,
    pub map: bool,
    pub simulation: bool,
    pub app: bool,
    pub general: bool,
}

pub open spec fn rank(l: LogLevel) -> int {
    match l {
        LogLevel::Debug => 0,
        LogLevel::Info => 1,
        LogLevel::Warn => 2,
        LogLevel::Error => 3,
        LogLevel::Off => 4,
    }
}

pub open spec fn category_on(config: LogConfig, c: LogCategory) -> bool {
    match c {
        LogCategory::MapLayer => config.map,
        LogCategory::Simulation => config.simulation,
        LogCategory::App => config.app,
        LogCategory::General => config.general,
    }
}

/// A line of severity `level` in category `c` is written out.
pub open spec fn emits(config: LogConfig, level: LogLevel, c: LogCategory) -> bool {
    level != LogLevel::Off && rank(level) >= rank(config.level) && category_on(config, c)
}

pub open spec fn prefix_of(level: LogLevel) -> Seq<char> {
    match level {
        LogLevel::Debug => "[DEBUG]"@,
        LogLevel::Info => "[INFO]"@,
        LogLevel::Warn => "[WARN]"@,
        LogLevel::Error => "[ERROR]"@,
        LogLevel::Off => "[OFF]"@,
    }
}

pub open spec fn category_tag(c: LogCategory) -> Seq<char> {
    match c {
        LogCategory::MapLayer => "MAP"@,
        LogCategory::Simulation => "SIM"@,
        LogCategory::App => "APP"@,
        LogCategory::General => "GEN"@,
    }
}

/// `PREFIX [CAT] [source] message`, or `PREFIX [CAT] message` without a source.
pub open spec fn log_line(level: LogLevel, c: LogCategory, source: Option<Seq<char>>, message: Seq<char>) -> Seq<char> {
    let head = prefix_of(level) + " ["@ + category_tag(c) + "] "@;
    match source {
        Some(s) => head + "["@ + s + "] "@ + message,
        None => head + message,
    }
}

/// What a logging call hands back: the line to write, if it is written.
pub open spec fn outcome(config: LogConfig, level: LogLevel, c: LogCategory, source: Option<Seq<char>>, message: Seq<char>, r: Option<String>) -> bool {
    if emits(config, level, c) {
        r matches Some(line) && line@ == log_line(level, c, source, message)
    } else {
        r is None
    }
}

impl LogCategory {
    pub fn as_str(&self) -> (s: &'static str)
        ensures
            s@ == category_tag(*self),
    {
        match self {
            LogCategory::MapLayer => "MAP",
            LogCategory::Simulation => "SIM",
            LogCategory::App => "APP",
            LogCategory::General => "GEN",
        }
    }
}

impl LogConfig {
    /// Threshold `Info`, every category on.
    pub fn new() -> (c: Self)
        ensures
            c.level == LogLevel::Info,
            c.map && c.simulation && c.app && c.general,
    {
        LogConfig { level: LogLevel::Info, map: true, simulation: true, app: true, general: true }
    }
}

fn level_rank(l: LogLevel) -> (r: u8)
    ensures
        r == rank(l),
{
    match l {
        LogLevel::Debug => 0,
        LogLevel::Info => 1,
        LogLevel::Warn => 2,
        LogLevel::Error => 3,
        LogLevel::Off => 4,
    }
}

fn prefix(level: LogLevel) -> (s: &'static str)
    ensures
        s@ == prefix_of(level),
{
    match level {
        LogLevel::Debug => "[DEBUG]",
        LogLevel::Info => "[INFO]",
        LogLevel::Warn => "[WARN]",
        LogLevel::Error => "[ERROR]",
        LogLevel::Off => "[OFF]",
    }
}

pub fn get_log_level(config: &LogConfig) -> (l: LogLevel)
    ensures
        l == config.level,
{
    config.level
}

pub fn set_log_level(config: &mut LogConfig, level: LogLevel)
    ensures
        *final(config) == (LogConfig { level, ..*old(config) }),
{
    config.level = level;
}

pub fn set_category_enabled(config: &mut LogConfig, category: LogCategory, enabled: bool)
    ensures
        category_on(*final(config), category) == enabled,
        final(config).level == old(config).level,
        forall|c: LogCategory| c != category ==> category_on(*final(config), c) == category_on(*old(config), c),
{
    match category {
        LogCategory::MapLayer => config.map = enabled,
        LogCategory::Simulation => config.simulation = enabled,
        LogCategory::App => config.app = enabled,
        LogCategory::General => config.general = enabled,
    }
}

pub fn is_category_enabled(config: &LogConfig, category: LogCategory) -> (on: bool)
    ensures
        on == category_on(*config, category),
{
    match category {
        LogCategory::MapLayer => config.map,
        LogCategory::Simulation => config.simulation,
        LogCategory::App => config.app,
        LogCategory::General => config.general,
    }
}

fn would_emit(config: &LogConfig, level: LogLevel, category: LogCategory) -> (r: bool)
    ensures
        r == emits(*config, level, category),
{
    level != LogLevel::Off && level_rank(level) >= level_rank(config.level) && is_category_enabled(config, category)
}

fn log_base(config: &LogConfig, level: LogLevel, category: LogCategory, message: &str, source: Option<&str>) -> (r: Option<String>)
    ensures
        outcome(*config, level, category, match source {
            Some(s) => Some(s@),
            None => None,
        }, message@, r),
{
    if !would_emit(config, level, category) {
        return None;
    }
    let mut line = String::new();
    line.append(prefix(level));
    line.append(" [");
    line.append(category.as_str());
    line.append("] ");
    match source {
        Some(s) => {
            line.append("[");
            line.append(s);
            line.append("] ");
        },
        None => {},
    }
    line.append(message);
    proof {
        let head = prefix_of(level) + " ["@ + category_tag(category) + "] "@;
        match source {
            Some(s) => {
                assert(line@ =~= head + "["@ + s@ + "] "@ + message@);
            },
            None => {
                assert(line@ =~= head + message@);
            },
        }
    }
    Some(line)
}

pub fn debug(config: &LogConfig, message: &str) -> (r: Option<String>)
    ensures
        outcome(*config, LogLevel::Debug, LogCategory::General, None, message@, r),
{
    log_base(config, LogLevel::Debug, LogCategory::General, message, None)
}

pub fn debug_with_category(config: &LogConfig, category: LogCategory, message: &str) -> (r: Option<String>)
    ensures
        outcome(*config, LogLevel::Debug, category, None, message@, r),
{
    log_base(config, LogLevel::Debug, category, message, None)
}

pub open spec fn digit_of(d: int) -> Seq<char> {
    if d == 0 {
        "0"@
    } else if d == 1 {
        "1"@
    } else if d == 2 {
        "2"@
    } else if d == 3 {
        "3"@
    } else if d == 4 {
        "4"@
    } else if d == 5 {
        "5"@
    } else if d == 6 {
        "6"@
    } else if d == 7 {
        "7"@
    } else if d == 8 {
        "8"@
    } else {
        "9"@
    }
}

/// Decimal digits of `n`, without leading zeros.
pub open spec fn decimal_of(n: nat) -> Seq<char>
    decreases n,
{
    if n < 10 {
        digit_of(n as int)
    } else {
        decimal_of(n / 10) + digit_of((n % 10) as int)
    }
}

fn digit(d: u32) -> (s: &'static str)
    requires
        d < 10,
    ensures
        s@ == digit_of(d as int),
{
    if d == 0 {
        "0"
    } else if d == 1 {
        "1"
    } else if d == 2 {
        "2"
    } else if d == 3 {
        "3"
    } else if d == 4 {
        "4"
    } else if d == 5 {
        "5"
    } else if d == 6 {
        "6"
    } else if d == 7 {
        "7"
    } else if d == 8 {
        "8"
    } else {
        "9"
    }
}

/// `n` written in decimal.
pub fn decimal(n: u32) -> (s: String)
    ensures
        s@ == decimal_of(n as nat),
    decreases n,
{
    if n < 10 {
        let mut s = String::new();
        s.append(digit(n));
        proof {
            assert(s@ =~= decimal_of(n as nat));
        }
        s
    } else {
        let mut s = decimal(n / 10);
        s.append(digit(n % 10));
        s
    }
}

/// `file:line`
pub open spec fn source_of(file: Seq<char>, line: u32) -> Seq<char> {
    file + ":"@ + decimal_of(line as nat)
}

fn source_info(file: &str, line: u32) -> (s: String)
    ensures
        s@ == source_of(file@, line),
{
    let mut s = String::new();
    s.append(file);
    s.append(":");
    let digits = decimal(line);
    s.append(digits.as_str());
    proof {
        assert(s@ =~= source_of(file@, line));
    }
    s
}

pub fn debug_with_source(config: &LogConfig, message: &str, file: &str, line: u32) -> (r: Option<String>)
    ensures
        outcome(*config, LogLevel::Debug, LogCategory::General, Some(source_of(file@, line)), message@, r),
{
    let source = source_info(file, line);
    log_base(config, LogLevel::Debug, LogCategory::General, message, Some(source.as_str()))
}

pub fn debug_with_category_and_source(config: &LogConfig, category: LogCategory, message: &str, file: &str, line: u32) -> (r: Option<String>)
    ensures
        outcome(*config, LogLevel::Debug, category, Some(source_of(file@, line)), message@, r),
{
    let source = source_info(file, line);
    log_base(config, LogLevel::Debug, category, message, Some(source.as_str()))
}

/// Builds the message with `f` only when the threshold lets debug lines through.
pub fn debug_enabled<F: FnOnce() -> String>(config: &LogConfig, f: F) -> (r: Option<String>)
    requires
        f.requires(()),
    ensures
        config.level != LogLevel::Debug ==> r is None,
        config.level == LogLevel::Debug ==> exists|m: String|
            f.ensures((), m) && outcome(*config, LogLevel::Debug, LogCategory::General, None, m@, r),
{
    if level_rank(config.level) <= level_rank(LogLevel::Debug) {
        let message = f();
        debug(config, message.as_str())
    } else {
        None
    }
}

pub fn info(config: &LogConfig, message: &str) -> (r: Option<String>)
    ensures
        outcome(*config, LogLevel::Info, LogCategory::General, None, message@, r),
{
    log_base(config, LogLevel::Info, LogCategory::General, message, None)
}

pub fn info_with_category(config: &LogConfig, category: LogCategory, message: &str) -> (r: Option<String>)
    ensures
        outcome(*config, LogLevel::Info, category, None, message@, r),
{
    log_base(config, LogLevel::Info, category, message, None)
}

pub fn warn(config: &LogConfig, message: &str) -> (r: Option<String>)
    ensures
        outcome(*config, LogLevel::Warn, LogCategory::General, None, message@, r),
{
    log_base(config, LogLevel::Warn, LogCategory::General, message, None)
}

pub fn warn_with_category(config: &LogConfig, category: LogCategory, message: &str) -> (r: Option<String>)
    ensures
        outcome(*config, LogLevel::Warn, category, None, message@, r),
{
    log_base(config, LogLevel::Warn, category, message, None)
}

pub fn error(config: &LogConfig, message: &str) -> (r: Option<String>)
    ensures
        outcome(*config, LogLevel::Error, LogCategory::General, None, message@, r),
{
    log_base(config, LogLevel::Error, LogCategory::General, message, None)
}

pub fn error_with_category(config: &LogConfig, category: LogCategory, message: &str) -> (r: Option<String>)
    ensures
        outcome(*config, LogLevel::Error, category, None, message@, r),
{
    log_base(config, LogLevel::Error, category, message, None)
}

/// The position of the first `{}` in `s` at or after `i`.
pub open spec fn placeholder_from(s: Seq<char>, i: int) -> Option<int>
    decreases s.len() - i,
{
    if i < 0 || i + 1 >= s.len() {
        None
    } else if s[i] == '{' && s[i + 1] == '}' {
        Some(i)
    } else {
        placeholder_from(s, i + 1)
    }
}

/// `s` with its first `{}` replaced by `a`; `s` itself when it has none.
pub open spec fn replace_first(s: Seq<char>, a: Seq<char>) -> Seq<char> {
    match placeholder_from(s, 0) {
        Some(i) => s.subrange(0, i) + a + s.subrange(i + 2, s.len() as int),
        None => s,
    }
}

/// `fmt` after the first `k` arguments have each replaced the first `{}`
/// left at that point.
pub open spec fn fill(fmt: Seq<char>, args: Seq<Seq<char>>, k: nat) -> Seq<char>
    decreases k,
{
    if k == 0 {
        fmt
    } else {
        replace_first(fill(fmt, args, (k - 1) as nat), args[k - 1])
    }
}

pub open spec fn arg_views(args: Seq<&str>) -> Seq<Seq<char>> {
    args.map_values(|a: &str| a@)
}

fn replace_placeholder(s: String, arg: &str) -> (r: String)
    ensures
        r@ == replace_first(s@, arg@),
{
    let n = s.as_str().unicode_len();
    let mut i: usize = 0;
    while i < n && i + 1 < n
        invariant
            n == s@.len(),
            i <= n,
            placeholder_from(s@, 0) == placeholder_from(s@, i as int),
        decreases n - i,
    {
        if s.as_str().get_char(i) == '{' && s.as_str().get_char(i + 1) == '}' {
            let mut r = s.as_str().substring_char(0, i).to_owned();
            r.append(arg);
            r.append(s.as_str().substring_char(i + 2, n));
            return r;
        }
        i = i + 1;
    }
    s
}

/// Writes `fmt` with each argument in turn put in place of the first `{}`
/// left, when a line of that severity and category is written at all.
pub fn format_and_log(config: &LogConfig, level: LogLevel, category: LogCategory, fmt: &str, args: &[&str]) -> (r: Option<String>)
    ensures
        outcome(*config, level, category, None, fill(fmt@, arg_views(args@), args@.len()), r),
{
    if !would_emit(config, level, category) {
        return None;
    }
    let mut message = fmt.to_owned();
    let mut k: usize = 0;
    while k < args.len()
        invariant
            k <= args@.len(),
            message@ == fill(fmt@, arg_views(args@), k as nat),
        decreases args@.len() - k,
    {
        message = replace_placeholder(message, args[k]);
        k = k + 1;
    }
    log_base(config, level, category, message.as_str(), None)
}

/// A logger that tags every line with a context name and a category.
#[derive(Debug)]
pub struct ContextLogger {
    pub context: String,
    pub category: LogCategory,
}

impl ContextLogger {
    pub fn new(context: &str, category: LogCategory) -> (l: Self)
        ensures
            l.context@ == context@,
            l.category == category,
    {
        ContextLogger { context: context.to_owned(), category }
    }

    pub fn debug(&self, config: &LogConfig, message: &str) -> (r: Option<String>)
        ensures
            outcome(*config, LogLevel::Debug, self.category, Some(self.context@), message@, r),
    {
        log_base(config, LogLevel::Debug, self.category, message, Some(self.context.as_str()))
    }

    pub fn info(&self, config: &LogConfig, message: &str) -> (r: Option<String>)
        ensures
            outcome(*config, LogLevel::Info, self.category, Some(self.context@), message@, r),
    {
        log_base(config, LogLevel::Info, self.category, message, Some(self.context.as_str()))
    }

    pub fn warn(&self, config: &LogConfig, message: &str) -> (r: Option<String>)
        ensures
            outcome(*config, LogLevel::Warn, self.category, Some(self.context@), message@, r),
    {
        log_base(config, LogLevel::Warn, self.category, message, Some(self.context.as_str()))
    }

    pub fn error(&self, config: &LogConfig, message: &str) -> (r: Option<String>)
        ensures
            outcome(*config, LogLevel::Error, self.category, Some(self.context@), message@, r),
    {
        log_base(config, LogLevel::Error, self.category, message, Some(self.context.as_str()))
    }
}

/// Runs `f` with a logger for `context` and `category`.
pub fn with_context<F: FnOnce(&ContextLogger) -> R, R>(context: &str, category: LogCategory, f: F) -> (r: R)
    requires
        forall|l: &ContextLogger| l.context@ == context@ && l.category == category ==> f.requires((l,)),
    ensures
        exists|l: &ContextLogger| l.context@ == context@ && l.category == category && f.ensures((l,), r),
{
    let logger = ContextLogger::new(context, category);
    f(&logger)
}

} // verus!
