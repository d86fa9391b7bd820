//! Command line options and Telegram credentials.
//!
//! Options are scanned here; a caller applies them in order to its settings.
//! The two options whose values are decimal fractions keep their text, which
//! the caller reads.

use vstd::prelude::*;
use vstd::utf8::encode_utf8;
use crate::decimal::{IntErrorKind, parse_uint, spec_parse_uint};
use crate::text::text_eq;

verus! {

/// One recognised command line option, with its value.
#[derive(Clone, Debug, PartialEq, Eq)]
pub enum ConfigOption {
    IntervalSecs(u64),
    ChangePct(String),
    CandleInterval(String),
    StreakLen(usize),
    CloseDelaySecs(u64),
    MinQuoteVolume24h(String),
    TelegramToken(String),
    TelegramChatId(String),
    SaveConfig,
    Help,
}

/// A command line option as a mathematical value.
pub enum ConfigOptionView {
    IntervalSecs(u64),
    ChangePct(Seq<char>),
    CandleInterval(Seq<char>),
    StreakLen(usize),
    CloseDelaySecs(u64),
    MinQuoteVolume24h(Seq<char>),
    TelegramToken(Seq<char>),
    TelegramChatId(Seq<char>),
    SaveConfig,
    Help,
}

impl View for ConfigOption {
    type V = ConfigOptionView;

    open spec fn view(&self) -> ConfigOptionView {
        match self {
            ConfigOption::IntervalSecs(v) => ConfigOptionView::IntervalSecs(*v),
            ConfigOption::ChangePct(s) => ConfigOptionView::ChangePct(s@),
            ConfigOption::CandleInterval(s) => ConfigOptionView::CandleInterval(s@),
            ConfigOption::StreakLen(v) => ConfigOptionView::StreakLen(*v),
            ConfigOption::CloseDelaySecs(v) => ConfigOptionView::CloseDelaySecs(*v),
            ConfigOption::MinQuoteVolume24h(s) => ConfigOptionView::MinQuoteVolume24h(s@),
            ConfigOption::TelegramToken(s) => ConfigOptionView::TelegramToken(s@),
            ConfigOption::TelegramChatId(s) => ConfigOptionView::TelegramChatId(s@),
            ConfigOption::SaveConfig => ConfigOptionView::SaveConfig,
            ConfigOption::Help => ConfigOptionView::Help,
        }
    }
}

/// Why the command line was refused.
#[derive(Clone, Debug, PartialEq, Eq)]
pub enum ArgError {
    /// The option (named here) came last, without its value.
    MissingValue(String),
    /// An integer option's value is not an integer of its type.
    InvalidInteger(IntErrorKind),
    /// An argument that is no option (named here).
    UnknownArgument(String),
}

/// A refusal as a mathematical value.
pub enum ArgErrorView {
    MissingValue(Seq<char>),
    InvalidInteger(IntErrorKind),
    UnknownArgument(Seq<char>),
}

impl View for ArgError {
    type V = ArgErrorView;

    open spec fn view(&self) -> ArgErrorView {
        match self {
            ArgError::MissingValue(s) => ArgErrorView::MissingValue(s@),
            ArgError::InvalidInteger(k) => ArgErrorView::InvalidInteger(*k),
            ArgError::UnknownArgument(s) => ArgErrorView::UnknownArgument(s@),
        }
    }
}

/// The options read from the command line, in order, up to the first
/// refusal (if any) or up to a help request.
pub struct ScannedArgs {
    pub options: Vec<ConfigOption>,
    pub error: Option<ArgError>,
}

impl View for ScannedArgs {
    type V = (Seq<ConfigOptionView>, Option<ArgErrorView>);

    open spec fn view(&self) -> (Seq<ConfigOptionView>, Option<ArgErrorView>) {
        (
            self.options@.map_values(|o: ConfigOption| o@),
            match self.error {
                Some(e) => Some(e@),
                None => None,
            },
        )
    }
}

/// The options that take a value.
pub open spec fn takes_value(a: Seq<char>) -> bool {
    ||| a == "--interval-secs"@
    ||| a == "--change-pct"@
    ||| a == "--candle-interval"@
    ||| a == "--streak-len"@
    ||| a == "--close-delay-secs"@
    ||| a == "--min-quote-volume-24h"@
    ||| a == "--telegram-token"@
    ||| a == "--telegram-chat-id"@
}

/// The option that `flag` (one that takes a value) makes of `value`, or
/// why the value is not an integer where one is needed.
pub open spec fn spec_option_with_value(flag: Seq<char>, value: Seq<char>) -> Result<ConfigOptionView, IntErrorKind> {
    if flag == "--interval-secs"@ {
        match spec_parse_uint(encode_utf8(value), u64::MAX as int) {
            Ok(v) => Ok(ConfigOptionView::IntervalSecs(v as u64)),
            Err(k) => Err(k),
        }
    } else if flag == "--change-pct"@ {
        Ok(ConfigOptionView::ChangePct(value))
    } else if flag == "--candle-interval"@ {
        Ok(ConfigOptionView::CandleInterval(value))
    } else if flag == "--streak-len"@ {
        match spec_parse_uint(encode_utf8(value), usize::MAX as int) {
            Ok(v) => Ok(ConfigOptionView::StreakLen(v as usize)),
            Err(k) => Err(k),
        }
    } else if flag == "--close-delay-secs"@ {
        match spec_parse_uint(encode_utf8(value), u64::MAX as int) {
            Ok(v) => Ok(ConfigOptionView::CloseDelaySecs(v as u64)),
            Err(k) => Err(k),
        }
    } else if flag == "--min-quote-volume-24h"@ {
        Ok(ConfigOptionView::MinQuoteVolume24h(value))
    } else if flag == "--telegram-token"@ {
        Ok(ConfigOptionView::TelegramToken(value))
    } else {
        Ok(ConfigOptionView::TelegramChatId(value))
    }
}

/// Reads the arguments from the front: each option with its value, until
/// the end, a help request (which ends the reading), or the first refusal.
pub open spec fn spec_scan_args(args: Seq<Seq<char>>) -> (Seq<ConfigOptionView>, Option<ArgErrorView>)
    decreases args.len(),
{
    if args.len() == 0 {
        (Seq::empty(), None)
    } else {
        let a = args[0];
        if takes_value(a) {
            if args.len() < 2 {
                (Seq::empty(), Some(ArgErrorView::MissingValue(a)))
            } else {
                match spec_option_with_value(a, args[1]) {
                    Ok(o) => {
                        let rest = spec_scan_args(args.skip(2));
                        (seq![o] + rest.0, rest.1)
                    },
                    Err(k) => (Seq::empty(), Some(ArgErrorView::InvalidInteger(k))),
                }
            }
        } else if a == "--save-config"@ {
            let rest = spec_scan_args(args.skip(1));
            (seq![ConfigOptionView::SaveConfig] + rest.0, rest.1)
        } else if a == "--help"@ || a == "-h"@ {
            (seq![ConfigOptionView::Help], None)
        } else {
            (Seq::empty(), Some(ArgErrorView::UnknownArgument(a)))
        }
    }
}

/// The views of the arguments.
pub open spec fn arg_views(args: Seq<String>) -> Seq<Seq<char>> {
    args.map_values(|a: String| a@)
}

fn parse_u64_text(value: &str) -> (r: Result<u64, IntErrorKind>)
    ensures
        r matches Ok(v) ==> spec_parse_uint(encode_utf8(value@), u64::MAX as int) == Ok::<int, IntErrorKind>(v as int),
        r matches Err(k) ==> spec_parse_uint(encode_utf8(value@), u64::MAX as int) == Err::<int, IntErrorKind>(k),
{
    let b = value.as_bytes();
    assert(b@.subrange(0, b@.len() as int) =~= b@);
    parse_uint(b, 0, b.len(), u64::MAX)
}

fn parse_usize_text(value: &str) -> (r: Result<usize, IntErrorKind>)
    ensures
        r matches Ok(v) ==> spec_parse_uint(encode_utf8(value@), usize::MAX as int) == Ok::<int, IntErrorKind>(v as int),
        r matches Err(k) ==> spec_parse_uint(encode_utf8(value@), usize::MAX as int) == Err::<int, IntErrorKind>(k),
{
    let b = value.as_bytes();
    assert(b@.subrange(0, b@.len() as int) =~= b@);
    proof {
        crate::decimal::lemma_parse_bounded(b@, usize::MAX as int);
    }
    match parse_uint(b, 0, b.len(), usize::MAX as u64) {
        Ok(v) => Ok(v as usize),
        Err(k) => Err(k),
    }
}

fn option_with_value(flag: &String, value: &String) -> (r: Result<ConfigOption, IntErrorKind>)
    requires
        takes_value(flag@),
    ensures
        r matches Ok(o) ==> spec_option_with_value(flag@, value@) == Ok::<ConfigOptionView, IntErrorKind>(o@),
        r matches Err(k) ==> spec_option_with_value(flag@, value@) == Err::<ConfigOptionView, IntErrorKind>(k),
{
    let f = flag.as_str();
    if text_eq(f, "--interval-secs") {
        match parse_u64_text(value.as_str()) {
            Ok(v) => Ok(ConfigOption::IntervalSecs(v)),
            Err(k) => Err(k),
        }
    } else if text_eq(f, "--change-pct") {
        Ok(ConfigOption::ChangePct(value.clone()))
    } else if text_eq(f, "--candle-interval") {
        Ok(ConfigOption::CandleInterval(value.clone()))
    } else if text_eq(f, "--streak-len") {
        match parse_usize_text(value.as_str()) {
            Ok(v) => Ok(ConfigOption::StreakLen(v)),
            Err(k) => Err(k),
        }
    } else if text_eq(f, "--close-delay-secs") {
        match parse_u64_text(value.as_str()) {
            Ok(v) => Ok(ConfigOption::CloseDelaySecs(v)),
            Err(k) => Err(k),
        }
    } else if text_eq(f, "--min-quote-volume-24h") {
        Ok(ConfigOption::MinQuoteVolume24h(value.clone()))
    } else if text_eq(f, "--telegram-token") {
        Ok(ConfigOption::TelegramToken(value.clone()))
    } else {
        Ok(ConfigOption::TelegramChatId(value.clone()))
    }
}

fn is_value_option(a: &str) -> (r: bool)
    ensures
        r == takes_value(a@),
{
    text_eq(a, "--interval-secs") || text_eq(a, "--change-pct") || text_eq(a, "--candle-interval")
        || text_eq(a, "--streak-len") || text_eq(a, "--close-delay-secs")
        || text_eq(a, "--min-quote-volume-24h") || text_eq(a, "--telegram-token")
        || text_eq(a, "--telegram-chat-id")
}

/// Reads the command line arguments (the program name left out) into
/// options, stopping at a help request or at the first argument it refuses.
pub fn scan_args(args: &Vec<String>) -> (r: ScannedArgs)
    ensures
        r@ == spec_scan_args(arg_views(args@)),
{
    let ghost all = arg_views(args@);
    let mut options: Vec<ConfigOption> = Vec::new();
    let mut i: usize = 0;
    let n = args.len();
    assert(all.skip(0) =~= all);
    while i < n
        invariant
            n == args@.len(),
            i <= n,
            all == arg_views(args@),
            spec_scan_args(all) == ({
                let rest = spec_scan_args(all.skip(i as int));
                (options@.map_values(|o: ConfigOption| o@) + rest.0, rest.1)
            }),
        decreases n - i,
    {
        let ghost before = options@.map_values(|o: ConfigOption| o@);
        let a = &args[i];
        assert(all.skip(i as int)[0] == a@);
        if is_value_option(a.as_str()) {
            if i + 1 >= n {
                assert(all.skip(i as int).len() < 2);
                let r = ScannedArgs { options, error: Some(ArgError::MissingValue(a.clone())) };
                assert(r@.0 =~= before + Seq::<ConfigOptionView>::empty());
                return r;
            }
            assert(all.skip(i as int)[1] == args@[i + 1]@);
            match option_with_value(a, &args[i + 1]) {
                Ok(o) => {
                    let ghost ov = o@;
                    options.push(o);
                    assert(all.skip(i as int).skip(2) =~= all.skip(i + 2));
                    assert(options@.map_values(|o: ConfigOption| o@) =~= before.push(ov));
                    assert(before.push(ov) + spec_scan_args(all.skip(i + 2)).0 =~= before + (seq![ov] + spec_scan_args(all.skip(i + 2)).0));
                    i = i + 2;
                },
                Err(k) => {
                    let r = ScannedArgs { options, error: Some(ArgError::InvalidInteger(k)) };
                    assert(r@.0 =~= before + Seq::<ConfigOptionView>::empty());
                    return r;
                },
            }
        } else if text_eq(a.as_str(), "--save-config") {
            options.push(ConfigOption::SaveConfig);
            assert(all.skip(i as int).skip(1) =~= all.skip(i + 1));
            assert(options@.map_values(|o: ConfigOption| o@) =~= before.push(ConfigOptionView::SaveConfig));
            assert(before.push(ConfigOptionView::SaveConfig) + spec_scan_args(all.skip(i + 1)).0 =~= before + (seq![ConfigOptionView::SaveConfig] + spec_scan_args(all.skip(i + 1)).0));
            i = i + 1;
        } else if text_eq(a.as_str(), "--help") || text_eq(a.as_str(), "-h") {
            options.push(ConfigOption::Help);
            let r = ScannedArgs { options, error: None };
            assert(r@.0 =~= before + seq![ConfigOptionView::Help]);
            return r;
        } else {
            let r = ScannedArgs { options, error: Some(ArgError::UnknownArgument(a.clone())) };
            assert(r@.0 =~= before + Seq::<ConfigOptionView>::empty());
            return r;
        }
    }
    let r = ScannedArgs { options, error: None };
    assert(all.skip(n as int).len() == 0);
    assert(r@.0 =~= r@.0 + Seq::<ConfigOptionView>::empty());
    r
}

/// An option that takes a value reads the argument after it, whatever that
/// argument holds: a value option followed by `v` yields its option made of
/// `v` (text options keep `v` as it is, integer options parse it), and the
/// arguments after `v` are read on.
pub proof fn law_value_option_reads_next_argument(v: Seq<char>, rest: Seq<Seq<char>>)
    ensures
        spec_scan_args(seq!["--change-pct"@, v] + rest)
            == (seq![ConfigOptionView::ChangePct(v)] + spec_scan_args(rest).0, spec_scan_args(rest).1),
        spec_scan_args(seq!["--candle-interval"@, v] + rest)
            == (seq![ConfigOptionView::CandleInterval(v)] + spec_scan_args(rest).0, spec_scan_args(rest).1),
        spec_scan_args(seq!["--min-quote-volume-24h"@, v] + rest)
            == (seq![ConfigOptionView::MinQuoteVolume24h(v)] + spec_scan_args(rest).0, spec_scan_args(rest).1),
        spec_scan_args(seq!["--telegram-token"@, v] + rest)
            == (seq![ConfigOptionView::TelegramToken(v)] + spec_scan_args(rest).0, spec_scan_args(rest).1),
        spec_scan_args(seq!["--telegram-chat-id"@, v] + rest)
            == (seq![ConfigOptionView::TelegramChatId(v)] + spec_scan_args(rest).0, spec_scan_args(rest).1),
        spec_scan_args(seq!["--interval-secs"@, v] + rest) == match spec_parse_uint(encode_utf8(v), u64::MAX as int) {
            Ok(n) => (seq![ConfigOptionView::IntervalSecs(n as u64)] + spec_scan_args(rest).0, spec_scan_args(rest).1),
            Err(k) => (Seq::empty(), Some(ArgErrorView::InvalidInteger(k))),
        },
        spec_scan_args(seq!["--close-delay-secs"@, v] + rest) == match spec_parse_uint(encode_utf8(v), u64::MAX as int) {
            Ok(n) => (seq![ConfigOptionView::CloseDelaySecs(n as u64)] + spec_scan_args(rest).0, spec_scan_args(rest).1),
            Err(k) => (Seq::empty(), Some(ArgErrorView::InvalidInteger(k))),
        },
        spec_scan_args(seq!["--streak-len"@, v] + rest) == match spec_parse_uint(encode_utf8(v), usize::MAX as int) {
            Ok(n) => (seq![ConfigOptionView::StreakLen(n as usize)] + spec_scan_args(rest).0, spec_scan_args(rest).1),
            Err(k) => (Seq::empty(), Some(ArgErrorView::InvalidInteger(k))),
        },
{
    lemma_option_names_distinct();
    lemma_value_option_step("--change-pct"@, v, rest);
    lemma_value_option_step("--candle-interval"@, v, rest);
    lemma_value_option_step("--min-quote-volume-24h"@, v, rest);
    lemma_value_option_step("--telegram-token"@, v, rest);
    lemma_value_option_step("--telegram-chat-id"@, v, rest);
    lemma_value_option_step("--interval-secs"@, v, rest);
    lemma_value_option_step("--close-delay-secs"@, v, rest);
    lemma_value_option_step("--streak-len"@, v, rest);
}

/// The options are told apart by their names.
proof fn lemma_option_names_distinct()
    ensures
        "--interval-secs"@ != "--change-pct"@,
        "--interval-secs"@ != "--candle-interval"@,
        "--interval-secs"@ != "--streak-len"@,
        "--interval-secs"@ != "--close-delay-secs"@,
        "--interval-secs"@ != "--min-quote-volume-24h"@,
        "--interval-secs"@ != "--telegram-token"@,
        "--interval-secs"@ != "--telegram-chat-id"@,
        "--interval-secs"@ != "--save-config"@,
        "--interval-secs"@ != "--help"@,
        "--interval-secs"@ != "-h"@,
        "--change-pct"@ != "--candle-interval"@,
        "--change-pct"@ != "--streak-len"@,
        "--change-pct"@ != "--close-delay-secs"@,
        "--change-pct"@ != "--min-quote-volume-24h"@,
        "--change-pct"@ != "--telegram-token"@,
        "--change-pct"@ != "--telegram-chat-id"@,
        "--change-pct"@ != "--save-config"@,
        "--change-pct"@ != "--help"@,
        "--change-pct"@ != "-h"@,
        "--candle-interval"@ != "--streak-len"@,
        "--candle-interval"@ != "--close-delay-secs"@,
        "--candle-interval"@ != "--min-quote-volume-24h"@,
        "--candle-interval"@ != "--telegram-token"@,
        "--candle-interval"@ != "--telegram-chat-id"@,
        "--candle-interval"@ != "--save-config"@,
        "--candle-interval"@ != "--help"@,
        "--candle-interval"@ != "-h"@,
        "--streak-len"@ != "--close-delay-secs"@,
        "--streak-len"@ != "--min-quote-volume-24h"@,
        "--streak-len"@ != "--telegram-token"@,
        "--streak-len"@ != "--telegram-chat-id"@,
        "--streak-len"@ != "--save-config"@,
        "--streak-len"@ != "--help"@,
        "--streak-len"@ != "-h"@,
        "--close-delay-secs"@ != "--min-quote-volume-24h"@,
        "--close-delay-secs"@ != "--telegram-token"@,
        "--close-delay-secs"@ != "--telegram-chat-id"@,
        "--close-delay-secs"@ != "--save-config"@,
        "--close-delay-secs"@ != "--help"@,
        "--close-delay-secs"@ != "-h"@,
        "--min-quote-volume-24h"@ != "--telegram-token"@,
        "--min-quote-volume-24h"@ != "--telegram-chat-id"@,
        "--min-quote-volume-24h"@ != "--save-config"@,
        "--min-quote-volume-24h"@ != "--help"@,
        "--min-quote-volume-24h"@ != "-h"@,
        "--telegram-token"@ != "--telegram-chat-id"@,
        "--telegram-token"@ != "--save-config"@,
        "--telegram-token"@ != "--help"@,
        "--telegram-token"@ != "-h"@,
        "--telegram-chat-id"@ != "--save-config"@,
        "--telegram-chat-id"@ != "--help"@,
        "--telegram-chat-id"@ != "-h"@,
        "--save-config"@ != "--help"@,
        "--save-config"@ != "-h"@,
        "--help"@ != "-h"@,
{
    reveal_strlit("--interval-secs");
    reveal_strlit("--change-pct");
    reveal_strlit("--candle-interval");
    reveal_strlit("--streak-len");
    reveal_strlit("--close-delay-secs");
    reveal_strlit("--min-quote-volume-24h");
    reveal_strlit("--telegram-token");
    reveal_strlit("--telegram-chat-id");
    reveal_strlit("--save-config");
    reveal_strlit("--help");
    reveal_strlit("-h");
    assert("--interval-secs"@[2] != "--change-pct"@[2]);
    assert("--interval-secs"@[2] != "--candle-interval"@[2]);
    assert("--interval-secs"@[2] != "--streak-len"@[2]);
    assert("--interval-secs"@[2] != "--close-delay-secs"@[2]);
    assert("--interval-secs"@[2] != "--min-quote-volume-24h"@[2]);
    assert("--interval-secs"@[2] != "--telegram-token"@[2]);
    assert("--interval-secs"@[2] != "--telegram-chat-id"@[2]);
    assert("--interval-secs"@[2] != "--save-config"@[2]);
    assert("--interval-secs"@[2] != "--help"@[2]);
    assert("--interval-secs"@[1] != "-h"@[1]);
    assert("--change-pct"@[3] != "--candle-interval"@[3]);
    assert("--change-pct"@[2] != "--streak-len"@[2]);
    assert("--change-pct"@[3] != "--close-delay-secs"@[3]);
    assert("--change-pct"@[2] != "--min-quote-volume-24h"@[2]);
    assert("--change-pct"@[2] != "--telegram-token"@[2]);
    assert("--change-pct"@[2] != "--telegram-chat-id"@[2]);
    assert("--change-pct"@[2] != "--save-config"@[2]);
    assert("--change-pct"@[2] != "--help"@[2]);
    assert("--change-pct"@[1] != "-h"@[1]);
    assert("--candle-interval"@[2] != "--streak-len"@[2]);
    assert("--candle-interval"@[3] != "--close-delay-secs"@[3]);
    assert("--candle-interval"@[2] != "--min-quote-volume-24h"@[2]);
    assert("--candle-interval"@[2] != "--telegram-token"@[2]);
    assert("--candle-interval"@[2] != "--telegram-chat-id"@[2]);
    assert("--candle-interval"@[2] != "--save-config"@[2]);
    assert("--candle-interval"@[2] != "--help"@[2]);
    assert("--candle-interval"@[1] != "-h"@[1]);
    assert("--streak-len"@[2] != "--close-delay-secs"@[2]);
    assert("--streak-len"@[2] != "--min-quote-volume-24h"@[2]);
    assert("--streak-len"@[2] != "--telegram-token"@[2]);
    assert("--streak-len"@[2] != "--telegram-chat-id"@[2]);
    assert("--streak-len"@[3] != "--save-config"@[3]);
    assert("--streak-len"@[2] != "--help"@[2]);
    assert("--streak-len"@[1] != "-h"@[1]);
    assert("--close-delay-secs"@[2] != "--min-quote-volume-24h"@[2]);
    assert("--close-delay-secs"@[2] != "--telegram-token"@[2]);
    assert("--close-delay-secs"@[2] != "--telegram-chat-id"@[2]);
    assert("--close-delay-secs"@[2] != "--save-config"@[2]);
    assert("--close-delay-secs"@[2] != "--help"@[2]);
    assert("--close-delay-secs"@[1] != "-h"@[1]);
    assert("--min-quote-volume-24h"@[2] != "--telegram-token"@[2]);
    assert("--min-quote-volume-24h"@[2] != "--telegram-chat-id"@[2]);
    assert("--min-quote-volume-24h"@[2] != "--save-config"@[2]);
    assert("--min-quote-volume-24h"@[2] != "--help"@[2]);
    assert("--min-quote-volume-24h"@[1] != "-h"@[1]);
    assert("--telegram-token"@[11] != "--telegram-chat-id"@[11]);
    assert("--telegram-token"@[2] != "--save-config"@[2]);
    assert("--telegram-token"@[2] != "--help"@[2]);
    assert("--telegram-token"@[1] != "-h"@[1]);
    assert("--telegram-chat-id"@[2] != "--save-config"@[2]);
    assert("--telegram-chat-id"@[2] != "--help"@[2]);
    assert("--telegram-chat-id"@[1] != "-h"@[1]);
    assert("--save-config"@[2] != "--help"@[2]);
    assert("--save-config"@[1] != "-h"@[1]);
    assert("--help"@[1] != "-h"@[1]);
}

proof fn lemma_value_option_step(f: Seq<char>, v: Seq<char>, rest: Seq<Seq<char>>)
    requires
        takes_value(f),
    ensures
        spec_scan_args(seq![f, v] + rest) == match spec_option_with_value(f, v) {
            Ok(o) => (seq![o] + spec_scan_args(rest).0, spec_scan_args(rest).1),
            Err(k) => (Seq::<ConfigOptionView>::empty(), Some(ArgErrorView::InvalidInteger(k))),
        },
{
    let args = seq![f, v] + rest;
    assert(args[0] == f && args[1] == v);
    assert(args.skip(2) =~= rest);
}

/// A refusal for a missing value names the last argument, an option that
/// takes a value: a value is missing only when nothing follows its option.
pub proof fn law_missing_value_only_at_end(args: Seq<Seq<char>>)
    ensures
        spec_scan_args(args).1 matches Some(ArgErrorView::MissingValue(f)) ==> {
            &&& args.len() >= 1
            &&& f == args.last()
            &&& takes_value(f)
        },
    decreases args.len(),
{
    if args.len() > 0 {
        let a = args[0];
        if takes_value(a) && args.len() >= 2 {
            law_missing_value_only_at_end(args.skip(2));
            if args.skip(2).len() > 0 {
                assert(args.skip(2).last() == args.last());
            }
        } else if !takes_value(a) && a == "--save-config"@ {
            law_missing_value_only_at_end(args.skip(1));
            if args.skip(1).len() > 0 {
                assert(args.skip(1).last() == args.last());
            }
        }
    }
}

/// The Telegram bot token and chat the alerts go to.
#[derive(Clone, Debug, PartialEq, Eq)]
pub struct TelegramCredentials {
    pub token: String,
    pub chat_id: String,
}

/// A value from the environment replaces a setting when it is set and not
/// empty.
pub open spec fn spec_env_override(current: Seq<char>, from_env: Option<Seq<char>>) -> Seq<char> {
    match from_env {
        Some(v) => if v.len() > 0 { v } else { current },
        None => current,
    }
}

/// The view of an optional string.
pub open spec fn opt_view(o: Option<String>) -> Option<Seq<char>> {
    match o {
        Some(s) => Some(s@),
        None => None,
    }
}

/// Lets the environment's token and chat id (when set and not empty)
/// replace the configured ones.
pub fn apply_env_overrides(creds: &mut TelegramCredentials, env_token: Option<String>, env_chat_id: Option<String>)
    ensures
        final(creds).token@ == spec_env_override(old(creds).token@, opt_view(env_token)),
        final(creds).chat_id@ == spec_env_override(old(creds).chat_id@, opt_view(env_chat_id)),
{
    if let Some(token) = env_token {
        if !token.as_str().is_empty() {
            creds.token = token;
        }
    }
    if let Some(chat_id) = env_chat_id {
        if !chat_id.as_str().is_empty() {
            creds.chat_id = chat_id;
        }
    }
}

impl TelegramCredentials {
    /// Alerts can be sent only with both a token and a chat id.
    pub fn is_complete(&self) -> (r: bool)
        ensures
            r == (self.token@.len() > 0 && self.chat_id@.len() > 0),
    {
        !self.token.as_str().is_empty() && !self.chat_id.as_str().is_empty()
    }
}

} // verus!
