use std::collections::VecDeque;

use crypto_tracker::alerts::AlertBook;
use crypto_tracker::config::{apply_env_overrides, scan_args, ArgError, ConfigOption, TelegramCredentials};
use crypto_tracker::decimal::{parse_uint, push_padded, push_signed_padded, IntErrorKind};
use crypto_tracker::interval::{
    candle_interval_is_defined, candle_interval_secs, check_refresh, refresh_window_secs,
    required_closed_klines, required_closed_klines_is_defined, IntervalError, RefreshError,
};
use crypto_tracker::message::{
    base_asset, escape_markdown_v2, format_timestamp_de, join_changes, momentum_alert_text, LocalTime, Weekday,
};
use crypto_tracker::stream::{
    batch_symbols, contains_text, kline_stream_names, may_be_subscription_ack, stream_name, WS_BATCH_SIZE,
};
use crypto_tracker::streak::find_matching_window;
use crypto_tracker::symbols::{tradable_symbols, ExchangeInfo, SymbolInfo};
use crypto_tracker::text::{text_eq, text_le_exec};
use crypto_tracker::window::{push_bounded, seed_window, CloseBook, Kline};

fn strings(v: &[&str]) -> Vec<String> {
    v.iter().map(|s| s.to_string()).collect()
}

fn parse_all(s: &str, max: u64) -> Result<u64, IntErrorKind> {
    parse_uint(s.as_bytes(), 0, s.len(), max)
}

#[test]
fn candle_interval_units() {
    assert_eq!(candle_interval_secs("30s"), Ok(30));
    assert_eq!(candle_interval_secs("1m"), Ok(60));
    assert_eq!(candle_interval_secs("15m"), Ok(900));
    assert_eq!(candle_interval_secs("4h"), Ok(14400));
    assert_eq!(candle_interval_secs("1d"), Ok(86400));
    assert_eq!(candle_interval_secs("1w"), Ok(604800));
    assert_eq!(candle_interval_secs("+5m"), Ok(300));
}

#[test]
fn candle_interval_errors() {
    assert_eq!(candle_interval_secs(""), Err(IntervalError::TooShort));
    assert_eq!(candle_interval_secs("m"), Err(IntervalError::TooShort));
    assert_eq!(candle_interval_secs("xm"), Err(IntervalError::InvalidValue(IntErrorKind::InvalidDigit)));
    assert_eq!(candle_interval_secs("-5m"), Err(IntervalError::InvalidValue(IntErrorKind::InvalidDigit)));
    assert_eq!(candle_interval_secs("+m"), Err(IntervalError::InvalidValue(IntErrorKind::InvalidDigit)));
    assert_eq!(
        candle_interval_secs("99999999999999999999m"),
        Err(IntervalError::InvalidValue(IntErrorKind::PosOverflow))
    );
    assert_eq!(candle_interval_secs("5x"), Err(IntervalError::UnsupportedUnit));
    assert_eq!(candle_interval_secs("xx"), Err(IntervalError::InvalidValue(IntErrorKind::InvalidDigit)));
    assert_eq!(candle_interval_secs("5M"), Err(IntervalError::UnsupportedUnit));
}

#[test]
fn candle_interval_domain() {
    assert!(candle_interval_is_defined("1m"));
    assert!(candle_interval_is_defined(""));
    assert!(!candle_interval_is_defined("5é"));
    assert!(!candle_interval_is_defined("18446744073709551615m"));
    assert!(candle_interval_is_defined("18446744073709551615s"));
    assert_eq!(candle_interval_secs("18446744073709551615s"), Ok(u64::MAX));
    assert!(candle_interval_is_defined("30500568904943663m"));
    assert!(!candle_interval_is_defined("30500568904943664w"));
}

#[test]
fn parsing_agrees_with_std() {
    for s in ["", "0", "007", "+12", "+", "-", "-1", "1_000", " 1", "1 ", "18446744073709551615",
        "18446744073709551616", "99999999999999999999x", "12a", "ä1"] {
        let ours = parse_all(s, u64::MAX);
        let theirs = s.parse::<u64>();
        match (ours, theirs) {
            (Ok(a), Ok(b)) => assert_eq!(a, b, "{s:?}"),
            (Err(k), Err(e)) => {
                let expected = match e.kind() {
                    std::num::IntErrorKind::Empty => IntErrorKind::Empty,
                    std::num::IntErrorKind::InvalidDigit => IntErrorKind::InvalidDigit,
                    std::num::IntErrorKind::PosOverflow => IntErrorKind::PosOverflow,
                    other => panic!("unexpected {other:?}"),
                };
                assert_eq!(k, expected, "{s:?}");
            }
            (a, b) => panic!("{s:?}: {a:?} vs {b:?}"),
        }
    }
}

#[test]
fn required_closed_klines_formula() {
    assert_eq!(required_closed_klines(60, 60, 5), 6);
    assert_eq!(required_closed_klines(300, 60, 3), 6);
    assert_eq!(required_closed_klines(61, 60, 1), 3);
    assert_eq!(required_closed_klines(0, 60, 2), 3);
    assert!(required_closed_klines_is_defined(60, 60, 5));
    assert!(!required_closed_klines_is_defined(60, 0, 5));
    assert!(!required_closed_klines_is_defined(0, 60, usize::MAX));
}

#[test]
fn refresh_checks() {
    assert_eq!(refresh_window_secs(0), 1);
    assert_eq!(refresh_window_secs(60), 60);
    assert_eq!(check_refresh(0, 0), Err(RefreshError::NoSymbols));
    assert_eq!(check_refresh(3, 0), Err(RefreshError::ZeroStreak));
    assert_eq!(check_refresh(3, 5), Ok(()));
}

#[test]
fn window_keeps_latest() {
    let mut w: VecDeque<u64> = VecDeque::new();
    for x in 1..=5 {
        push_bounded(&mut w, 3, x);
        assert!(w.len() <= 3);
    }
    assert_eq!(w, VecDeque::from(vec![3, 4, 5]));
}

#[test]
fn window_without_capacity_grows() {
    let mut w: VecDeque<u64> = VecDeque::new();
    push_bounded(&mut w, 0, 1);
    push_bounded(&mut w, 0, 2);
    assert_eq!(w, VecDeque::from(vec![1, 2]));
}

#[test]
fn seeding_skips_open_and_unreadable_klines() {
    let now = 1_000;
    let klines = vec![
        Kline { close_time_ms: Some(100), close: Some(1.0) },
        Kline { close_time_ms: None, close: Some(2.0) },
        Kline { close_time_ms: Some(200), close: None },
        Kline { close_time_ms: Some(300), close: Some(3.0) },
        Kline { close_time_ms: Some(1_000), close: Some(4.0) },
        Kline { close_time_ms: Some(1_001), close: Some(5.0) },
    ];
    assert_eq!(seed_window(&klines, now, 10), VecDeque::from(vec![1.0, 3.0, 4.0]));
    assert_eq!(seed_window(&klines, now, 2), VecDeque::from(vec![3.0, 4.0]));
}

#[test]
fn close_book_by_symbol() {
    let mut book: CloseBook<u64> = CloseBook::new();
    let btc = "BTCUSDT".to_string();
    let eth = "ETHUSDT".to_string();
    book.insert(&btc, VecDeque::from(vec![1, 2]));
    assert_eq!(book.push_close(&btc, 3, 2), 2);
    assert_eq!(book.push_close(&eth, 7, 2), 1);
    assert_eq!(book.get("BTCUSDT"), Some(&VecDeque::from(vec![2, 3])));
    assert_eq!(book.get("ETHUSDT"), Some(&VecDeque::from(vec![7])));
    assert_eq!(book.get("XRPUSDT"), None);
}

#[test]
fn streak_search() {
    let ok = vec![true, false, true, true];
    assert_eq!(find_matching_window(&ok, 5, 2), Some(2));
    assert_eq!(find_matching_window(&ok, 5, 3), None);
    assert_eq!(find_matching_window(&ok, 5, 1), Some(0));
    assert_eq!(find_matching_window(&vec![], 0, 0), None);
    assert_eq!(find_matching_window(&vec![], 1, 0), Some(0));
    assert_eq!(find_matching_window(&vec![true], 2, 2), None);
}

#[test]
fn alerts_are_edge_triggered() {
    let mut book = AlertBook::new();
    let s = "BTCUSDT".to_string();
    assert!(!book.was_active("BTCUSDT"));
    assert!(book.record(&s, true));
    assert!(!book.record(&s, true));
    assert!(book.was_active("BTCUSDT"));
    assert!(!book.record(&s, false));
    assert!(!book.was_active("BTCUSDT"));
    assert!(book.record(&s, true));
}

#[test]
fn alerts_are_per_symbol_and_retained_only_when_listed() {
    let mut book = AlertBook::new();
    let a = "AUSDT".to_string();
    let b = "BUSDT".to_string();
    assert!(book.record(&a, true));
    assert!(book.record(&b, true));
    book.retain_listed(&strings(&["BUSDT", "CUSDT"]));
    assert!(!book.was_active("AUSDT"));
    assert!(book.was_active("BUSDT"));
    assert!(book.record(&a, true));
    assert!(!book.record(&b, true));
}

fn info(symbol: &str, status: &str, quote: &str) -> SymbolInfo {
    SymbolInfo { symbol: symbol.to_string(), status: status.to_string(), quote_asset: quote.to_string() }
}

#[test]
fn symbol_selection_filters_and_sorts() {
    let listing = ExchangeInfo {
        symbols: vec![
            info("XRPUSDT", "TRADING", "USDT"),
            info("BTCUSDT", "TRADING", "USDT"),
            info("ETHBTC", "TRADING", "BTC"),
            info("LUNAUSDT", "BREAK", "USDT"),
            info("ADAUSDT", "TRADING", "USDT"),
            info("DOGEUSDT", "TRADING", "USDT"),
            info("aUSDT", "TRADING", "USDT"),
        ],
    };
    let liquid = vec![true, true, true, true, true, false, true];
    assert_eq!(tradable_symbols(&listing, &liquid), strings(&["ADAUSDT", "BTCUSDT", "XRPUSDT", "aUSDT"]));
}

#[test]
fn text_order_is_byte_order() {
    for (a, b) in [("A", "B"), ("AB", "A"), ("", "x"), ("Z", "a"), ("é", "z"), ("abc", "abc")] {
        assert_eq!(text_le_exec(a, b), a <= b, "{a} {b}");
        assert_eq!(text_eq(a, b), a == b);
    }
}

#[test]
fn batches_cover_symbols() {
    let symbols: Vec<String> = (0..250).map(|i| format!("S{i}")).collect();
    let batches = batch_symbols(&symbols, WS_BATCH_SIZE);
    assert_eq!(batches.len(), 3);
    assert_eq!(batches.iter().map(|b| b.len()).collect::<Vec<_>>(), vec![100, 100, 50]);
    assert_eq!(batches.concat(), symbols);
    assert!(batch_symbols(&vec![], 100).is_empty());
    assert_eq!(batch_symbols(&strings(&["A", "B"]), 1).len(), 2);
}

#[test]
fn stream_names_are_lower_case() {
    assert_eq!(kline_stream_names(&strings(&["BTCUSDT", "EthUsdt"]), "1m"), strings(&["btcusdt@kline_1m", "ethusdt@kline_1m"]));
    assert_eq!(stream_name("btcusdt".to_string(), "4h"), "btcusdt@kline_4h");
}

#[test]
fn subscription_reply_detection() {
    assert!(may_be_subscription_ack("{\"result\":null,\"id\":1}"));
    assert!(!may_be_subscription_ack("{\"e\":\"kline\",\"s\":\"BTCUSDT\"}"));
    assert!(contains_text("abc", ""));
    assert!(!contains_text("", "a"));
    assert!(contains_text("aab", "ab"));
}

#[test]
fn markdown_escaping() {
    assert_eq!(escape_markdown_v2("a.b-c!"), "a\\.b\\-c\\!");
    assert_eq!(escape_markdown_v2("BTC/USDT"), "BTC/USDT");
    assert_eq!(escape_markdown_v2("_*[]()~`>#+-=|{}.!\\"), "\\_\\*\\[\\]\\(\\)\\~\\`\\>\\#\\+\\-\\=\\|\\{\\}\\.\\!\\\\");
    assert_eq!(escape_markdown_v2(""), "");
}

#[test]
fn base_asset_strips_usdt() {
    assert_eq!(base_asset("BTCUSDT"), "BTC");
    assert_eq!(base_asset("USDT"), "");
    assert_eq!(base_asset("ETHBTC"), "ETHBTC");
    assert_eq!(base_asset("ÄUSDT"), "Ä");
    assert_eq!(base_asset("SDT"), "SDT");
}

#[test]
fn join_of_changes() {
    assert_eq!(join_changes(&strings(&["0.61%", "0.72%", "1.05%"])), "0.61% > 0.72% > 1.05%");
    assert_eq!(join_changes(&strings(&["0.61%"])), "0.61%");
    assert_eq!(join_changes(&vec![]), "");
}

#[test]
fn zero_padding_matches_format() {
    for n in [0u64, 5, 9, 10, 42, 123, 4_000, u64::MAX] {
        for w in [0usize, 1, 2, 4, 25] {
            let mut s = String::new();
            push_padded(&mut s, n, w);
            assert_eq!(s, format!("{:0w$}", n, w = w));
        }
    }
    for n in [0i64, 7, -5, -12345, 2024, i64::MIN, i64::MAX] {
        for w in [0usize, 1, 2, 4, 6] {
            let mut s = String::new();
            push_signed_padded(&mut s, n, w);
            assert_eq!(s, format!("{:0w$}", n, w = w));
        }
    }
}

#[test]
fn german_timestamp() {
    let t = LocalTime { year: 2024, month: 2, day: 5, hour: 9, minute: 7, weekday: Weekday::Mon };
    assert_eq!(format_timestamp_de(&t), "Montag, 05.02.2024 09:07 Uhr");
    let t = LocalTime { year: 987, month: 12, day: 31, hour: 23, minute: 59, weekday: Weekday::Sun };
    assert_eq!(format_timestamp_de(&t), "Sonntag, 31.12.0987 23:59 Uhr");
    let t = LocalTime { year: -5, month: 1, day: 1, hour: 0, minute: 0, weekday: Weekday::Thu };
    assert_eq!(format_timestamp_de(&t), "Donnerstag, 01.01.-005 00:00 Uhr");
}

#[test]
fn momentum_alert_composition() {
    let t = LocalTime { year: 2024, month: 3, day: 1, hour: 14, minute: 30, weekday: Weekday::Fri };
    let text = momentum_alert_text(&t, "BTCUSDT", &strings(&["0.61%", "0.72%"]), 60, "0.50", "1m");
    assert_eq!(
        text,
        "Freitag, 01\\.03\\.2024 14:30 Uhr\n\n*BTC/USDT*\n0\\.61% \\> 0\\.72%\n\nRefresh: 60s\nThreshold: 0\\.50%\nCandle Length: 1m\nhttps://www\\.binance\\.com/de/trade/BTC\\_USDT"
    );
}

#[test]
fn command_line_options() {
    let r = scan_args(&strings(&[
        "--interval-secs", "30", "--change-pct", "0.7", "--candle-interval", "5m", "--streak-len", "4",
        "--close-delay-secs", "2", "--min-quote-volume-24h", "5e7", "--telegram-token", "T",
        "--telegram-chat-id", "C", "--save-config",
    ]));
    assert_eq!(r.error, None);
    assert_eq!(
        r.options,
        vec![
            ConfigOption::IntervalSecs(30),
            ConfigOption::ChangePct("0.7".to_string()),
            ConfigOption::CandleInterval("5m".to_string()),
            ConfigOption::StreakLen(4),
            ConfigOption::CloseDelaySecs(2),
            ConfigOption::MinQuoteVolume24h("5e7".to_string()),
            ConfigOption::TelegramToken("T".to_string()),
            ConfigOption::TelegramChatId("C".to_string()),
            ConfigOption::SaveConfig,
        ]
    );
}

#[test]
fn command_line_refusals() {
    let r = scan_args(&strings(&["--streak-len"]));
    assert_eq!(r.options, vec![]);
    assert_eq!(r.error, Some(ArgError::MissingValue("--streak-len".to_string())));

    let r = scan_args(&strings(&["--change-pct", "x", "--interval-secs", "abc", "--save-config"]));
    assert_eq!(r.options, vec![ConfigOption::ChangePct("x".to_string())]);
    assert_eq!(r.error, Some(ArgError::InvalidInteger(IntErrorKind::InvalidDigit)));

    let r = scan_args(&strings(&["--interval-secs", ""]));
    assert_eq!(r.error, Some(ArgError::InvalidInteger(IntErrorKind::Empty)));

    let r = scan_args(&strings(&["--close-delay-secs", "18446744073709551616"]));
    assert_eq!(r.error, Some(ArgError::InvalidInteger(IntErrorKind::PosOverflow)));

    let r = scan_args(&strings(&["--save-config", "--verbose", "--help"]));
    assert_eq!(r.options, vec![ConfigOption::SaveConfig]);
    assert_eq!(r.error, Some(ArgError::UnknownArgument("--verbose".to_string())));
}

#[test]
fn command_line_help_ends_reading() {
    let r = scan_args(&strings(&["--save-config", "-h", "--bogus"]));
    assert_eq!(r.options, vec![ConfigOption::SaveConfig, ConfigOption::Help]);
    assert_eq!(r.error, None);
    let r = scan_args(&strings(&["--help"]));
    assert_eq!(r.options, vec![ConfigOption::Help]);
    let r = scan_args(&vec![]);
    assert_eq!(r.options, vec![]);
    assert_eq!(r.error, None);
}

#[test]
fn environment_overrides_credentials() {
    let mut c = TelegramCredentials { token: "file-token".to_string(), chat_id: String::new() };
    assert!(!c.is_complete());
    apply_env_overrides(&mut c, Some(String::new()), Some("42".to_string()));
    assert_eq!(c.token, "file-token");
    assert_eq!(c.chat_id, "42");
    assert!(c.is_complete());
    apply_env_overrides(&mut c, Some("env-token".to_string()), None);
    assert_eq!(c.token, "env-token");
    assert_eq!(c.chat_id, "42");
}

#[test]
fn more_qualifying_changes_keep_a_window() {
    let fewer = vec![false, true, true, false, true];
    let more = vec![true, true, true, false, true];
    assert_eq!(find_matching_window(&fewer, 6, 2), Some(1));
    assert_eq!(find_matching_window(&more, 6, 2), Some(0));
}

#[test]
fn appended_closes_keep_the_window() {
    let before = vec![false, true, true];
    let after = vec![false, true, true, true, true];
    assert_eq!(find_matching_window(&before, 4, 2), Some(1));
    assert_eq!(find_matching_window(&after, 6, 2), Some(1));
}

#[test]
fn higher_volume_bar_selects_a_subsequence() {
    let listing = ExchangeInfo {
        symbols: vec![
            info("XRPUSDT", "TRADING", "USDT"),
            info("BTCUSDT", "TRADING", "USDT"),
            info("ADAUSDT", "TRADING", "USDT"),
            info("SOLUSDT", "TRADING", "USDT"),
        ],
    };
    let low_bar = tradable_symbols(&listing, &vec![true, true, true, true]);
    let high_bar = tradable_symbols(&listing, &vec![true, false, true, false]);
    assert_eq!(low_bar, strings(&["ADAUSDT", "BTCUSDT", "SOLUSDT", "XRPUSDT"]));
    assert_eq!(high_bar, strings(&["ADAUSDT", "XRPUSDT"]));
}
