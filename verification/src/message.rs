//! The text of a momentum alert.

use vstd::prelude::*;
use vstd::string::StringExecFns;
use crate::decimal::{push_char, push_padded, push_decimal, push_signed_padded, spec_decimal, spec_signed_padded, zero_pad};

verus! {

/// Characters that Telegram's MarkdownV2 gives a meaning to, and which must
/// be preceded by a backslash to stand for themselves.
pub open spec fn is_markdown_special(c: char) -> bool {
    c == '_' || c == '*' || c == '[' || c == ']' || c == '(' || c == ')' || c == '~' || c == '`'
        || c == '>' || c == '#' || c == '+' || c == '-' || c == '=' || c == '|' || c == '{'
        || c == '}' || c == '.' || c == '!' || c == '\\'
}

/// `s` with a backslash before each MarkdownV2 special character.
pub open spec fn spec_escape_markdown_v2(s: Seq<char>) -> Seq<char>
    decreases s.len(),
{
    if s.len() == 0 {
        Seq::empty()
    } else {
        let c = s.last();
        spec_escape_markdown_v2(s.drop_last()) + if is_markdown_special(c) { seq!['\\', c] } else { seq![c] }
    }
}

fn is_special(c: char) -> (r: bool)
    ensures
        r == is_markdown_special(c),
{
    c == '_' || c == '*' || c == '[' || c == ']' || c == '(' || c == ')' || c == '~' || c == '`'
        || c == '>' || c == '#' || c == '+' || c == '-' || c == '=' || c == '|' || c == '{'
        || c == '}' || c == '.' || c == '!' || c == '\\'
}

/// Escapes `text` for a Telegram message in MarkdownV2.
pub fn escape_markdown_v2(text: &str) -> (r: String)
    ensures
        r@ == spec_escape_markdown_v2(text@),
{
    broadcast use vstd::string::axiom_spec_iter;
    let mut r = String::new();
    for c in it: text.chars()
        invariant
            it.seq() == text@,
            r@ == spec_escape_markdown_v2(text@.take(it.index())),
    {
        assert(text@.take(it.index() + 1).drop_last() =~= text@.take(it.index()));
        assert(text@.take(it.index() + 1).last() == c);
        if is_special(c) {
            push_char(&mut r, '\\');
        }
        push_char(&mut r, c);
    }
    assert(text@.take(text@.len() as int) =~= text@);
    r
}

/// Appends the escaped form of `text` to `out`.
fn push_escaped(out: &mut String, text: &str)
    ensures
        final(out)@ == old(out)@ + spec_escape_markdown_v2(text@),
{
    let e = escape_markdown_v2(text);
    out.append(e.as_str());
}

/// The suffix that marks a symbol quoted in USDT.
pub open spec fn usdt() -> Seq<char> {
    seq!['U', 'S', 'D', 'T']
}

/// A symbol without its `USDT` suffix, as `strip_suffix` gives it; a
/// symbol without that suffix stays as it is.
pub open spec fn spec_base_asset(symbol: Seq<char>) -> Seq<char> {
    if symbol.len() >= 4 && symbol.subrange(symbol.len() - 4, symbol.len() as int) == usdt() {
        symbol.subrange(0, symbol.len() - 4)
    } else {
        symbol
    }
}

/// The asset that `symbol` quotes in USDT.
pub fn base_asset(symbol: &str) -> (r: String)
    ensures
        r@ == spec_base_asset(symbol@),
{
    let n = symbol.unicode_len();
    if n >= 4 && symbol.get_char(n - 4) == 'U' && symbol.get_char(n - 3) == 'S'
        && symbol.get_char(n - 2) == 'D' && symbol.get_char(n - 1) == 'T'
    {
        assert(symbol@.subrange(n - 4, n as int) =~= usdt());
        String::from_str(symbol.substring_char(0, n - 4))
    } else {
        proof {
            if n >= 4 {
                let tail = symbol@.subrange(n - 4, n as int);
                if tail == usdt() {
                    assert(tail[0] == 'U' && tail[1] == 'S' && tail[2] == 'D' && tail[3] == 'T');
                }
            }
        }
        String::from_str(symbol)
    }
}

/// `parts` joined with `sep` between neighbours.
pub open spec fn spec_join(parts: Seq<Seq<char>>, sep: Seq<char>) -> Seq<char>
    decreases parts.len(),
{
    if parts.len() == 0 {
        Seq::empty()
    } else if parts.len() == 1 {
        parts[0]
    } else {
        spec_join(parts.drop_last(), sep) + sep + parts.last()
    }
}

/// Joins the percentage changes of a streak with ` > `, as `join` does.
pub fn join_changes(parts: &Vec<String>) -> (r: String)
    ensures
        r@ == spec_join(parts@.map_values(|p: String| p@), " > "@),
{
    let ghost views = parts@.map_values(|p: String| p@);
    let mut r = String::new();
    let mut i: usize = 0;
    while i < parts.len()
        invariant
            i <= parts@.len(),
            views == parts@.map_values(|p: String| p@),
            r@ == spec_join(views.take(i as int), " > "@),
        decreases parts@.len() - i,
    {
        assert(views.take(i + 1).drop_last() =~= views.take(i as int));
        if i > 0 {
            r.append(" > ");
        } else {
            assert(views.take(1) =~= seq![views[0]]);
            assert(r@ =~= Seq::<char>::empty());
        }
        r.append(parts[i].as_str());
        proof {
            if i == 0 {
                assert(r@ =~= spec_join(views.take(1), " > "@));
            }
        }
        i = i + 1;
    }
    assert(views.take(parts@.len() as int) =~= views);
    r
}

/// Days of the week.
#[derive(Clone, Copy, Debug, PartialEq, Eq, Structural)]
pub enum Weekday {
    Mon,
    Tue,
    Wed,
    Thu,
    Fri,
    Sat,
    Sun,
}

/// A moment of local time, as a calendar shows it.
#[derive(Clone, Debug, PartialEq, Eq)]
pub struct LocalTime {
    pub year: i32,
    pub month: u32,
    pub day: u32,
    pub hour: u32,
    pub minute: u32,
    pub weekday: Weekday,
}

/// The German name of a day of the week.
pub open spec fn weekday_name_de(w: Weekday) -> Seq<char> {
    match w {
        Weekday::Mon => "Montag"@,
        Weekday::Tue => "Dienstag"@,
        Weekday::Wed => "Mittwoch"@,
        Weekday::Thu => "Donnerstag"@,
        Weekday::Fri => "Freitag"@,
        Weekday::Sat => "Samstag"@,
        Weekday::Sun => "Sonntag"@,
    }
}

fn weekday_name(w: Weekday) -> (r: &'static str)
    ensures
        r@ == weekday_name_de(w),
{
    match w {
        Weekday::Mon => "Montag",
        Weekday::Tue => "Dienstag",
        Weekday::Wed => "Mittwoch",
        Weekday::Thu => "Donnerstag",
        Weekday::Fri => "Freitag",
        Weekday::Sat => "Samstag",
        Weekday::Sun => "Sonntag",
    }
}

/// Two digits at least, zero padded.
pub open spec fn two_digits(n: u32) -> Seq<char> {
    zero_pad(spec_decimal(n as nat), 2)
}

/// `Montag, 05.02.2024 09:07 Uhr`: weekday, date and time of day in German.
pub open spec fn spec_timestamp_de(t: LocalTime) -> Seq<char> {
    weekday_name_de(t.weekday) + ", "@ + two_digits(t.day) + "."@ + two_digits(t.month) + "."@
        + spec_signed_padded(t.year as int, 4) + " "@ + two_digits(t.hour) + ":"@ + two_digits(t.minute)
        + " Uhr"@
}

/// Writes a moment as a German date and time of day, with the weekday.
pub fn format_timestamp_de(time: &LocalTime) -> (r: String)
    ensures
        r@ == spec_timestamp_de(*time),
{
    let mut r = String::from_str(weekday_name(time.weekday));
    r.append(", ");
    push_padded(&mut r, time.day as u64, 2);
    r.append(".");
    push_padded(&mut r, time.month as u64, 2);
    r.append(".");
    push_signed_padded(&mut r, time.year as i64, 4);
    r.append(" ");
    push_padded(&mut r, time.hour as u64, 2);
    r.append(":");
    push_padded(&mut r, time.minute as u64, 2);
    r.append(" Uhr");
    r
}

/// The settings quoted at the end of an alert; `threshold_text` is the
/// threshold already written with two decimals.
pub open spec fn spec_config_info(interval_secs: u64, threshold_text: Seq<char>, candle_interval: Seq<char>) -> Seq<char> {
    "Refresh: "@ + spec_decimal(interval_secs as nat) + "s\nThreshold: "@ + threshold_text + "%\nCandle Length: "@
        + candle_interval
}

/// The link to the exchange's trading page of a base asset.
pub open spec fn spec_trade_url(base: Seq<char>) -> Seq<char> {
    "https://www.binance.com/de/trade/"@ + base + "_USDT"@
}

/// The whole alert: the time of the request, the pair in bold, the changes
/// of the streak, the settings and the trading link, each escaped.
pub open spec fn spec_momentum_alert(
    request_ts: Seq<char>,
    symbol: Seq<char>,
    change_parts: Seq<Seq<char>>,
    interval_secs: u64,
    threshold_text: Seq<char>,
    candle_interval: Seq<char>,
) -> Seq<char> {
    let base = spec_base_asset(symbol);
    let pair = base + "/USDT"@;
    let changes = spec_join(change_parts, " > "@);
    let info = spec_config_info(interval_secs, threshold_text, candle_interval);
    spec_escape_markdown_v2(request_ts) + "\n\n*"@ + spec_escape_markdown_v2(pair) + "*\n"@
        + spec_escape_markdown_v2(changes) + "\n\n"@ + spec_escape_markdown_v2(info) + "\n"@
        + spec_escape_markdown_v2(spec_trade_url(base))
}

/// Composes the alert for `symbol` at `now`, with the percentage changes of
/// its streak, the refresh interval, the threshold (written with two
/// decimals) and the candle interval.
pub fn momentum_alert_text(
    now: &LocalTime,
    symbol: &str,
    change_parts: &Vec<String>,
    interval_secs: u64,
    threshold_text: &str,
    candle_interval: &str,
) -> (r: String)
    ensures
        r@ == spec_momentum_alert(
            spec_timestamp_de(*now),
            symbol@,
            change_parts@.map_values(|p: String| p@),
            interval_secs,
            threshold_text@,
            candle_interval@,
        ),
{
    let request_ts = format_timestamp_de(now);
    let base = base_asset(symbol);
    let trade_url = String::from_str("https://www.binance.com/de/trade/").concat(base.as_str()).concat("_USDT");
    let pair = base.concat("/USDT");
    let changes = join_changes(change_parts);
    let mut info = String::from_str("Refresh: ");
    push_decimal(&mut info, interval_secs);
    info.append("s\nThreshold: ");
    info.append(threshold_text);
    info.append("%\nCandle Length: ");
    info.append(candle_interval);
    let mut message = String::new();
    push_escaped(&mut message, request_ts.as_str());
    message.append("\n\n*");
    push_escaped(&mut message, pair.as_str());
    message.append("*\n");
    push_escaped(&mut message, changes.as_str());
    message.append("\n\n");
    push_escaped(&mut message, info.as_str());
    message.append("\n");
    push_escaped(&mut message, trade_url.as_str());
    assert(message@ =~= spec_momentum_alert(
        spec_timestamp_de(*now),
        symbol@,
        change_parts@.map_values(|p: String| p@),
        interval_secs,
        threshold_text@,
        candle_interval@,
    ));
    message
}

/// The German timestamp begins with the German name of its day of the
/// week: Montag, Dienstag, Mittwoch, Donnerstag, Freitag, Samstag, Sonntag
/// for Monday to Sunday.
pub proof fn law_timestamp_names_the_weekday(t: LocalTime)
    ensures
        t.weekday == Weekday::Mon ==> exists|rest: Seq<char>| spec_timestamp_de(t) == "Montag, "@ + rest,
        t.weekday == Weekday::Tue ==> exists|rest: Seq<char>| spec_timestamp_de(t) == "Dienstag, "@ + rest,
        t.weekday == Weekday::Wed ==> exists|rest: Seq<char>| spec_timestamp_de(t) == "Mittwoch, "@ + rest,
        t.weekday == Weekday::Thu ==> exists|rest: Seq<char>| spec_timestamp_de(t) == "Donnerstag, "@ + rest,
        t.weekday == Weekday::Fri ==> exists|rest: Seq<char>| spec_timestamp_de(t) == "Freitag, "@ + rest,
        t.weekday == Weekday::Sat ==> exists|rest: Seq<char>| spec_timestamp_de(t) == "Samstag, "@ + rest,
        t.weekday == Weekday::Sun ==> exists|rest: Seq<char>| spec_timestamp_de(t) == "Sonntag, "@ + rest,
{
    reveal_strlit("Montag");
    reveal_strlit("Dienstag");
    reveal_strlit("Mittwoch");
    reveal_strlit("Donnerstag");
    reveal_strlit("Freitag");
    reveal_strlit("Samstag");
    reveal_strlit("Sonntag");
    reveal_strlit(", ");
    reveal_strlit("Montag, ");
    reveal_strlit("Dienstag, ");
    reveal_strlit("Mittwoch, ");
    reveal_strlit("Donnerstag, ");
    reveal_strlit("Freitag, ");
    reveal_strlit("Samstag, ");
    reveal_strlit("Sonntag, ");
    let name = weekday_name_de(t.weekday);
    let rest = two_digits(t.day) + "."@ + two_digits(t.month) + "."@ + spec_signed_padded(t.year as int, 4) + " "@
        + two_digits(t.hour) + ":"@ + two_digits(t.minute) + " Uhr"@;
    assert(spec_timestamp_de(t) =~= (name + ", "@) + rest);
    match t.weekday {
        Weekday::Mon => assert("Montag"@ + ", "@ =~= "Montag, "@),
        Weekday::Tue => assert("Dienstag"@ + ", "@ =~= "Dienstag, "@),
        Weekday::Wed => assert("Mittwoch"@ + ", "@ =~= "Mittwoch, "@),
        Weekday::Thu => assert("Donnerstag"@ + ", "@ =~= "Donnerstag, "@),
        Weekday::Fri => assert("Freitag"@ + ", "@ =~= "Freitag, "@),
        Weekday::Sat => assert("Samstag"@ + ", "@ =~= "Samstag, "@),
        Weekday::Sun => assert("Sonntag"@ + ", "@ =~= "Sonntag, "@),
    }
}

/// The alert names the pair and links the trading page by the base asset:
/// the symbol without its `USDT` suffix, or the whole symbol when it has no
/// such suffix. After the escaped time comes the escaped pair `BASE/USDT`
/// in bold, and the alert ends with the escaped link to
/// `https://www.binance.com/de/trade/BASE_USDT`.
pub proof fn law_alert_names_the_base_asset(
    request_ts: Seq<char>,
    symbol: Seq<char>,
    change_parts: Seq<Seq<char>>,
    interval_secs: u64,
    threshold_text: Seq<char>,
    candle_interval: Seq<char>,
    base: Seq<char>,
)
    requires
        symbol == base + "USDT"@ || (base == symbol && !(exists|p: Seq<char>| symbol == p + "USDT"@)),
    ensures
        exists|mid: Seq<char>|
            spec_momentum_alert(request_ts, symbol, change_parts, interval_secs, threshold_text, candle_interval)
                == spec_escape_markdown_v2(request_ts) + "\n\n*"@ + spec_escape_markdown_v2(base + "/USDT"@) + "*\n"@
                + mid + spec_escape_markdown_v2("https://www.binance.com/de/trade/"@ + base + "_USDT"@),
{
    reveal_strlit("USDT");
    if symbol == base + "USDT"@ {
        assert(symbol.subrange(symbol.len() - 4, symbol.len() as int) =~= usdt());
        assert(symbol.subrange(0, symbol.len() - 4) =~= base);
    } else {
        if symbol.len() >= 4 && symbol.subrange(symbol.len() - 4, symbol.len() as int) == usdt() {
            let p = symbol.subrange(0, symbol.len() - 4);
            assert(symbol =~= p + "USDT"@);
        }
    }
    assert(spec_base_asset(symbol) == base);
    let changes = spec_join(change_parts, " > "@);
    let info = spec_config_info(interval_secs, threshold_text, candle_interval);
    let mid = spec_escape_markdown_v2(changes) + "\n\n"@ + spec_escape_markdown_v2(info) + "\n"@;
    assert(spec_momentum_alert(request_ts, symbol, change_parts, interval_secs, threshold_text, candle_interval)
        =~= spec_escape_markdown_v2(request_ts) + "\n\n*"@ + spec_escape_markdown_v2(base + "/USDT"@) + "*\n"@
        + mid + spec_escape_markdown_v2("https://www.binance.com/de/trade/"@ + base + "_USDT"@));
}

/// Escaping works character by character: the escape of a concatenation
/// is the concatenation of the escapes.
pub proof fn law_escape_distributes(a: Seq<char>, b: Seq<char>)
    ensures
        spec_escape_markdown_v2(a + b) == spec_escape_markdown_v2(a) + spec_escape_markdown_v2(b),
    decreases b.len(),
{
    if b.len() == 0 {
        assert(a + b =~= a);
        assert(spec_escape_markdown_v2(a) + spec_escape_markdown_v2(b) =~= spec_escape_markdown_v2(a));
    } else {
        let c = b.last();
        assert((a + b).drop_last() =~= a + b.drop_last());
        assert((a + b).last() == c);
        law_escape_distributes(a, b.drop_last());
        let tail = if is_markdown_special(c) { seq!['\\', c] } else { seq![c] };
        assert(spec_escape_markdown_v2(a) + spec_escape_markdown_v2(b.drop_last()) + tail
            =~= spec_escape_markdown_v2(a) + (spec_escape_markdown_v2(b.drop_last()) + tail));
    }
}

/// Each character that MarkdownV2 reserves (underscore, asterisk, square
/// brackets, parentheses, tilde, backtick, `>`, `#`, `+`, `-`, `=`, `|`,
/// braces, dot, exclamation mark and the backslash itself) gets a backslash
/// in front; ASCII letters, digits and spaces pass unchanged.
pub proof fn law_escape_single_character(c: char)
    ensures
        (c == '_' || c == '*' || c == '[' || c == ']' || c == '(' || c == ')' || c == '~' || c == '`'
            || c == '>' || c == '#' || c == '+' || c == '-' || c == '=' || c == '|' || c == '{'
            || c == '}' || c == '.' || c == '!' || c == '\\') ==> spec_escape_markdown_v2(seq![c]) == seq!['\\', c],
        (('a' <= c && c <= 'z') || ('A' <= c && c <= 'Z') || ('0' <= c && c <= '9') || c == ' ')
            ==> spec_escape_markdown_v2(seq![c]) == seq![c],
{
    let one: Seq<char> = seq![c];
    assert(one.drop_last() =~= Seq::<char>::empty());
    assert(one.last() == c);
    assert(spec_escape_markdown_v2(Seq::<char>::empty()) == Seq::<char>::empty());
    let tail = if is_markdown_special(c) { seq!['\\', c] } else { seq![c] };
    assert(spec_escape_markdown_v2(one) == spec_escape_markdown_v2(one.drop_last()) + tail);
    assert(Seq::<char>::empty() + tail =~= tail);
}

} // verus!
